//! Compact snapshots of what a model request exposes: prompt segments, tool
//! schemas and the request chains that were entered.
use vstd::prelude::*;
use vstd::string::StringSliceAdditionalSpecFns;
use vstd::utf8::encode_utf8;

use crate::digest::stable_hash;
use crate::digest::stable_hash_of;
use crate::sorting::is_sorted_by;
use crate::sorting::lemma_sort_stable_by_props;
use crate::sorting::rank_lt;
use crate::sorting::sort_stable_by;
use crate::sorting::stable_sort;
use crate::sorting::Ranked;
use crate::text::append_str;
use crate::text::chars_of;
use crate::text::find_chars;
use crate::text::find_first;
use crate::text::opt_str_is;
use crate::text::opt_text_is;
use crate::text::owned;
use crate::text::push_char;
use crate::text::str_eq;
use crate::text::string_from_chars;
use crate::text::trim;
use crate::text::trim_bounds;
use crate::tokens::approx_token_count;
use crate::tokens::approx_tokens_for_byte_count;
use crate::tokens::approx_tokens_from_byte_count;
use crate::tokens::approx_tokens_for_bytes;

verus! {

broadcast use vstd::string::group_string_axioms;

/// The version of the snapshot layout.
pub const SNAPSHOT_SCHEMA_VERSION: u32 = 1;

/// How much a prompt segment matters to the model's behavior.
#[derive(Debug, Clone, Copy, PartialEq, Eq, Structural)]
pub enum PromptCriticality {
    Critical,
    High,
    Medium,
    Low,
}

/// How a tool schema is offered to the model.
#[derive(Debug, Clone, Copy, PartialEq, Eq, Structural)]
pub enum ToolExposure {
    Direct,
    Deferred,
    Hosted,
    Search,
}

/// Whether a request chain was entered.
#[derive(Debug, Clone, Copy, PartialEq, Eq, Structural)]
pub enum ChainStatus {
    Entered,
    Skipped,
    Fallback,
}

/// How strongly traces show that something influences behavior.
#[derive(Debug, Clone, Copy, PartialEq, Eq, Structural)]
pub enum EvidenceStrength {
    Strong,
    Medium,
    Weak,
    /// No evidence at all (serialized as `none`).
    NoEvidence,
}

/// What an optimization finding suggests.
#[derive(Debug, Clone, Copy, PartialEq, Eq, Structural)]
pub enum OptimizationAction {
    Keep,
    Compress,
    LazyLoad,
    RouteConditionally,
    DeleteCandidate,
}

/// One identified piece of the prompt.
#[derive(Debug, Clone, PartialEq, Eq)]
pub struct PromptSegmentTrace {
    pub segment_id: String,
    pub category: String,
    pub role: String,
    pub source: String,
    pub version: String,
    pub token_count_estimate: usize,
    pub byte_count: usize,
    pub criticality: PromptCriticality,
    pub trigger_condition: String,
    pub expected_behavior: Option<String>,
    pub dependencies: Vec<String>,
    pub content_hash: String,
}

/// One tool schema exposed to the model.
#[derive(Debug, Clone, PartialEq, Eq)]
pub struct ToolExposureTrace {
    pub tool_id: String,
    pub name: String,
    pub namespace: Option<String>,
    pub schema_hash: String,
    pub token_count_estimate: usize,
    pub byte_count: usize,
    pub exposure: ToolExposure,
    pub source: String,
    pub called: Option<bool>,
}

/// Whether one request chain was entered on a request.
#[derive(Debug, Clone, PartialEq, Eq)]
pub struct ChainCoverageTrace {
    pub chain_id: String,
    pub status: ChainStatus,
    pub evidence: EvidenceStrength,
    pub reason: Option<String>,
}

/// A suggested prompt or tool optimization.
#[derive(Debug, Clone, PartialEq, Eq)]
pub struct OptimizationFinding {
    pub target_id: String,
    pub target_kind: String,
    pub action: OptimizationAction,
    pub evidence: EvidenceStrength,
    pub reason: String,
    pub token_savings_estimate: usize,
}

/// Everything recorded about one model request.
#[derive(Debug, Clone, PartialEq, Eq)]
pub struct PromptObservabilitySnapshot {
    pub schema_version: u32,
    pub thread_id: Option<String>,
    pub turn_id: Option<String>,
    pub inference_call_id: Option<String>,
    pub model: String,
    pub prompt_segments: Vec<PromptSegmentTrace>,
    pub tools: Vec<ToolExposureTrace>,
    pub chains: Vec<ChainCoverageTrace>,
    pub input_token_count_estimate: usize,
    pub prompt_token_count_estimate: usize,
    pub tool_token_count_estimate: usize,
    pub total_token_count_estimate: usize,
    pub output_schema_present: bool,
    pub output_schema_strict: bool,
    pub parallel_tool_calls: bool,
    pub notes: Vec<String>,
}

// ---------------------------------------------------------------------------
// Mathematical views.
// ---------------------------------------------------------------------------
/// An optional string as optional text.
pub open spec fn opt_view(o: Option<String>) -> Option<Seq<char>> {
    match o {
        Some(s) => Some(s@),
        None => None,
    }
}

/// Strings as texts.
pub open spec fn strings_view(v: Seq<String>) -> Seq<Seq<char>> {
    v.map_values(|s: String| s@)
}

/// The UTF-8 length of a text, as `str::len` gives it.
pub open spec fn byte_len(t: Seq<char>) -> usize {
    encode_utf8(t).len() as usize
}

/// The byte-based token estimate of a text.
pub open spec fn text_tokens(t: Seq<char>) -> usize {
    approx_tokens_for_bytes(byte_len(t) as nat) as usize
}

/// A prompt segment as plain values.
pub struct SegmentView {
    pub segment_id: Seq<char>,
    pub category: Seq<char>,
    pub role: Seq<char>,
    pub source: Seq<char>,
    pub version: Seq<char>,
    pub token_count_estimate: usize,
    pub byte_count: usize,
    pub criticality: PromptCriticality,
    pub trigger_condition: Seq<char>,
    pub expected_behavior: Option<Seq<char>>,
    pub dependencies: Seq<Seq<char>>,
    pub content_hash: Seq<char>,
}

impl View for PromptSegmentTrace {
    type V = SegmentView;

    open spec fn view(&self) -> SegmentView {
        SegmentView {
            segment_id: self.segment_id@,
            category: self.category@,
            role: self.role@,
            source: self.source@,
            version: self.version@,
            token_count_estimate: self.token_count_estimate,
            byte_count: self.byte_count,
            criticality: self.criticality,
            trigger_condition: self.trigger_condition@,
            expected_behavior: opt_view(self.expected_behavior),
            dependencies: strings_view(self.dependencies@),
            content_hash: self.content_hash@,
        }
    }
}

/// Segments as plain values.
pub open spec fn segment_views(v: Seq<PromptSegmentTrace>) -> Seq<SegmentView> {
    v.map_values(|s: PromptSegmentTrace| s@)
}

// ---------------------------------------------------------------------------
// Identifier slugs.
// ---------------------------------------------------------------------------
/// `char::is_ascii_alphanumeric`.
pub open spec fn is_ascii_alnum(c: char) -> bool {
    ('0' <= c && c <= '9') || ('A' <= c && c <= 'Z') || ('a' <= c && c <= 'z')
}

/// A character of a slug: lowercase ASCII letters and digits are kept (upper
/// case lowered), everything else becomes `_`.
pub open spec fn slug_char(c: char) -> char {
    if is_ascii_alnum(c) {
        if 'A' <= c && c <= 'Z' {
            ((c as u32 + 32) as u8) as char
        } else {
            c
        }
    } else {
        '_'
    }
}

/// Number of `_` at the start of `s`.
pub open spec fn leading_underscores(s: Seq<char>) -> nat
    decreases s.len(),
{
    if s.len() > 0 && s[0] == '_' {
        1 + leading_underscores(s.drop_first())
    } else {
        0
    }
}

/// Number of `_` at the end of `s`.
pub open spec fn trailing_underscores(s: Seq<char>) -> nat
    decreases s.len(),
{
    if s.len() > 0 && s.last() == '_' {
        1 + trailing_underscores(s.drop_last())
    } else {
        0
    }
}

/// `s` without leading and trailing `_` (`str::trim_matches('_')`).
pub open spec fn trim_underscores(s: Seq<char>) -> Seq<char> {
    let t = s.skip(leading_underscores(s) as int);
    t.take(t.len() - trailing_underscores(t))
}

/// The slug of a name, used inside identifiers.
pub open spec fn slug(s: Seq<char>) -> Seq<char> {
    let t = trim_underscores(s.map_values(|c: char| slug_char(c)));
    if t.len() == 0 {
        "unknown"@
    } else {
        t
    }
}

proof fn lemma_leading_underscores_bound(s: Seq<char>)
    ensures
        leading_underscores(s) <= s.len(),
    decreases s.len(),
{
    if s.len() > 0 && s[0] == '_' {
        lemma_leading_underscores_bound(s.drop_first());
    }
}

/// A lowercase ASCII letter, an ASCII digit, or `_`.
pub open spec fn is_slug_char(c: char) -> bool {
    ('a' <= c && c <= 'z') || ('0' <= c && c <= '9') || c == '_'
}

proof fn lemma_leading_underscores(s: Seq<char>)
    ensures
        leading_underscores(s) <= s.len(),
        leading_underscores(s) < s.len() ==> s[leading_underscores(s) as int] != '_',
    decreases s.len(),
{
    if s.len() > 0 && s[0] == '_' {
        lemma_leading_underscores(s.drop_first());
    }
}

proof fn lemma_trailing_underscores(s: Seq<char>)
    ensures
        trailing_underscores(s) <= s.len(),
        trailing_underscores(s) < s.len() ==> s[s.len() - 1 - trailing_underscores(s)] != '_',
    decreases s.len(),
{
    if s.len() > 0 && s.last() == '_' {
        lemma_trailing_underscores(s.drop_last());
    }
}

/// Every slug is non-empty, is made of lowercase ASCII letters, digits and
/// `_`, and neither starts nor ends with `_`.
pub proof fn slugs_are_identifier_safe(value: Seq<char>)
    ensures
        slug(value).len() > 0,
        forall|i: int| 0 <= i < slug(value).len() ==> is_slug_char(#[trigger] slug(value)[i]),
        slug(value)[0] != '_',
        slug(value).last() != '_',
{
    let m = value.map_values(|c: char| slug_char(c));
    assert forall|i: int| 0 <= i < m.len() implies is_slug_char(#[trigger] m[i]) by {
        let c = value[i];
        if 'A' <= c && c <= 'Z' {
            assert(((c as u32 + 32) as u8) as char == slug_char(c));
        }
    }
    let lead = leading_underscores(m);
    lemma_leading_underscores(m);
    let u = m.skip(lead as int);
    let trail = trailing_underscores(u);
    lemma_trailing_underscores(u);
    let t = u.take(u.len() - trail);
    assert(t == trim_underscores(m));
    if t.len() == 0 {
        reveal_strlit("unknown");
    } else {
        assert(t[0] == m[lead as int]);
        assert(t.last() == u[u.len() - 1 - trail]);
        assert forall|i: int| 0 <= i < t.len() implies is_slug_char(#[trigger] t[i]) by {
            assert(t[i] == m[lead + i]);
        }
    }
}

/// Lowercases ASCII letters and digits, turns every other character into `_`,
/// strips `_` at both ends, and gives `unknown` for an empty result.
pub fn slugify(value: &str) -> (r: String)
    ensures
        r@ == slug(value@),
{
    let cs = chars_of(value);
    let mut mapped: Vec<char> = Vec::new();
    let mut i: usize = 0;
    while i < cs.len()
        invariant
            i <= cs@.len(),
            cs@ == value@,
            mapped@ == cs@.take(i as int).map_values(|c: char| slug_char(c)),
        decreases cs.len() - i,
    {
        let c = cs[i];
        let m = if ('0' <= c && c <= '9') || ('a' <= c && c <= 'z') {
            c
        } else if 'A' <= c && c <= 'Z' {
            ((c as u32 + 32) as u8) as char
        } else {
            '_'
        };
        assert(m == slug_char(c));
        mapped.push(m);
        assert(cs@.take(i + 1).map_values(|c: char| slug_char(c)) =~= cs@.take(i as int).map_values(
            |c: char| slug_char(c),
        ).push(slug_char(c)));
        i += 1;
    }
    assert(cs@.take(cs@.len() as int) == cs@);
    let ghost s = mapped@;
    let mut a: usize = 0;
    assert(s.skip(0) == s);
    while a < mapped.len() && mapped[a] == '_'
        invariant
            a <= mapped@.len(),
            s == mapped@,
            leading_underscores(s) == a + leading_underscores(s.skip(a as int)),
        decreases mapped.len() - a,
    {
        assert(s.skip(a as int).drop_first() == s.skip(a + 1));
        a += 1;
    }
    assert(leading_underscores(s.skip(a as int)) == 0);
    let ghost t = s.skip(a as int);
    let mut b = mapped.len();
    assert(t.take(b - a) == t);
    while b > a && mapped[b - 1] == '_'
        invariant
            a <= b <= mapped@.len(),
            s == mapped@,
            t == s.skip(a as int),
            trailing_underscores(t) == (mapped@.len() - b) + trailing_underscores(t.take(b - a)),
        decreases b - a,
    {
        assert(t.take(b - a).drop_last() == t.take(b - 1 - a));
        b -= 1;
    }
    assert(trailing_underscores(t.take(b - a)) == 0);
    assert(t.take(t.len() - trailing_underscores(t)) == mapped@.subrange(a as int, b as int));
    if a == b {
        owned("unknown")
    } else {
        string_from_chars(&mapped, a, b)
    }
}


// ---------------------------------------------------------------------------
// Segments for pieces of context.
// ---------------------------------------------------------------------------
/// An optional string slice as optional text.
pub open spec fn opt_str_view(o: Option<&str>) -> Option<Seq<char>> {
    match o {
        Some(s) => Some(s@),
        None => None,
    }
}

/// The segment recorded for a piece of context text: identified by the slug of
/// its name, measured in bytes and estimated tokens, and hashed.
pub open spec fn context_segment_view(
    name: Seq<char>,
    category: Seq<char>,
    role: Seq<char>,
    source: Seq<char>,
    text: Seq<char>,
    criticality: PromptCriticality,
    trigger_condition: Seq<char>,
    expected_behavior: Option<Seq<char>>,
) -> SegmentView {
    SegmentView {
        segment_id: "context:"@ + slug(name) + ":v1"@,
        category,
        role,
        source,
        version: "v1"@,
        token_count_estimate: text_tokens(text),
        byte_count: byte_len(text),
        criticality,
        trigger_condition,
        expected_behavior,
        dependencies: Seq::empty(),
        content_hash: stable_hash_of(text),
    }
}

fn opt_owned(o: Option<&str>) -> (r: Option<String>)
    ensures
        opt_view(r) == opt_str_view(o),
{
    match o {
        Some(s) => Some(owned(s)),
        None => None,
    }
}

fn empty_strings() -> (v: Vec<String>)
    ensures
        strings_view(v@) == Seq::<Seq<char>>::empty(),
{
    let v: Vec<String> = Vec::new();
    assert(strings_view(v@) =~= Seq::<Seq<char>>::empty());
    v
}

fn context_segment(
    name: &str,
    category: &str,
    role: &str,
    source: &str,
    text: &str,
    criticality: PromptCriticality,
    trigger_condition: &str,
    expected_behavior: Option<&str>,
) -> (seg: PromptSegmentTrace)
    ensures
        seg@ == context_segment_view(
            name@,
            category@,
            role@,
            source@,
            text@,
            criticality,
            trigger_condition@,
            opt_str_view(expected_behavior),
        ),
{
    let content_hash = stable_hash(text);
    let mut segment_id = owned("context:");
    let name_slug = slugify(name);
    append_str(&mut segment_id, name_slug.as_str());
    append_str(&mut segment_id, ":v1");
    PromptSegmentTrace {
        segment_id,
        category: owned(category),
        role: owned(role),
        source: owned(source),
        version: owned("v1"),
        token_count_estimate: approx_token_count(text),
        byte_count: text.len(),
        criticality,
        trigger_condition: owned(trigger_condition),
        expected_behavior: opt_owned(expected_behavior),
        dependencies: empty_strings(),
        content_hash,
    }
}

/// The segment for text that no marker identifies, classified by the role of
/// the message that holds it.
pub open spec fn fallback_segment_view(role: Seq<char>, text: Seq<char>) -> SegmentView {
    if role == "developer"@ {
        context_segment_view(
            "developer_instructions"@,
            "developer_instructions"@,
            role,
            "message.text"@,
            text,
            PromptCriticality::High,
            "developer message present"@,
            Some("Model follows developer-provided instructions."@),
        )
    } else if role == "user"@ {
        context_segment_view(
            "user_input_or_context"@,
            "user_input"@,
            role,
            "message.text"@,
            text,
            PromptCriticality::High,
            "user/context message present"@,
            Some("Model responds to user-visible task context."@),
        )
    } else if role == "assistant"@ {
        context_segment_view(
            "assistant_history"@,
            "conversation_history"@,
            role,
            "message.text"@,
            text,
            PromptCriticality::Medium,
            "assistant history retained"@,
            Some("Model can use prior assistant outputs."@),
        )
    } else {
        context_segment_view(
            "conversation_history"@,
            "conversation_history"@,
            role,
            "message.text"@,
            text,
            PromptCriticality::Medium,
            "conversation history retained"@,
            Some("Model can use prior conversation context."@),
        )
    }
}

fn fallback_text_segment(role: &str, text: &str) -> (seg: PromptSegmentTrace)
    ensures
        seg@ == fallback_segment_view(role@, text@),
{
    if str_eq(role, "developer") {
        context_segment(
            "developer_instructions",
            "developer_instructions",
            role,
            "message.text",
            text,
            PromptCriticality::High,
            "developer message present",
            Some("Model follows developer-provided instructions."),
        )
    } else if str_eq(role, "user") {
        context_segment(
            "user_input_or_context",
            "user_input",
            role,
            "message.text",
            text,
            PromptCriticality::High,
            "user/context message present",
            Some("Model responds to user-visible task context."),
        )
    } else if str_eq(role, "assistant") {
        context_segment(
            "assistant_history",
            "conversation_history",
            role,
            "message.text",
            text,
            PromptCriticality::Medium,
            "assistant history retained",
            Some("Model can use prior assistant outputs."),
        )
    } else {
        context_segment(
            "conversation_history",
            "conversation_history",
            role,
            "message.text",
            text,
            PromptCriticality::Medium,
            "conversation history retained",
            Some("Model can use prior conversation context."),
        )
    }
}


// ---------------------------------------------------------------------------
// Markers of injected context inside message text.
// ---------------------------------------------------------------------------
/// A kind of injected context, recognized by a marker in message text.
#[derive(Debug, Clone, Copy, PartialEq, Eq, Structural)]
pub enum MarkerKind {
    Permissions,
    Apps,
    Skills,
    Plugins,
    CollaborationMode,
    Personality,
    EnvironmentContext,
    AgentsInstructions,
    Realtime,
}

/// The marker kinds, in the order in which they are looked for.
pub open spec fn marker_kinds() -> Seq<MarkerKind> {
    seq![
        MarkerKind::Permissions,
        MarkerKind::Apps,
        MarkerKind::Skills,
        MarkerKind::Plugins,
        MarkerKind::CollaborationMode,
        MarkerKind::Personality,
        MarkerKind::EnvironmentContext,
        MarkerKind::AgentsInstructions,
        MarkerKind::Realtime,
    ]
}

/// All marker kinds, in the order in which they are looked for.
fn all_marker_kinds() -> (r: Vec<MarkerKind>)
    ensures
        r@ == marker_kinds(),
{
    let mut r: Vec<MarkerKind> = Vec::new();
    r.push(MarkerKind::Permissions);
    r.push(MarkerKind::Apps);
    r.push(MarkerKind::Skills);
    r.push(MarkerKind::Plugins);
    r.push(MarkerKind::CollaborationMode);
    r.push(MarkerKind::Personality);
    r.push(MarkerKind::EnvironmentContext);
    r.push(MarkerKind::AgentsInstructions);
    r.push(MarkerKind::Realtime);
    assert(r@ =~= marker_kinds());
    r
}

impl MarkerKind {
    /// The text that marks this kind of context.
    pub open spec fn spec_marker(self) -> Seq<char> {
        match self {
            MarkerKind::Permissions => "<permissions instructions>"@,
            MarkerKind::Apps => "<apps_instructions>"@,
            MarkerKind::Skills => "<skills_instructions>"@,
            MarkerKind::Plugins => "<plugins_instructions>"@,
            MarkerKind::CollaborationMode => "<collaboration_mode>"@,
            MarkerKind::Personality => "<personality_spec>"@,
            MarkerKind::EnvironmentContext => "<environment_context>"@,
            MarkerKind::AgentsInstructions => "# AGENTS.md instructions for "@,
            MarkerKind::Realtime => "<realtime"@,
        }
    }

    /// Executable form of `spec_marker`.
    pub fn marker(&self) -> (r: &'static str)
        ensures
            r@ == self.spec_marker(),
    {
        match self {
            MarkerKind::Permissions => "<permissions instructions>",
            MarkerKind::Apps => "<apps_instructions>",
            MarkerKind::Skills => "<skills_instructions>",
            MarkerKind::Plugins => "<plugins_instructions>",
            MarkerKind::CollaborationMode => "<collaboration_mode>",
            MarkerKind::Personality => "<personality_spec>",
            MarkerKind::EnvironmentContext => "<environment_context>",
            MarkerKind::AgentsInstructions => "# AGENTS.md instructions for ",
            MarkerKind::Realtime => "<realtime",
        }
    }

    /// The segment name.
    pub open spec fn spec_name(self) -> Seq<char> {
        match self {
            MarkerKind::Permissions => "permissions"@,
            MarkerKind::Apps => "apps"@,
            MarkerKind::Skills => "skills"@,
            MarkerKind::Plugins => "plugins"@,
            MarkerKind::CollaborationMode => "collaboration_mode"@,
            MarkerKind::Personality => "personality"@,
            MarkerKind::EnvironmentContext => "environment_context"@,
            MarkerKind::AgentsInstructions => "agents_instructions"@,
            MarkerKind::Realtime => "realtime"@,
        }
    }

    /// Executable form of `spec_name`.
    pub fn name(&self) -> (r: &'static str)
        ensures
            r@ == self.spec_name(),
    {
        match self {
            MarkerKind::Permissions => "permissions",
            MarkerKind::Apps => "apps",
            MarkerKind::Skills => "skills",
            MarkerKind::Plugins => "plugins",
            MarkerKind::CollaborationMode => "collaboration_mode",
            MarkerKind::Personality => "personality",
            MarkerKind::EnvironmentContext => "environment_context",
            MarkerKind::AgentsInstructions => "agents_instructions",
            MarkerKind::Realtime => "realtime",
        }
    }

    /// The segment category.
    pub open spec fn spec_category(self) -> Seq<char> {
        match self {
            MarkerKind::Permissions => "permissions"@,
            MarkerKind::Apps => "tools"@,
            MarkerKind::Skills => "capabilities"@,
            MarkerKind::Plugins => "capabilities"@,
            MarkerKind::CollaborationMode => "behavior"@,
            MarkerKind::Personality => "behavior"@,
            MarkerKind::EnvironmentContext => "runtime_context"@,
            MarkerKind::AgentsInstructions => "project_instructions"@,
            MarkerKind::Realtime => "mode_context"@,
        }
    }

    /// Executable form of `spec_category`.
    pub fn category(&self) -> (r: &'static str)
        ensures
            r@ == self.spec_category(),
    {
        match self {
            MarkerKind::Permissions => "permissions",
            MarkerKind::Apps => "tools",
            MarkerKind::Skills => "capabilities",
            MarkerKind::Plugins => "capabilities",
            MarkerKind::CollaborationMode => "behavior",
            MarkerKind::Personality => "behavior",
            MarkerKind::EnvironmentContext => "runtime_context",
            MarkerKind::AgentsInstructions => "project_instructions",
            MarkerKind::Realtime => "mode_context",
        }
    }

    /// How much the segment matters.
    pub open spec fn spec_criticality(self) -> PromptCriticality {
        match self {
            MarkerKind::Permissions => PromptCriticality::Critical,
            MarkerKind::Apps => PromptCriticality::Medium,
            MarkerKind::Skills => PromptCriticality::Medium,
            MarkerKind::Plugins => PromptCriticality::Medium,
            MarkerKind::CollaborationMode => PromptCriticality::Medium,
            MarkerKind::Personality => PromptCriticality::Low,
            MarkerKind::EnvironmentContext => PromptCriticality::High,
            MarkerKind::AgentsInstructions => PromptCriticality::High,
            MarkerKind::Realtime => PromptCriticality::Medium,
        }
    }

    /// Executable form of `spec_criticality`.
    pub fn criticality(&self) -> (r: PromptCriticality)
        ensures
            r == self.spec_criticality(),
    {
        match self {
            MarkerKind::Permissions => PromptCriticality::Critical,
            MarkerKind::Apps => PromptCriticality::Medium,
            MarkerKind::Skills => PromptCriticality::Medium,
            MarkerKind::Plugins => PromptCriticality::Medium,
            MarkerKind::CollaborationMode => PromptCriticality::Medium,
            MarkerKind::Personality => PromptCriticality::Low,
            MarkerKind::EnvironmentContext => PromptCriticality::High,
            MarkerKind::AgentsInstructions => PromptCriticality::High,
            MarkerKind::Realtime => PromptCriticality::Medium,
        }
    }

    /// The behavior the segment is meant to produce.
    pub open spec fn spec_expected_behavior(self) -> Option<Seq<char>> {
        match self {
            MarkerKind::Permissions => Some("Model follows configured approval and sandbox constraints."@),
            MarkerKind::Apps => Some("Model understands app connector tool discovery behavior."@),
            MarkerKind::Skills => Some("Model loads skills only when relevant."@),
            MarkerKind::Plugins => Some("Model understands enabled plugin capabilities."@),
            MarkerKind::CollaborationMode => Some("Model follows the active collaboration mode."@),
            MarkerKind::Personality => Some("Model follows configured personality guidance."@),
            MarkerKind::EnvironmentContext => Some("Model uses current cwd, sandbox, shell, and environment metadata."@),
            MarkerKind::AgentsInstructions => Some("Model follows project-local instructions."@),
            MarkerKind::Realtime => Some("Model follows realtime-mode instructions."@),
        }
    }

    /// Executable form of `spec_expected_behavior`.
    pub fn expected_behavior(&self) -> (r: Option<&'static str>)
        ensures
            opt_str_view(r) == self.spec_expected_behavior(),
    {
        match self {
            MarkerKind::Permissions => Some("Model follows configured approval and sandbox constraints."),
            MarkerKind::Apps => Some("Model understands app connector tool discovery behavior."),
            MarkerKind::Skills => Some("Model loads skills only when relevant."),
            MarkerKind::Plugins => Some("Model understands enabled plugin capabilities."),
            MarkerKind::CollaborationMode => Some("Model follows the active collaboration mode."),
            MarkerKind::Personality => Some("Model follows configured personality guidance."),
            MarkerKind::EnvironmentContext => Some("Model uses current cwd, sandbox, shell, and environment metadata."),
            MarkerKind::AgentsInstructions => Some("Model follows project-local instructions."),
            MarkerKind::Realtime => Some("Model follows realtime-mode instructions."),
        }
    }

}


/// Where a marker was found in a text (an index in characters).
#[derive(Debug, Clone, Copy)]
pub struct MarkerHit {
    pub position: usize,
    pub kind: MarkerKind,
}

impl Ranked for MarkerHit {
    open spec fn comes_before(a: Self, b: Self) -> bool {
        a.position < b.position
    }

    fn before(&self, other: &Self) -> (r: bool) {
        self.position < other.position
    }
}

/// The markers of `kinds` that occur in `text`, each at its first occurrence,
/// in the order of `kinds`.
pub open spec fn marker_hits(text: Seq<char>, kinds: Seq<MarkerKind>) -> Seq<MarkerHit>
    decreases kinds.len(),
{
    if kinds.len() == 0 {
        Seq::empty()
    } else {
        let earlier = marker_hits(text, kinds.drop_last());
        match find_first(text, kinds.last().spec_marker()) {
            Some(i) => earlier.push(MarkerHit { position: i as usize, kind: kinds.last() }),
            None => earlier,
        }
    }
}

/// The segment for the text between the marker at `hits[i]` and the next
/// marker (or the end of the text), trimmed; none if that text is blank.
pub open spec fn marker_piece(
    role: Seq<char>,
    text: Seq<char>,
    hits: Seq<MarkerHit>,
    i: int,
) -> Seq<SegmentView> {
    let start = hits[i].position as int;
    let end = if i + 1 < hits.len() {
        hits[i + 1].position as int
    } else {
        text.len() as int
    };
    let slice = trim(text.subrange(start, end));
    let kind = hits[i].kind;
    if slice.len() == 0 {
        Seq::empty()
    } else {
        seq![
            context_segment_view(
                kind.spec_name(),
                kind.spec_category(),
                role,
                "message.text"@,
                slice,
                kind.spec_criticality(),
                "injected when corresponding runtime context is enabled"@,
                kind.spec_expected_behavior(),
            ),
        ]
    }
}

/// The segments for the first `n` markers of `hits`.
pub open spec fn marker_pieces(
    role: Seq<char>,
    text: Seq<char>,
    hits: Seq<MarkerHit>,
    n: nat,
) -> Seq<SegmentView>
    decreases n,
{
    if n == 0 {
        Seq::empty()
    } else {
        marker_pieces(role, text, hits, (n - 1) as nat) + marker_piece(role, text, hits, n - 1)
    }
}

/// The segments of one message text: without markers the whole text is one
/// fallback segment; otherwise the non-blank text before the first marker is a
/// fallback segment and each marker starts a segment that runs to the next
/// marker, markers taken in order of position.
pub open spec fn text_segments(role: Seq<char>, text: Seq<char>) -> Seq<SegmentView> {
    let hits = sort_stable_by(marker_hits(text, marker_kinds()), rank_lt::<MarkerHit>());
    if hits.len() == 0 {
        seq![fallback_segment_view(role, text)]
    } else {
        let prefix = trim(text.take(hits[0].position as int));
        let head = if hits[0].position > 0 && prefix.len() > 0 {
            seq![fallback_segment_view(role, prefix)]
        } else {
            Seq::empty()
        };
        head + marker_pieces(role, text, hits, hits.len())
    }
}

proof fn lemma_marker_hits_bounded(text: Seq<char>, kinds: Seq<MarkerKind>)
    requires
        text.len() <= usize::MAX,
    ensures
        forall|j: int|
            0 <= j < marker_hits(text, kinds).len() ==> #[trigger] marker_hits(text, kinds)[j].position
                <= text.len(),
    decreases kinds.len(),
{
    if kinds.len() > 0 {
        lemma_marker_hits_bounded(text, kinds.drop_last());
        crate::text::lemma_find_first_bounds(text, kinds.last().spec_marker());
    }
}

/// The segments that one message text contributes.
fn prompt_segments_for_text(role: &str, text: &str) -> (segments: Vec<PromptSegmentTrace>)
    ensures
        segment_views(segments@) == text_segments(role@, text@),
{
    let cs = chars_of(text);
    let kinds = all_marker_kinds();
    let mut hits: Vec<MarkerHit> = Vec::new();
    let mut k: usize = 0;
    while k < kinds.len()
        invariant
            k <= kinds@.len(),
            kinds@ == marker_kinds(),
            cs@ == text@,
            hits@ == marker_hits(text@, kinds@.take(k as int)),
        decreases kinds.len() - k,
    {
        let kind = kinds[k];
        let pattern = chars_of(kind.marker());
        let found = find_chars(&cs, &pattern);
        assert(kinds@.take(k + 1).drop_last() == kinds@.take(k as int));
        match found {
            Some(i) => {
                hits.push(MarkerHit { position: i, kind });
            },
            None => {},
        }
        k += 1;
    }
    assert(kinds@.take(kinds@.len() as int) == kinds@);
    let ghost unsorted = hits@;
    let hits = stable_sort(hits);
    proof {
        assert(crate::sorting::is_strict_order(rank_lt::<MarkerHit>()));
        lemma_sort_stable_by_props(unsorted, rank_lt::<MarkerHit>());
        assert(text@.len() == cs.len());
        lemma_marker_hits_bounded(text@, marker_kinds());
        assert forall|j: int| 0 <= j < hits@.len() implies #[trigger] hits@[j].position <= cs@.len() by {
            assert(hits@.to_multiset().count(hits@[j]) > 0) by {
                broadcast use vstd::seq_lib::group_to_multiset_ensures;
                assert(hits@.contains(hits@[j]));
            }
            assert(unsorted.to_multiset().count(hits@[j]) > 0);
            assert(unsorted.contains(hits@[j])) by {
                broadcast use vstd::seq_lib::group_to_multiset_ensures;
            }
        }
    }
    let mut segments: Vec<PromptSegmentTrace> = Vec::new();
    if hits.len() == 0 {
        segments.push(fallback_text_segment(role, text));
        assert(segment_views(segments@) =~= text_segments(role@, text@));
        return segments;
    }
    let first = hits[0].position;
    if first > 0 {
        let (a, b) = trim_bounds(&cs, 0, first);
        assert(cs@.subrange(0, first as int) == text@.take(first as int));
        if a < b {
            let prefix = string_from_chars(&cs, a, b);
            segments.push(fallback_text_segment(role, prefix.as_str()));
        }
    }
    let ghost head = segment_views(segments@);
    assert(head == text_segments(role@, text@).take(head.len() as int)) by {
        assert(head =~= (if first > 0 && trim(text@.take(first as int)).len() > 0 {
            seq![fallback_segment_view(role@, trim(text@.take(first as int)))]
        } else {
            Seq::empty()
        }));
    }
    let n = hits.len();
    let mut i: usize = 0;
    while i < n
        invariant
            i <= n == hits@.len(),
            cs@ == text@,
            is_sorted_by(hits@, rank_lt::<MarkerHit>()),
            forall|j: int| 0 <= j < hits@.len() ==> #[trigger] hits@[j].position <= cs@.len(),
            segment_views(segments@) == head + marker_pieces(role@, text@, hits@, i as nat),
        decreases n - i,
    {
        let start = hits[i].position;
        let end = if i + 1 < n {
            hits[i + 1].position
        } else {
            cs.len()
        };
        assert(!MarkerHit::comes_before(hits@[i + 1], hits@[i as int]) ==> start <= end) by {
            if i + 1 < n {
                assert(!MarkerHit::comes_before(hits@[i + 1], hits@[i as int]));
            }
        }
        let (a, b) = trim_bounds(&cs, start, end);
        let ghost before = segments@;
        if a < b {
            let slice = string_from_chars(&cs, a, b);
            let kind = hits[i].kind;
            let seg = context_segment(
                kind.name(),
                kind.category(),
                role,
                "message.text",
                slice.as_str(),
                kind.criticality(),
                "injected when corresponding runtime context is enabled",
                kind.expected_behavior(),
            );
            segments.push(seg);
        }
        assert(segment_views(segments@) =~= segment_views(before) + marker_piece(role@, text@, hits@, i as int));
        i += 1;
    }
    assert(segment_views(segments@) =~= text_segments(role@, text@));
    segments
}


// ---------------------------------------------------------------------------
// The request's JSON, as far as snapshots read it.
// ---------------------------------------------------------------------------
/// One content part of a message item.
#[derive(Debug, Clone, PartialEq, Eq)]
pub struct ContentItemJson {
    /// The `type` field when it is a string.
    pub content_type: Option<String>,
    /// The `text` field when it is a string.
    pub text: Option<String>,
    /// The `image_url` field when it is a string.
    pub image_url: Option<String>,
}

/// The `output` field of a tool-output item.
#[derive(Debug, Clone, PartialEq, Eq)]
pub enum OutputJson {
    /// A string output.
    Text(String),
    /// An array output: the `text` string field of each element, if it has one.
    Items(Vec<Option<String>>),
    /// No output field, or one that is neither a string nor an array.
    Other,
}

/// One item of the request input.
#[derive(Debug, Clone, PartialEq, Eq)]
pub struct ResponseItemJson {
    /// The `type` field when it is a string.
    pub item_type: Option<String>,
    /// The `role` field when it is a string.
    pub role: Option<String>,
    /// The `content` field when it is an array.
    pub content: Option<Vec<ContentItemJson>>,
    /// The `output` field.
    pub output: OutputJson,
    /// The compact JSON text of the `tools` field (`null` when absent).
    pub tools_text: String,
    /// The compact JSON text of the whole item.
    pub serialized: String,
}

/// The segments of one content part.
pub open spec fn content_segments(role: Seq<char>, content: ContentItemJson) -> Seq<SegmentView> {
    if opt_text_is(content.content_type, "input_text"@) || opt_text_is(
        content.content_type,
        "output_text"@,
    ) {
        match content.text {
            Some(t) => text_segments(role, t@),
            None => Seq::empty(),
        }
    } else if opt_text_is(content.content_type, "input_image"@) {
        match content.image_url {
            Some(url) => seq![
                context_segment_view(
                    "image_context"@,
                    "media"@,
                    role,
                    "message.input_image"@,
                    url@,
                    PromptCriticality::Medium,
                    "image attached to prompt"@,
                    Some("Model can inspect attached image context."@),
                ),
            ],
            None => Seq::empty(),
        }
    } else {
        Seq::empty()
    }
}

/// The segments of a message's content parts, in order.
pub open spec fn contents_segments(role: Seq<char>, contents: Seq<ContentItemJson>) -> Seq<
    SegmentView,
>
    decreases contents.len(),
{
    if contents.len() == 0 {
        Seq::empty()
    } else {
        contents_segments(role, contents.drop_last()) + content_segments(role, contents.last())
    }
}

/// The texts that are present, in order.
pub open spec fn present_texts(texts: Seq<Option<String>>) -> Seq<Seq<char>>
    decreases texts.len(),
{
    if texts.len() == 0 {
        Seq::empty()
    } else {
        let earlier = present_texts(texts.drop_last());
        match texts.last() {
            Some(t) => earlier.push(t@),
            None => earlier,
        }
    }
}

/// Texts joined with newlines between them.
pub open spec fn join_lines(texts: Seq<Seq<char>>) -> Seq<char>
    decreases texts.len(),
{
    if texts.len() == 0 {
        Seq::empty()
    } else if texts.len() == 1 {
        texts[0]
    } else {
        join_lines(texts.drop_last()) + seq!['\n'] + texts.last()
    }
}

/// The text of a tool output: a string output itself; for an array, the texts
/// of its elements joined by newlines, unless that is empty.
pub open spec fn output_text(output: OutputJson) -> Option<Seq<char>> {
    match output {
        OutputJson::Text(t) => Some(t@),
        OutputJson::Items(items) => {
            let joined = join_lines(present_texts(items@));
            if joined.len() == 0 {
                None
            } else {
                Some(joined)
            }
        },
        OutputJson::Other => None,
    }
}

/// The segments of one input item.
pub open spec fn item_segments(item: ResponseItemJson) -> Seq<SegmentView> {
    if opt_text_is(item.item_type, "message"@) {
        let role = match item.role {
            Some(r) => r@,
            None => "unknown"@,
        };
        match item.content {
            Some(contents) => contents_segments(role, contents@),
            None => Seq::empty(),
        }
    } else if opt_text_is(item.item_type, "function_call_output"@) || opt_text_is(
        item.item_type,
        "custom_tool_call_output"@,
    ) {
        match output_text(item.output) {
            Some(t) => seq![
                context_segment_view(
                    "tool_output"@,
                    "tool_result"@,
                    "tool"@,
                    "message.tool_output"@,
                    t,
                    PromptCriticality::Medium,
                    "tool result retained in history"@,
                    Some("Model can use previous tool results."@),
                ),
            ],
            None => Seq::empty(),
        }
    } else if opt_text_is(item.item_type, "tool_search_output"@) {
        seq![
            context_segment_view(
                "tool_search_output"@,
                "tool_result"@,
                "tool"@,
                "message.tool_search_output"@,
                item.tools_text@,
                PromptCriticality::Medium,
                "tool_search result retained in history"@,
                Some("Model can use lazy-loaded tool search results."@),
            ),
        ]
    } else {
        Seq::empty()
    }
}

/// Appends `more` to `segments`.
fn append_segments(segments: &mut Vec<PromptSegmentTrace>, more: Vec<PromptSegmentTrace>)
    ensures
        segment_views(final(segments)@) == segment_views(old(segments)@) + segment_views(more@),
{
    let mut more = more;
    let ghost start = segments@;
    let ghost added = more@;
    segments.append(&mut more);
    assert(segment_views(segments@) =~= segment_views(start) + segment_views(added));
}

fn prompt_segments_for_content_item(role: &str, content: &ContentItemJson) -> (segments: Vec<
    PromptSegmentTrace,
>)
    ensures
        segment_views(segments@) == content_segments(role@, *content),
{
    if opt_str_is(&content.content_type, "input_text") || opt_str_is(
        &content.content_type,
        "output_text",
    ) {
        match &content.text {
            Some(t) => prompt_segments_for_text(role, t.as_str()),
            None => {
                let v: Vec<PromptSegmentTrace> = Vec::new();
                assert(segment_views(v@) =~= Seq::<SegmentView>::empty());
                v
            },
        }
    } else if opt_str_is(&content.content_type, "input_image") {
        match &content.image_url {
            Some(url) => {
                let mut v: Vec<PromptSegmentTrace> = Vec::new();
                v.push(
                    context_segment(
                        "image_context",
                        "media",
                        role,
                        "message.input_image",
                        url.as_str(),
                        PromptCriticality::Medium,
                        "image attached to prompt",
                        Some("Model can inspect attached image context."),
                    ),
                );
                assert(segment_views(v@) =~= content_segments(role@, *content));
                v
            },
            None => {
                let v: Vec<PromptSegmentTrace> = Vec::new();
                assert(segment_views(v@) =~= Seq::<SegmentView>::empty());
                v
            },
        }
    } else {
        let v: Vec<PromptSegmentTrace> = Vec::new();
        assert(segment_views(v@) =~= Seq::<SegmentView>::empty());
        v
    }
}

/// The text of a tool output, as `output_text` describes it.
fn text_from_output_value(output: &OutputJson) -> (r: Option<String>)
    ensures
        opt_view(r) == output_text(*output),
{
    match output {
        OutputJson::Text(t) => Some(t.clone()),
        OutputJson::Items(items) => {
            let mut joined = String::new();
            let ghost mut seen: Seq<Seq<char>> = Seq::empty();
            let mut wrote = false;
            let mut i: usize = 0;
            while i < items.len()
                invariant
                    i <= items@.len(),
                    wrote == (seen.len() > 0),
                    seen == present_texts(items@.take(i as int)),
                    joined@ == join_lines(seen),
                decreases items.len() - i,
            {
                assert(items@.take(i + 1).drop_last() == items@.take(i as int));
                match &items[i] {
                    Some(t) => {
                        if wrote {
                            push_char(&mut joined, '\n');
                        }
                        wrote = true;
                        let ghost prev = joined@;
                        append_str(&mut joined, t.as_str());
                        proof {
                            if seen.len() == 0 {
                                assert(joined@ =~= t@);
                            }
                            seen = seen.push(t@);
                            assert(seen.drop_last() == present_texts(items@.take(i as int)));
                        }
                    },
                    None => {},
                }
                i += 1;
            }
            assert(items@.take(items@.len() as int) == items@);
            if joined.as_str().is_empty() {
                None
            } else {
                Some(joined)
            }
        },
        OutputJson::Other => None,
    }
}

/// The segments that one input item contributes.
fn prompt_segments_for_response_item(item: &ResponseItemJson) -> (segments: Vec<PromptSegmentTrace>)
    ensures
        segment_views(segments@) == item_segments(*item),
{
    let mut segments: Vec<PromptSegmentTrace> = Vec::new();
    if opt_str_is(&item.item_type, "message") {
        let role = match &item.role {
            Some(r) => r.clone(),
            None => owned("unknown"),
        };
        match &item.content {
            Some(contents) => {
                let mut i: usize = 0;
                while i < contents.len()
                    invariant
                        i <= contents@.len(),
                        segment_views(segments@) == contents_segments(role@, contents@.take(i as int)),
                    decreases contents.len() - i,
                {
                    let more = prompt_segments_for_content_item(role.as_str(), &contents[i]);
                    append_segments(&mut segments, more);
                    assert(contents@.take(i + 1).drop_last() == contents@.take(i as int));
                    i += 1;
                }
                assert(contents@.take(contents@.len() as int) == contents@);
            },
            None => {},
        }
    } else if opt_str_is(&item.item_type, "function_call_output") || opt_str_is(
        &item.item_type,
        "custom_tool_call_output",
    ) {
        match text_from_output_value(&item.output) {
            Some(t) => {
                segments.push(
                    context_segment(
                        "tool_output",
                        "tool_result",
                        "tool",
                        "message.tool_output",
                        t.as_str(),
                        PromptCriticality::Medium,
                        "tool result retained in history",
                        Some("Model can use previous tool results."),
                    ),
                );
            },
            None => {},
        }
    } else if opt_str_is(&item.item_type, "tool_search_output") {
        segments.push(
            context_segment(
                "tool_search_output",
                "tool_result",
                "tool",
                "message.tool_search_output",
                item.tools_text.as_str(),
                PromptCriticality::Medium,
                "tool_search result retained in history",
                Some("Model can use lazy-loaded tool search results."),
            ),
        );
    }
    assert(segment_views(segments@) =~= item_segments(*item));
    segments
}


// ---------------------------------------------------------------------------
// Tool schemas.
// ---------------------------------------------------------------------------
/// A tool nested in a namespace (or listed in a tool search result).
#[derive(Debug, Clone, PartialEq, Eq)]
pub struct ToolJsonEntry {
    /// The `name` field when it is a string.
    pub name: Option<String>,
    /// The `defer_loading` field when it is a boolean.
    pub defer_loading: Option<bool>,
    /// The compact JSON text of the entry.
    pub serialized: String,
}

/// One tool of the request's tool list.
#[derive(Debug, Clone, PartialEq, Eq)]
pub struct ToolJson {
    /// The `type` field when it is a string.
    pub tool_type: Option<String>,
    /// The `name` field when it is a string.
    pub name: Option<String>,
    /// The `defer_loading` field when it is a boolean.
    pub defer_loading: Option<bool>,
    /// The `tools` field when it is an array.
    pub tools: Option<Vec<ToolJsonEntry>>,
    /// The compact JSON text of the tool.
    pub serialized: String,
}

/// A tool trace as plain values.
pub struct ToolView {
    pub tool_id: Seq<char>,
    pub name: Seq<char>,
    pub namespace: Option<Seq<char>>,
    pub schema_hash: Seq<char>,
    pub token_count_estimate: usize,
    pub byte_count: usize,
    pub exposure: ToolExposure,
    pub source: Seq<char>,
    pub called: Option<bool>,
}

impl View for ToolExposureTrace {
    type V = ToolView;

    open spec fn view(&self) -> ToolView {
        ToolView {
            tool_id: self.tool_id@,
            name: self.name@,
            namespace: opt_view(self.namespace),
            schema_hash: self.schema_hash@,
            token_count_estimate: self.token_count_estimate,
            byte_count: self.byte_count,
            exposure: self.exposure,
            source: self.source@,
            called: self.called,
        }
    }
}

/// Tool traces as plain values.
pub open spec fn tool_views(v: Seq<ToolExposureTrace>) -> Seq<ToolView> {
    v.map_values(|t: ToolExposureTrace| t@)
}

/// The token estimate of a serialized JSON value: its bytes divided by four,
/// rounded up (computed in `u64`), capped at `usize::MAX`.
pub open spec fn json_text_tokens(serialized: Seq<char>) -> usize {
    let t = approx_tokens_for_byte_count(byte_len(serialized) as nat);
    if t <= usize::MAX {
        t as usize
    } else {
        usize::MAX
    }
}

/// Estimates the tokens of a JSON value from its compact serialization.
pub fn estimate_json_tokens(serialized: &str) -> (tokens: usize)
    ensures
        tokens == json_text_tokens(serialized@),
{
    let t = approx_tokens_from_byte_count(serialized.len());
    if t <= usize::MAX as u64 {
        t as usize
    } else {
        usize::MAX
    }
}

/// How a tool with the given `defer_loading` flag is exposed.
pub open spec fn exposure_for(defer_loading: Option<bool>) -> ToolExposure {
    if defer_loading == Some(true) {
        ToolExposure::Deferred
    } else {
        ToolExposure::Direct
    }
}

fn exposure_for_tool(defer_loading: Option<bool>) -> (r: ToolExposure)
    ensures
        r == exposure_for(defer_loading),
{
    match defer_loading {
        Some(true) => ToolExposure::Deferred,
        _ => ToolExposure::Direct,
    }
}

/// The trace of one tool schema: identified by the slugs of its namespace
/// (`global` when it has none) and name and by the hash of its schema text.
pub open spec fn tool_trace_view(
    name: Seq<char>,
    namespace: Option<Seq<char>>,
    schema: Seq<char>,
    exposure: ToolExposure,
    source: Seq<char>,
) -> ToolView {
    let namespace_id = match namespace {
        Some(n) => n,
        None => "global"@,
    };
    ToolView {
        tool_id: "tool:"@ + slug(namespace_id) + ":"@ + slug(name) + ":"@ + stable_hash_of(schema),
        name,
        namespace,
        schema_hash: stable_hash_of(schema),
        token_count_estimate: json_text_tokens(schema),
        byte_count: byte_len(schema),
        exposure,
        source,
        called: None,
    }
}

fn tool_trace(
    name: &str,
    namespace: Option<&str>,
    schema: &str,
    exposure: ToolExposure,
    source: &str,
) -> (t: ToolExposureTrace)
    ensures
        t@ == tool_trace_view(name@, opt_str_view(namespace), schema@, exposure, source@),
{
    let schema_hash = stable_hash(schema);
    let namespace_slug = match namespace {
        Some(n) => slugify(n),
        None => slugify("global"),
    };
    let mut tool_id = owned("tool:");
    append_str(&mut tool_id, namespace_slug.as_str());
    append_str(&mut tool_id, ":");
    let name_slug = slugify(name);
    append_str(&mut tool_id, name_slug.as_str());
    append_str(&mut tool_id, ":");
    append_str(&mut tool_id, schema_hash.as_str());
    ToolExposureTrace {
        tool_id,
        name: owned(name),
        namespace: opt_owned(namespace),
        schema_hash,
        token_count_estimate: estimate_json_tokens(schema),
        byte_count: schema.len(),
        exposure,
        source: owned(source),
        called: None,
    }
}

/// The name a tool entry gives itself, or `default`.
pub open spec fn name_or(name: Option<String>, default: Seq<char>) -> Seq<char> {
    match name {
        Some(n) => n@,
        None => default,
    }
}

/// The traces of the tools of a namespace.
pub open spec fn namespace_entry_traces(namespace: Seq<char>, entries: Seq<ToolJsonEntry>) -> Seq<
    ToolView,
> {
    entries.map_values(
        |e: ToolJsonEntry|
            tool_trace_view(
                name_or(e.name, "namespace_tool"@),
                Some(namespace),
                e.serialized@,
                exposure_for(e.defer_loading),
                "responses.tools.namespace"@,
            ),
    )
}

/// The traces one tool of the request's list contributes: the tools of a
/// namespace one by one, hosted tools as hosted, `tool_search` as search.
pub open spec fn tool_traces_for(value: ToolJson) -> Seq<ToolView> {
    match value.tool_type {
        None => seq![
            tool_trace_view(
                "unknown"@,
                None,
                value.serialized@,
                ToolExposure::Direct,
                "responses.tools"@,
            ),
        ],
        Some(tool_type) => {
            let t = tool_type@;
            if t == "namespace"@ {
                let namespace = name_or(value.name, "namespace"@);
                match value.tools {
                    Some(entries) => namespace_entry_traces(namespace, entries@),
                    None => seq![
                        tool_trace_view(
                            namespace,
                            None,
                            value.serialized@,
                            ToolExposure::Direct,
                            "responses.tools.namespace"@,
                        ),
                    ],
                }
            } else if t == "function"@ || t == "custom"@ {
                seq![
                    tool_trace_view(
                        name_or(value.name, t),
                        None,
                        value.serialized@,
                        exposure_for(value.defer_loading),
                        "responses.tools"@,
                    ),
                ]
            } else if t == "tool_search"@ {
                seq![
                    tool_trace_view(
                        "tool_search"@,
                        None,
                        value.serialized@,
                        ToolExposure::Search,
                        "responses.tools"@,
                    ),
                ]
            } else if t == "local_shell"@ || t == "web_search"@ || t == "image_generation"@ {
                seq![
                    tool_trace_view(
                        t,
                        None,
                        value.serialized@,
                        ToolExposure::Hosted,
                        "responses.tools"@,
                    ),
                ]
            } else {
                seq![
                    tool_trace_view(
                        t,
                        None,
                        value.serialized@,
                        ToolExposure::Direct,
                        "responses.tools"@,
                    ),
                ]
            }
        },
    }
}

fn single_tool(t: ToolExposureTrace) -> (v: Vec<ToolExposureTrace>)
    ensures
        tool_views(v@) == seq![t@],
{
    let mut v: Vec<ToolExposureTrace> = Vec::new();
    v.push(t);
    assert(tool_views(v@) =~= seq![t@]);
    v
}

/// The traces that one tool of the request's list contributes.
fn tool_traces_for_value(value: &ToolJson) -> (traces: Vec<ToolExposureTrace>)
    ensures
        tool_views(traces@) == tool_traces_for(*value),
{
    let serialized = value.serialized.as_str();
    match &value.tool_type {
        None => single_tool(
            tool_trace("unknown", None, serialized, ToolExposure::Direct, "responses.tools"),
        ),
        Some(tool_type) => {
            let t = tool_type.as_str();
            if str_eq(t, "namespace") {
                let namespace = match &value.name {
                    Some(n) => n.clone(),
                    None => owned("namespace"),
                };
                match &value.tools {
                    Some(entries) => {
                        let mut traces: Vec<ToolExposureTrace> = Vec::new();
                        let mut i: usize = 0;
                        while i < entries.len()
                            invariant
                                i <= entries@.len(),
                                tool_views(traces@) == namespace_entry_traces(
                                    namespace@,
                                    entries@.take(i as int),
                                ),
                            decreases entries.len() - i,
                        {
                            let entry = &entries[i];
                            let ghost before = traces@;
                            let name = match &entry.name {
                                Some(n) => n.clone(),
                                None => owned("namespace_tool"),
                            };
                            traces.push(
                                tool_trace(
                                    name.as_str(),
                                    Some(namespace.as_str()),
                                    entry.serialized.as_str(),
                                    exposure_for_tool(entry.defer_loading),
                                    "responses.tools.namespace",
                                ),
                            );
                            let ghost expected = tool_trace_view(
                                name_or(entry.name, "namespace_tool"@),
                                Some(namespace@),
                                entry.serialized@,
                                exposure_for(entry.defer_loading),
                                "responses.tools.namespace"@,
                            );
                            assert(traces@.last()@ == expected);
                            assert(tool_views(traces@) =~= tool_views(before).push(expected));
                            assert(entries@.take(i + 1) =~= entries@.take(i as int).push(*entry));
                            assert(namespace_entry_traces(namespace@, entries@.take(i + 1))
                                =~= namespace_entry_traces(namespace@, entries@.take(i as int)).push(expected));
                            i += 1;
                        }
                        assert(entries@.take(entries@.len() as int) == entries@);
                        traces
                    },
                    None => single_tool(
                        tool_trace(
                            namespace.as_str(),
                            None,
                            serialized,
                            ToolExposure::Direct,
                            "responses.tools.namespace",
                        ),
                    ),
                }
            } else if str_eq(t, "function") || str_eq(t, "custom") {
                let name = match &value.name {
                    Some(n) => n.clone(),
                    None => owned(t),
                };
                single_tool(
                    tool_trace(
                        name.as_str(),
                        None,
                        serialized,
                        exposure_for_tool(value.defer_loading),
                        "responses.tools",
                    ),
                )
            } else if str_eq(t, "tool_search") {
                single_tool(
                    tool_trace("tool_search", None, serialized, ToolExposure::Search, "responses.tools"),
                )
            } else if str_eq(t, "local_shell") || str_eq(t, "web_search") || str_eq(
                t,
                "image_generation",
            ) {
                single_tool(tool_trace(t, None, serialized, ToolExposure::Hosted, "responses.tools"))
            } else {
                single_tool(tool_trace(t, None, serialized, ToolExposure::Direct, "responses.tools"))
            }
        },
    }
}


// ---------------------------------------------------------------------------
// Request chains.
// ---------------------------------------------------------------------------
/// A chain trace as plain values.
pub struct ChainView {
    pub chain_id: Seq<char>,
    pub status: ChainStatus,
    pub evidence: EvidenceStrength,
    pub reason: Option<Seq<char>>,
}

impl View for ChainCoverageTrace {
    type V = ChainView;

    open spec fn view(&self) -> ChainView {
        ChainView {
            chain_id: self.chain_id@,
            status: self.status,
            evidence: self.evidence,
            reason: opt_view(self.reason),
        }
    }
}

/// Chain traces as plain values.
pub open spec fn chain_views(v: Seq<ChainCoverageTrace>) -> Seq<ChainView> {
    v.map_values(|c: ChainCoverageTrace| c@)
}

/// Whether some exposed tool is named `tool_search`.
pub open spec fn tool_search_visible(tools: Seq<ToolView>) -> bool {
    exists|i: int| 0 <= i < tools.len() && #[trigger] tools[i].name == "tool_search"@
}

/// The chains of a request: the request itself was always built; the
/// tool-search chain was entered exactly when `tool_search` is exposed.
pub open spec fn chains_for(tools: Seq<ToolView>) -> Seq<ChainView> {
    let visible = tool_search_visible(tools);
    seq![
        ChainView {
            chain_id: "chain:responses_request:v1"@,
            status: ChainStatus::Entered,
            evidence: EvidenceStrength::Strong,
            reason: Some("Responses request was built."@),
        },
        ChainView {
            chain_id: "chain:tool_search:v1"@,
            status: if visible {
                ChainStatus::Entered
            } else {
                ChainStatus::Skipped
            },
            evidence: if visible {
                EvidenceStrength::Medium
            } else {
                EvidenceStrength::Weak
            },
            reason: Some(
                if visible {
                    "tool_search is model-visible for deferred tools."@
                } else {
                    "tool_search is not model-visible on this request."@
                },
            ),
        },
    ]
}

fn chain_traces(tools: &Vec<ToolExposureTrace>) -> (chains: Vec<ChainCoverageTrace>)
    ensures
        chain_views(chains@) == chains_for(tool_views(tools@)),
{
    let mut visible = false;
    let mut i: usize = 0;
    while i < tools.len()
        invariant
            i <= tools@.len(),
            visible == exists|j: int| 0 <= j < i && #[trigger] tools@[j].name@ == "tool_search"@,
        decreases tools.len() - i,
    {
        if str_eq(tools[i].name.as_str(), "tool_search") {
            visible = true;
        }
        i += 1;
    }
    assert(visible == tool_search_visible(tool_views(tools@))) by {
        if visible {
            let j = choose|j: int| 0 <= j < tools@.len() && #[trigger] tools@[j].name@ == "tool_search"@;
            assert(tool_views(tools@)[j].name == "tool_search"@);
        }
        if tool_search_visible(tool_views(tools@)) {
            let j = choose|j: int| 0 <= j < tool_views(tools@).len() && #[trigger] tool_views(tools@)[j].name == "tool_search"@;
            assert(tools@[j].name@ == "tool_search"@);
        }
    }
    let mut chains: Vec<ChainCoverageTrace> = Vec::new();
    chains.push(
        ChainCoverageTrace {
            chain_id: owned("chain:responses_request:v1"),
            status: ChainStatus::Entered,
            evidence: EvidenceStrength::Strong,
            reason: Some(owned("Responses request was built.")),
        },
    );
    chains.push(
        ChainCoverageTrace {
            chain_id: owned("chain:tool_search:v1"),
            status: if visible {
                ChainStatus::Entered
            } else {
                ChainStatus::Skipped
            },
            evidence: if visible {
                EvidenceStrength::Medium
            } else {
                EvidenceStrength::Weak
            },
            reason: Some(
                if visible {
                    owned("tool_search is model-visible for deferred tools.")
                } else {
                    owned("tool_search is not model-visible on this request.")
                },
            ),
        },
    );
    assert(chain_views(chains@) =~= chains_for(tool_views(tools@)));
    chains
}

// ---------------------------------------------------------------------------
// Whole snapshots.
// ---------------------------------------------------------------------------
/// What a snapshot is built from: the request as the client sends it.
pub struct PromptSnapshotInput<'a> {
    pub thread_id: Option<&'a str>,
    pub turn_id: Option<&'a str>,
    pub inference_call_id: Option<&'a str>,
    pub model: &'a str,
    pub base_instructions: &'a str,
    pub input_json: &'a [ResponseItemJson],
    pub tools_json: &'a [ToolJson],
    /// The compact JSON text of the output schema, when one is configured.
    pub output_schema_json: Option<&'a str>,
    pub output_schema_present: bool,
    pub output_schema_strict: bool,
    pub parallel_tool_calls: bool,
}

/// The segment of the base instructions, identified by the model's slug and
/// the hash of the instructions.
pub open spec fn base_segment_view(model: Seq<char>, text: Seq<char>) -> SegmentView {
    SegmentView {
        segment_id: "base:model:"@ + slug(model) + ":"@ + stable_hash_of(text),
        category: "base_instructions"@,
        role: "instructions"@,
        source: "responses.instructions"@,
        version: "v1"@,
        token_count_estimate: text_tokens(text),
        byte_count: byte_len(text),
        criticality: PromptCriticality::High,
        trigger_condition: "always"@,
        expected_behavior: Some("Model follows the base Codex agent contract."@),
        dependencies: Seq::empty(),
        content_hash: stable_hash_of(text),
    }
}

fn base_instruction_segment(model: &str, text: &str) -> (seg: PromptSegmentTrace)
    ensures
        seg@ == base_segment_view(model@, text@),
{
    let content_hash = stable_hash(text);
    let mut segment_id = owned("base:model:");
    let model_slug = slugify(model);
    append_str(&mut segment_id, model_slug.as_str());
    append_str(&mut segment_id, ":");
    append_str(&mut segment_id, content_hash.as_str());
    PromptSegmentTrace {
        segment_id,
        category: owned("base_instructions"),
        role: owned("instructions"),
        source: owned("responses.instructions"),
        version: owned("v1"),
        token_count_estimate: approx_token_count(text),
        byte_count: text.len(),
        criticality: PromptCriticality::High,
        trigger_condition: owned("always"),
        expected_behavior: Some(owned("Model follows the base Codex agent contract.")),
        dependencies: empty_strings(),
        content_hash,
    }
}

/// The segment of the output schema, given as its compact JSON text.
pub open spec fn output_schema_segment_view(schema: Seq<char>) -> SegmentView {
    SegmentView {
        segment_id: "context:output_schema:v1"@,
        category: "output_format"@,
        role: "instructions"@,
        source: "responses.text.format.schema"@,
        version: "v1"@,
        token_count_estimate: json_text_tokens(schema),
        byte_count: byte_len(schema),
        criticality: PromptCriticality::High,
        trigger_condition: "output schema configured"@,
        expected_behavior: Some("Provider and model constrain output to the configured schema."@),
        dependencies: Seq::empty(),
        content_hash: stable_hash_of(schema),
    }
}

fn output_schema_segment(schema: &str) -> (seg: PromptSegmentTrace)
    ensures
        seg@ == output_schema_segment_view(schema@),
{
    PromptSegmentTrace {
        segment_id: owned("context:output_schema:v1"),
        category: owned("output_format"),
        role: owned("instructions"),
        source: owned("responses.text.format.schema"),
        version: owned("v1"),
        token_count_estimate: estimate_json_tokens(schema),
        byte_count: schema.len(),
        criticality: PromptCriticality::High,
        trigger_condition: owned("output schema configured"),
        expected_behavior: Some(owned("Provider and model constrain output to the configured schema.")),
        dependencies: empty_strings(),
        content_hash: stable_hash(schema),
    }
}

/// The segments of the input items, in order.
pub open spec fn items_segments(items: Seq<ResponseItemJson>) -> Seq<SegmentView>
    decreases items.len(),
{
    if items.len() == 0 {
        Seq::empty()
    } else {
        items_segments(items.drop_last()) + item_segments(items.last())
    }
}

/// The traces of the request's tools, in order.
pub open spec fn tools_traces(tools: Seq<ToolJson>) -> Seq<ToolView>
    decreases tools.len(),
{
    if tools.len() == 0 {
        Seq::empty()
    } else {
        tools_traces(tools.drop_last()) + tool_traces_for(tools.last())
    }
}

/// The prompt segments of a request: the base instructions, then the
/// segments of each input item, then the output schema if there is one.
pub open spec fn snapshot_segments(input: PromptSnapshotInput) -> Seq<SegmentView> {
    let schema = match input.output_schema_json {
        Some(s) => seq![output_schema_segment_view(s@)],
        None => Seq::empty(),
    };
    seq![base_segment_view(input.model@, input.base_instructions@)] + items_segments(
        input.input_json@,
    ) + schema
}

/// Sum of the segments' token estimates.
pub open spec fn segment_token_sum(segments: Seq<SegmentView>) -> nat
    decreases segments.len(),
{
    if segments.len() == 0 {
        0
    } else {
        segment_token_sum(segments.drop_last()) + segments.last().token_count_estimate as nat
    }
}

/// Sum of the tools' token estimates.
pub open spec fn tool_token_sum(tools: Seq<ToolView>) -> nat
    decreases tools.len(),
{
    if tools.len() == 0 {
        0
    } else {
        tool_token_sum(tools.drop_last()) + tools.last().token_count_estimate as nat
    }
}

/// Sum of the token estimates of the items' serialized texts.
pub open spec fn item_token_sum(items: Seq<ResponseItemJson>) -> nat
    decreases items.len(),
{
    if items.len() == 0 {
        0
    } else {
        item_token_sum(items.drop_last()) + text_tokens(items.last().serialized@) as nat
    }
}

/// The sums that a snapshot records all fit in a `usize`.
pub open spec fn snapshot_totals_fit(input: PromptSnapshotInput) -> bool {
    &&& segment_token_sum(snapshot_segments(input)) <= usize::MAX
    &&& tool_token_sum(tools_traces(input.tools_json@)) <= usize::MAX
    &&& item_token_sum(input.input_json@) <= usize::MAX
}

/// The notes every snapshot carries.
pub open spec fn snapshot_notes() -> Seq<Seq<char>> {
    seq![
        "Token counts are byte-based estimates; provider usage remains authoritative."@,
        "Prompt text is not stored in this compact snapshot; hashes identify content."@,
    ]
}

/// Everything a snapshot states about its request.
pub open spec fn snapshot_matches(snapshot: PromptObservabilitySnapshot, input: PromptSnapshotInput) -> bool {
    let segments = snapshot_segments(input);
    let tools = tools_traces(input.tools_json@);
    &&& snapshot.schema_version == SNAPSHOT_SCHEMA_VERSION
    &&& opt_view(snapshot.thread_id) == opt_str_view(input.thread_id)
    &&& opt_view(snapshot.turn_id) == opt_str_view(input.turn_id)
    &&& opt_view(snapshot.inference_call_id) == opt_str_view(input.inference_call_id)
    &&& snapshot.model@ == input.model@
    &&& segment_views(snapshot.prompt_segments@) == segments
    &&& tool_views(snapshot.tools@) == tools
    &&& chain_views(snapshot.chains@) == chains_for(tools)
    &&& snapshot.input_token_count_estimate == item_token_sum(input.input_json@)
    &&& snapshot.prompt_token_count_estimate == segment_token_sum(segments)
    &&& snapshot.tool_token_count_estimate == tool_token_sum(tools)
    &&& snapshot.total_token_count_estimate == if segment_token_sum(segments) + tool_token_sum(tools)
        <= usize::MAX {
        segment_token_sum(segments) + tool_token_sum(tools)
    } else {
        usize::MAX as nat
    }
    &&& snapshot.output_schema_present == input.output_schema_present
    &&& snapshot.output_schema_strict == input.output_schema_strict
    &&& snapshot.parallel_tool_calls == input.parallel_tool_calls
    &&& strings_view(snapshot.notes@) == snapshot_notes()
}

proof fn lemma_segment_sum_bounds(s: Seq<SegmentView>)
    ensures
        forall|i: int|
            0 <= i < s.len() ==> (#[trigger] s[i]).token_count_estimate <= segment_token_sum(s),
    decreases s.len(),
{
    if s.len() > 0 {
        lemma_segment_sum_bounds(s.drop_last());
        assert forall|i: int| 0 <= i < s.len() implies (#[trigger] s[i]).token_count_estimate
            <= segment_token_sum(s) by {
            if i < s.len() - 1 {
                assert(s.drop_last()[i] == s[i]);
            }
        }
    }
}

/// The markers of injected context, each with the segment name, category and
/// criticality it gives, searched for in this order: permissions (critical),
/// apps (tools), skills and plugins (capabilities), collaboration mode and
/// personality (behavior; personality of low criticality), environment context
/// (runtime, high), project `AGENTS.md` instructions (high) and realtime mode.
pub proof fn marker_table()
    ensures
        marker_kinds().len() == 9,
        MarkerKind::Permissions.spec_marker() == "<permissions instructions>"@ && MarkerKind::Permissions.spec_name() == "permissions"@
            && MarkerKind::Permissions.spec_category() == "permissions"@ && MarkerKind::Permissions.spec_criticality()
            == PromptCriticality::Critical,
        MarkerKind::Apps.spec_marker() == "<apps_instructions>"@ && MarkerKind::Apps.spec_name() == "apps"@
            && MarkerKind::Apps.spec_category() == "tools"@ && MarkerKind::Apps.spec_criticality()
            == PromptCriticality::Medium,
        MarkerKind::Skills.spec_marker() == "<skills_instructions>"@ && MarkerKind::Skills.spec_name() == "skills"@
            && MarkerKind::Skills.spec_category() == "capabilities"@ && MarkerKind::Skills.spec_criticality()
            == PromptCriticality::Medium,
        MarkerKind::Plugins.spec_marker() == "<plugins_instructions>"@ && MarkerKind::Plugins.spec_name() == "plugins"@
            && MarkerKind::Plugins.spec_category() == "capabilities"@ && MarkerKind::Plugins.spec_criticality()
            == PromptCriticality::Medium,
        MarkerKind::CollaborationMode.spec_marker() == "<collaboration_mode>"@ && MarkerKind::CollaborationMode.spec_name() == "collaboration_mode"@
            && MarkerKind::CollaborationMode.spec_category() == "behavior"@ && MarkerKind::CollaborationMode.spec_criticality()
            == PromptCriticality::Medium,
        MarkerKind::Personality.spec_marker() == "<personality_spec>"@ && MarkerKind::Personality.spec_name() == "personality"@
            && MarkerKind::Personality.spec_category() == "behavior"@ && MarkerKind::Personality.spec_criticality()
            == PromptCriticality::Low,
        MarkerKind::EnvironmentContext.spec_marker() == "<environment_context>"@ && MarkerKind::EnvironmentContext.spec_name() == "environment_context"@
            && MarkerKind::EnvironmentContext.spec_category() == "runtime_context"@ && MarkerKind::EnvironmentContext.spec_criticality()
            == PromptCriticality::High,
        MarkerKind::AgentsInstructions.spec_marker() == "# AGENTS.md instructions for "@ && MarkerKind::AgentsInstructions.spec_name() == "agents_instructions"@
            && MarkerKind::AgentsInstructions.spec_category() == "project_instructions"@ && MarkerKind::AgentsInstructions.spec_criticality()
            == PromptCriticality::High,
        MarkerKind::Realtime.spec_marker() == "<realtime"@ && MarkerKind::Realtime.spec_name() == "realtime"@
            && MarkerKind::Realtime.spec_category() == "mode_context"@ && MarkerKind::Realtime.spec_criticality()
            == PromptCriticality::Medium,
        marker_kinds()[0] == MarkerKind::Permissions && marker_kinds()[6]
            == MarkerKind::EnvironmentContext && marker_kinds()[8] == MarkerKind::Realtime,
{
}

/// The segment of text that no marker identifies follows the role of its
/// message: developer text is developer instructions (high criticality), user
/// text is user input (high), assistant text and text of any other role is
/// conversation history (medium); it always comes from the message text and
/// keeps the role.
pub proof fn fallback_segments_follow_role(role: Seq<char>, text: Seq<char>)
    ensures
        fallback_segment_view(role, text).role == role,
        fallback_segment_view(role, text).source == "message.text"@,
        fallback_segment_view(role, text).content_hash == stable_hash_of(text),
        fallback_segment_view(role, text).token_count_estimate == text_tokens(text),
        role == "developer"@ ==> fallback_segment_view(role, text).category == "developer_instructions"@
            && fallback_segment_view(role, text).criticality == PromptCriticality::High,
        role == "user"@ ==> fallback_segment_view(role, text).category == "user_input"@
            && fallback_segment_view(role, text).criticality == PromptCriticality::High,
        role != "developer"@ && role != "user"@ ==> fallback_segment_view(role, text).category
            == "conversation_history"@ && fallback_segment_view(role, text).criticality
            == PromptCriticality::Medium,
{
    reveal_strlit("user");
    reveal_strlit("developer");
    assert("user"@ != "developer"@) by {
        assert("user"@.len() == 4);
        assert("developer"@.len() == 9);
    }
}

/// A tool's trace is identified by the slugs of its namespace (`global`
/// without one) and name and by the hash of its schema; its token estimate and
/// byte count are those of the schema's JSON text, and it is not yet known to
/// be called.
pub proof fn tool_traces_follow_their_schema(
    name: Seq<char>,
    namespace: Option<Seq<char>>,
    schema: Seq<char>,
    exposure: ToolExposure,
    source: Seq<char>,
)
    ensures
        tool_trace_view(name, namespace, schema, exposure, source).tool_id == "tool:"@ + slug(
            match namespace {
                Some(n) => n,
                None => "global"@,
            },
        ) + ":"@ + slug(name) + ":"@ + tool_trace_view(name, namespace, schema, exposure, source).schema_hash,
        tool_trace_view(name, namespace, schema, exposure, source).schema_hash == stable_hash_of(schema),
        tool_trace_view(name, namespace, schema, exposure, source).token_count_estimate
            == json_text_tokens(schema),
        tool_trace_view(name, namespace, schema, exposure, source).byte_count == byte_len(schema),
        tool_trace_view(name, namespace, schema, exposure, source).name == name,
        tool_trace_view(name, namespace, schema, exposure, source).namespace == namespace,
        tool_trace_view(name, namespace, schema, exposure, source).exposure == exposure,
        tool_trace_view(name, namespace, schema, exposure, source).called is None,
{
}

proof fn lemma_marker_pieces(role: Seq<char>, text: Seq<char>, hits: Seq<MarkerHit>, n: nat)
    ensures
        marker_pieces(role, text, hits, n).len() <= n,
        forall|i: int|
            0 <= i < marker_pieces(role, text, hits, n).len() ==> (#[trigger] marker_pieces(
                role,
                text,
                hits,
                n,
            )[i]).role == role && marker_pieces(role, text, hits, n)[i].source == "message.text"@,
    decreases n,
{
    if n > 0 {
        let m = (n - 1) as nat;
        lemma_marker_pieces(role, text, hits, m);
        let a = marker_pieces(role, text, hits, m);
        let b = marker_piece(role, text, hits, n - 1);
        assert forall|i: int| 0 <= i < (a + b).len() implies (#[trigger] (a + b)[i]).role == role
            && (a + b)[i].source == "message.text"@ by {
            if i < a.len() {
                assert((a + b)[i] == a[i]);
            } else {
                assert((a + b)[i] == b[i - a.len()]);
            }
        }
    }
}

/// Message text is cut at the markers it holds, taken in order of position:
/// text without markers is one fallback segment of the whole text; otherwise
/// there is at most one segment before the first marker and one per marker;
/// every segment keeps the message's role and comes from the message text.
pub proof fn text_segmentation(role: Seq<char>, text: Seq<char>)
    ensures
        is_sorted_by(
            sort_stable_by(marker_hits(text, marker_kinds()), rank_lt::<MarkerHit>()),
            rank_lt::<MarkerHit>(),
        ),
        sort_stable_by(marker_hits(text, marker_kinds()), rank_lt::<MarkerHit>()).len() == 0
            ==> text_segments(role, text) == seq![fallback_segment_view(role, text)],
        text_segments(role, text).len() <= sort_stable_by(
            marker_hits(text, marker_kinds()),
            rank_lt::<MarkerHit>(),
        ).len() + 1,
        forall|i: int|
            0 <= i < text_segments(role, text).len() ==> (#[trigger] text_segments(role, text)[i]).role
                == role && text_segments(role, text)[i].source == "message.text"@,
{
    let hits = sort_stable_by(marker_hits(text, marker_kinds()), rank_lt::<MarkerHit>());
    assert(crate::sorting::is_strict_order(rank_lt::<MarkerHit>()));
    lemma_sort_stable_by_props(marker_hits(text, marker_kinds()), rank_lt::<MarkerHit>());
    if hits.len() > 0 {
        lemma_marker_pieces(role, text, hits, hits.len());
        let prefix = trim(text.take(hits[0].position as int));
        fallback_segments_follow_role(role, prefix);
        let head = if hits[0].position > 0 && prefix.len() > 0 {
            seq![fallback_segment_view(role, prefix)]
        } else {
            Seq::empty()
        };
        let pieces = marker_pieces(role, text, hits, hits.len());
        assert(text_segments(role, text) == head + pieces);
        assert forall|i: int| 0 <= i < (head + pieces).len() implies (#[trigger] (head + pieces)[i]).role
            == role && (head + pieces)[i].source == "message.text"@ by {
            if i < head.len() {
                assert((head + pieces)[i] == head[i]);
            } else {
                assert((head + pieces)[i] == pieces[i - head.len()]);
            }
        }
    } else {
        fallback_segments_follow_role(role, text);
    }
}

/// A text content part gives the segments of its text, whether it is model
/// input (`input_text`) or model output (`output_text`): both kinds give the
/// same segments, in the role of their message.
pub proof fn text_parts_are_segmented_alike(
    role: Seq<char>,
    input: ContentItemJson,
    output: ContentItemJson,
)
    requires
        opt_text_is(input.content_type, "input_text"@),
        opt_text_is(output.content_type, "output_text"@),
        input.text == output.text,
    ensures
        content_segments(role, input) == content_segments(role, output),
        output.text is None ==> content_segments(role, output).len() == 0,
        forall|t: String| output.text == Some(t) ==> content_segments(role, output) == text_segments(role, t@),
{
}

/// A message whose content is one part has exactly that part's segments, in
/// the message's role.
pub proof fn one_part_messages_have_its_segments(
    item: ResponseItemJson,
    role: String,
    contents: Vec<ContentItemJson>,
    part: ContentItemJson,
)
    requires
        opt_text_is(item.item_type, "message"@),
        item.role == Some(role),
        item.content == Some(contents),
        contents@ == seq![part],
    ensures
        item_segments(item) == content_segments(role@, part),
{
    let cs = contents@;
    assert(cs.drop_last() =~= Seq::<ContentItemJson>::empty());
    assert(cs.last() == part);
    assert(contents_segments(role@, cs.drop_last()) == Seq::<SegmentView>::empty());
    assert(contents_segments(role@, cs) == contents_segments(role@, cs.drop_last()) + content_segments(role@, part));
    assert(Seq::<SegmentView>::empty() + content_segments(role@, part) =~= content_segments(role@, part));
}

/// Text without any marker is one segment, so a text content part always
/// contributes at least one segment when its text has no marker.
pub proof fn unmarked_text_is_one_segment(role: Seq<char>, text: Seq<char>)
    requires
        marker_hits(text, marker_kinds()).len() == 0,
    ensures
        text_segments(role, text) == seq![fallback_segment_view(role, text)],
{
    lemma_sort_stable_by_props(marker_hits(text, marker_kinds()), rank_lt::<MarkerHit>());
    assert(crate::sorting::is_strict_order(rank_lt::<MarkerHit>()));
}

proof fn lemma_tool_type_literals_differ()
    ensures
        "function"@ != "namespace"@,
        "custom"@ != "namespace"@,
        "tool_search"@ != "namespace"@ && "tool_search"@ != "function"@ && "tool_search"@ != "custom"@,
        "local_shell"@ != "namespace"@ && "local_shell"@ != "function"@ && "local_shell"@ != "custom"@
            && "local_shell"@ != "tool_search"@,
        "web_search"@ != "namespace"@ && "web_search"@ != "function"@ && "web_search"@ != "custom"@
            && "web_search"@ != "tool_search"@,
        "image_generation"@ != "namespace"@ && "image_generation"@ != "function"@
            && "image_generation"@ != "custom"@ && "image_generation"@ != "tool_search"@,
{
    reveal_strlit("function");
    reveal_strlit("custom");
    reveal_strlit("namespace");
    reveal_strlit("tool_search");
    reveal_strlit("local_shell");
    reveal_strlit("web_search");
    reveal_strlit("image_generation");
    assert("function"@[0] != "namespace"@[0]);
    assert("custom"@.len() != "namespace"@.len());
    assert("tool_search"@.len() != "namespace"@.len());
    assert("tool_search"@.len() != "function"@.len());
    assert("tool_search"@.len() != "custom"@.len());
    assert("local_shell"@.len() != "namespace"@.len());
    assert("local_shell"@.len() != "function"@.len());
    assert("local_shell"@.len() != "custom"@.len());
    assert("local_shell"@[0] != "tool_search"@[0]);
    assert("web_search"@.len() != "namespace"@.len());
    assert("web_search"@.len() != "function"@.len());
    assert("web_search"@.len() != "custom"@.len());
    assert("web_search"@.len() != "tool_search"@.len());
    assert("image_generation"@.len() != "namespace"@.len());
    assert("image_generation"@.len() != "function"@.len());
    assert("image_generation"@.len() != "custom"@.len());
    assert("image_generation"@.len() != "tool_search"@.len());
}

/// A function or custom tool is traced once, under its name (its type without
/// one), outside any namespace, and is deferred exactly when its
/// `defer_loading` is true, direct otherwise.
pub proof fn function_tools_are_deferred_exactly_when_asked(value: ToolJson, t: String)
    requires
        value.tool_type == Some(t),
        t@ == "function"@ || t@ == "custom"@,
    ensures
        tool_traces_for(value).len() == 1,
        tool_traces_for(value)[0].exposure == (if value.defer_loading == Some(true) {
            ToolExposure::Deferred
        } else {
            ToolExposure::Direct
        }),
        value.defer_loading != Some(true) ==> tool_traces_for(value)[0].exposure
            == ToolExposure::Direct,
        tool_traces_for(value)[0].name == (match value.name {
            Some(n) => n@,
            None => t@,
        }),
        tool_traces_for(value)[0].namespace is None,
{
    lemma_tool_type_literals_differ();
}

/// `tool_search` is traced once as the search tool; `local_shell`,
/// `web_search` and `image_generation` once each as hosted tools of that name.
pub proof fn built_in_tools_are_search_or_hosted(value: ToolJson, t: String)
    requires
        value.tool_type == Some(t),
    ensures
        t@ == "tool_search"@ ==> tool_traces_for(value).len() == 1 && tool_traces_for(value)[0].exposure
            == ToolExposure::Search && tool_traces_for(value)[0].name == "tool_search"@,
        t@ == "local_shell"@ || t@ == "web_search"@ || t@ == "image_generation"@ ==> tool_traces_for(
            value,
        ).len() == 1 && tool_traces_for(value)[0].exposure == ToolExposure::Hosted && tool_traces_for(
            value,
        )[0].name == t@,
{
    lemma_tool_type_literals_differ();
}

/// A namespace with tools is traced as one trace per tool, in order, each in
/// the namespace (named `namespace` when it has no name) and each deferred
/// exactly when its own `defer_loading` is true.
pub proof fn namespace_tools_are_traced_one_by_one(value: ToolJson, t: String, entries: Vec<ToolJsonEntry>)
    requires
        value.tool_type == Some(t),
        t@ == "namespace"@,
        value.tools == Some(entries),
    ensures
        tool_traces_for(value).len() == entries.len(),
        forall|i: int|
            0 <= i < entries.len() ==> (#[trigger] tool_traces_for(value)[i]).exposure == (if entries@[i].defer_loading
                == Some(true) {
                ToolExposure::Deferred
            } else {
                ToolExposure::Direct
            }) && tool_traces_for(value)[i].namespace == Some(
                match value.name {
                    Some(n) => n@,
                    None => "namespace"@,
                },
            ),
{
}

/// Every snapshot's segments start with the base instructions and end with
/// the output schema exactly when one was given, and the prompt total counts
/// every segment's tokens.
pub proof fn snapshot_segment_layout(input: PromptSnapshotInput)
    ensures
        snapshot_segments(input).len() >= 1,
        snapshot_segments(input)[0] == base_segment_view(input.model@, input.base_instructions@),
        input.output_schema_json matches Some(schema) ==> snapshot_segments(input).last()
            == output_schema_segment_view(schema@),
        input.output_schema_json is None ==> snapshot_segments(input).len() == 1 + items_segments(
            input.input_json@,
        ).len(),
        input.output_schema_json is Some ==> snapshot_segments(input).len() == 2 + items_segments(
            input.input_json@,
        ).len(),
        forall|i: int|
            0 <= i < snapshot_segments(input).len() ==> (#[trigger] snapshot_segments(
                input,
            )[i]).token_count_estimate <= segment_token_sum(snapshot_segments(input)),
{
    lemma_segment_sum_bounds(snapshot_segments(input));
}

proof fn lemma_segment_sum_prefix(s: Seq<SegmentView>, i: int)
    requires
        0 <= i <= s.len(),
    ensures
        segment_token_sum(s.take(i)) <= segment_token_sum(s),
    decreases s.len() - i,
{
    if i < s.len() {
        lemma_segment_sum_prefix(s, i + 1);
        assert(s.take(i + 1).drop_last() == s.take(i));
    } else {
        assert(s.take(i) == s);
    }
}

proof fn lemma_tool_sum_prefix(s: Seq<ToolView>, i: int)
    requires
        0 <= i <= s.len(),
    ensures
        tool_token_sum(s.take(i)) <= tool_token_sum(s),
    decreases s.len() - i,
{
    if i < s.len() {
        lemma_tool_sum_prefix(s, i + 1);
        assert(s.take(i + 1).drop_last() == s.take(i));
    } else {
        assert(s.take(i) == s);
    }
}

proof fn lemma_item_sum_prefix(s: Seq<ResponseItemJson>, i: int)
    requires
        0 <= i <= s.len(),
    ensures
        item_token_sum(s.take(i)) <= item_token_sum(s),
    decreases s.len() - i,
{
    if i < s.len() {
        lemma_item_sum_prefix(s, i + 1);
        assert(s.take(i + 1).drop_last() == s.take(i));
    } else {
        assert(s.take(i) == s);
    }
}

/// The prompt segments of a request, as `snapshot_segments` gives them.
fn prompt_segments_of(input: &PromptSnapshotInput) -> (segments: Vec<PromptSegmentTrace>)
    ensures
        segment_views(segments@) == snapshot_segments(*input),
{
    let mut segments: Vec<PromptSegmentTrace> = Vec::new();
    segments.push(base_instruction_segment(input.model, input.base_instructions));
    assert(segment_views(segments@) =~= seq![base_segment_view(input.model@, input.base_instructions@)]);
    let ghost head = segment_views(segments@);
    let items = input.input_json;
    let mut i: usize = 0;
    while i < items.len()
        invariant
            i <= items@.len(),
            items@ == input.input_json@,
            segment_views(segments@) == head + items_segments(items@.take(i as int)),
        decreases items.len() - i,
    {
        let more = prompt_segments_for_response_item(&items[i]);
        append_segments(&mut segments, more);
        assert(items@.take(i + 1).drop_last() == items@.take(i as int));
        i += 1;
    }
    assert(items@.take(items@.len() as int) == items@);
    let ghost body = segment_views(segments@);
    match input.output_schema_json {
        Some(schema) => {
            segments.push(output_schema_segment(schema));
            assert(segment_views(segments@) =~= body + seq![output_schema_segment_view(schema@)]);
        },
        None => {
            assert(body =~= body + Seq::<SegmentView>::empty());
        },
    }
    segments
}

/// The tool traces of a request, as `tools_traces` gives them.
fn tool_traces_from_json(tools_json: &[ToolJson]) -> (tools: Vec<ToolExposureTrace>)
    ensures
        tool_views(tools@) == tools_traces(tools_json@),
{
    let mut tools: Vec<ToolExposureTrace> = Vec::new();
    let mut i: usize = 0;
    while i < tools_json.len()
        invariant
            i <= tools_json@.len(),
            tool_views(tools@) == tools_traces(tools_json@.take(i as int)),
        decreases tools_json.len() - i,
    {
        let mut more = tool_traces_for_value(&tools_json[i]);
        let ghost start = tools@;
        let ghost added = more@;
        tools.append(&mut more);
        assert(tool_views(tools@) =~= tool_views(start) + tool_views(added));
        assert(tools_json@.take(i + 1).drop_last() == tools_json@.take(i as int));
        i += 1;
    }
    assert(tools_json@.take(tools_json@.len() as int) == tools_json@);
    tools
}

/// The sum of the segments' token estimates, or `None` if it exceeds `usize`.
fn checked_segment_tokens(segments: &Vec<PromptSegmentTrace>) -> (r: Option<usize>)
    ensures
        r matches Some(n) ==> n == segment_token_sum(segment_views(segments@)),
        r is None ==> segment_token_sum(segment_views(segments@)) > usize::MAX,
{
    let ghost views = segment_views(segments@);
    let mut total: usize = 0;
    let mut i: usize = 0;
    while i < segments.len()
        invariant
            i <= segments@.len(),
            views == segment_views(segments@),
            total == segment_token_sum(views.take(i as int)),
        decreases segments.len() - i,
    {
        assert(views.take(i + 1).drop_last() == views.take(i as int));
        let t = segments[i].token_count_estimate;
        if total > usize::MAX - t {
            proof {
                lemma_segment_sum_prefix(views, i + 1);
            }
            return None;
        }
        total = total + t;
        i += 1;
    }
    assert(views.take(views.len() as int) == views);
    Some(total)
}

/// The sum of the tools' token estimates, or `None` if it exceeds `usize`.
fn checked_tool_tokens(tools: &Vec<ToolExposureTrace>) -> (r: Option<usize>)
    ensures
        r matches Some(n) ==> n == tool_token_sum(tool_views(tools@)),
        r is None ==> tool_token_sum(tool_views(tools@)) > usize::MAX,
{
    let ghost views = tool_views(tools@);
    let mut total: usize = 0;
    let mut i: usize = 0;
    while i < tools.len()
        invariant
            i <= tools@.len(),
            views == tool_views(tools@),
            total == tool_token_sum(views.take(i as int)),
        decreases tools.len() - i,
    {
        assert(views.take(i + 1).drop_last() == views.take(i as int));
        let t = tools[i].token_count_estimate;
        if total > usize::MAX - t {
            proof {
                lemma_tool_sum_prefix(views, i + 1);
            }
            return None;
        }
        total = total + t;
        i += 1;
    }
    assert(views.take(views.len() as int) == views);
    Some(total)
}

/// The sum of the items' token estimates, or `None` if it exceeds `usize`.
fn checked_item_tokens(items: &[ResponseItemJson]) -> (r: Option<usize>)
    ensures
        r matches Some(n) ==> n == item_token_sum(items@),
        r is None ==> item_token_sum(items@) > usize::MAX,
{
    let mut total: usize = 0;
    let mut i: usize = 0;
    while i < items.len()
        invariant
            i <= items@.len(),
            total == item_token_sum(items@.take(i as int)),
        decreases items.len() - i,
    {
        assert(items@.take(i + 1).drop_last() == items@.take(i as int));
        let t = approx_token_count(items[i].serialized.as_str());
        if total > usize::MAX - t {
            proof {
                lemma_item_sum_prefix(items@, i + 1);
            }
            return None;
        }
        total = total + t;
        i += 1;
    }
    assert(items@.take(items@.len() as int) == items@);
    Some(total)
}

fn opt_str_owned(o: Option<&str>) -> (r: Option<String>)
    ensures
        opt_view(r) == opt_str_view(o),
{
    opt_owned(o)
}

fn assemble_snapshot(
    input: &PromptSnapshotInput,
    prompt_segments: Vec<PromptSegmentTrace>,
    tools: Vec<ToolExposureTrace>,
    input_tokens: usize,
    prompt_tokens: usize,
    tool_tokens: usize,
) -> (snapshot: PromptObservabilitySnapshot)
    requires
        segment_views(prompt_segments@) == snapshot_segments(*input),
        tool_views(tools@) == tools_traces(input.tools_json@),
        input_tokens == item_token_sum(input.input_json@),
        prompt_tokens == segment_token_sum(snapshot_segments(*input)),
        tool_tokens == tool_token_sum(tools_traces(input.tools_json@)),
    ensures
        snapshot_matches(snapshot, *input),
{
    let chains = chain_traces(&tools);
    let mut notes: Vec<String> = Vec::new();
    notes.push(owned("Token counts are byte-based estimates; provider usage remains authoritative."));
    notes.push(owned("Prompt text is not stored in this compact snapshot; hashes identify content."));
    assert(strings_view(notes@) =~= snapshot_notes());
    PromptObservabilitySnapshot {
        schema_version: SNAPSHOT_SCHEMA_VERSION,
        thread_id: opt_str_owned(input.thread_id),
        turn_id: opt_str_owned(input.turn_id),
        inference_call_id: opt_str_owned(input.inference_call_id),
        model: owned(input.model),
        prompt_segments,
        tools,
        chains,
        input_token_count_estimate: input_tokens,
        prompt_token_count_estimate: prompt_tokens,
        tool_token_count_estimate: tool_tokens,
        total_token_count_estimate: prompt_tokens.saturating_add(tool_tokens),
        output_schema_present: input.output_schema_present,
        output_schema_strict: input.output_schema_strict,
        parallel_tool_calls: input.parallel_tool_calls,
        notes,
    }
}

/// Builds the snapshot of a request (see `snapshot_matches` for what it
/// records). The token sums must fit in a `usize`.
pub fn build_prompt_observability_snapshot(input: PromptSnapshotInput) -> (snapshot:
    PromptObservabilitySnapshot)
    requires
        snapshot_totals_fit(input),
    ensures
        snapshot_matches(snapshot, input),
{
    let prompt_segments = prompt_segments_of(&input);
    let tools = tool_traces_from_json(input.tools_json);
    let prompt_tokens = match checked_segment_tokens(&prompt_segments) {
        Some(n) => n,
        None => 0,
    };
    let tool_tokens = match checked_tool_tokens(&tools) {
        Some(n) => n,
        None => 0,
    };
    let input_tokens = match checked_item_tokens(input.input_json) {
        Some(n) => n,
        None => 0,
    };
    assemble_snapshot(&input, prompt_segments, tools, input_tokens, prompt_tokens, tool_tokens)
}

/// Builds the snapshot of a request, or `None` when one of its token sums does
/// not fit in a `usize`.
pub fn try_build_prompt_observability_snapshot(input: PromptSnapshotInput) -> (r: Option<
    PromptObservabilitySnapshot,
>)
    ensures
        r is Some <==> snapshot_totals_fit(input),
        r matches Some(snapshot) ==> snapshot_matches(snapshot, input),
{
    let prompt_segments = prompt_segments_of(&input);
    let tools = tool_traces_from_json(input.tools_json);
    let prompt_tokens = match checked_segment_tokens(&prompt_segments) {
        Some(n) => n,
        None => { return None; },
    };
    let tool_tokens = match checked_tool_tokens(&tools) {
        Some(n) => n,
        None => { return None; },
    };
    let input_tokens = match checked_item_tokens(input.input_json) {
        Some(n) => n,
        None => { return None; },
    };
    Some(assemble_snapshot(&input, prompt_segments, tools, input_tokens, prompt_tokens, tool_tokens))
}

} // verus!
