//! The trace analysis report and its orderings.
use vstd::prelude::*;

use crate::snapshot::opt_view;
use crate::snapshot::EvidenceStrength;
use crate::snapshot::OptimizationAction;
use crate::snapshot::OptimizationFinding;
use crate::snapshot::PromptCriticality;
use crate::snapshot::ToolExposure;
use crate::sorting::Ranked;
use crate::snapshot::strings_view;
use crate::text::append_str;
use crate::text::chars_of;
use crate::text::decimal;
use crate::text::digit_char;
use crate::text::decimal_string;
use crate::text::owned;
use crate::text::push_char;
use crate::text::str_lt;
use crate::text::text_lt;

verus! {

/// The formats in which a report can be rendered.
#[derive(Debug, Clone, Copy, PartialEq, Eq, Structural)]
pub enum AnalysisFormat {
    Markdown,
    Json,
}

/// One row of the token waterfall.
#[derive(Debug, Clone, PartialEq, Eq)]
pub struct TokenWaterfallRow {
    pub id: String,
    pub label: String,
    pub category: String,
    pub token_count_estimate: usize,
    pub occurrences: usize,
}

/// A prompt segment summed over the analyzed snapshots.
#[derive(Debug, Clone, PartialEq, Eq)]
pub struct SegmentSummary {
    pub segment_id: String,
    pub category: String,
    pub criticality: PromptCriticality,
    pub token_count_estimate: usize,
    pub occurrences: usize,
    pub evidence: EvidenceStrength,
}

/// A tool schema summed over the analyzed snapshots.
#[derive(Debug, Clone, PartialEq, Eq)]
pub struct ToolSummary {
    pub tool_id: String,
    pub name: String,
    pub namespace: Option<String>,
    pub exposure: ToolExposure,
    pub token_count_estimate: usize,
    pub exposed_count: usize,
    pub called_count: usize,
}

/// A tool that tool search returned, with how often.
#[derive(Debug, Clone, PartialEq, Eq)]
pub struct DeferredSearchSummary {
    pub name: String,
    pub namespace: Option<String>,
    pub search_result_count: usize,
}

/// How often a request chain was entered, skipped or fell back.
#[derive(Debug, Clone, PartialEq, Eq)]
pub struct ChainCoverageSummary {
    pub chain_id: String,
    pub entered: usize,
    pub skipped: usize,
    pub fallback: usize,
}

/// The result of analyzing trace bundles.
#[derive(Debug, Clone, PartialEq, Eq)]
pub struct TraceAnalysisReport {
    pub bundles_analyzed: usize,
    pub snapshots_analyzed: usize,
    pub token_waterfall: Vec<TokenWaterfallRow>,
    pub top_token_heavy_segments: Vec<SegmentSummary>,
    pub low_evidence_segments: Vec<SegmentSummary>,
    pub exposed_but_never_called_tools: Vec<ToolSummary>,
    pub deferred_but_searched_tools: Vec<DeferredSearchSummary>,
    pub chain_coverage: Vec<ChainCoverageSummary>,
    pub findings: Vec<OptimizationFinding>,
}

// ---------------------------------------------------------------------------
// Views.
// ---------------------------------------------------------------------------
/// A waterfall row as plain values.
pub struct RowView {
    pub id: Seq<char>,
    pub label: Seq<char>,
    pub category: Seq<char>,
    pub token_count_estimate: usize,
    pub occurrences: usize,
}

impl View for TokenWaterfallRow {
    type V = RowView;

    open spec fn view(&self) -> RowView {
        RowView {
            id: self.id@,
            label: self.label@,
            category: self.category@,
            token_count_estimate: self.token_count_estimate,
            occurrences: self.occurrences,
        }
    }
}

/// A segment summary as plain values.
pub struct SegmentSummaryView {
    pub segment_id: Seq<char>,
    pub category: Seq<char>,
    pub criticality: PromptCriticality,
    pub token_count_estimate: usize,
    pub occurrences: usize,
    pub evidence: EvidenceStrength,
}

impl View for SegmentSummary {
    type V = SegmentSummaryView;

    open spec fn view(&self) -> SegmentSummaryView {
        SegmentSummaryView {
            segment_id: self.segment_id@,
            category: self.category@,
            criticality: self.criticality,
            token_count_estimate: self.token_count_estimate,
            occurrences: self.occurrences,
            evidence: self.evidence,
        }
    }
}

/// A tool summary as plain values.
pub struct ToolSummaryView {
    pub tool_id: Seq<char>,
    pub name: Seq<char>,
    pub namespace: Option<Seq<char>>,
    pub exposure: ToolExposure,
    pub token_count_estimate: usize,
    pub exposed_count: usize,
    pub called_count: usize,
}

impl View for ToolSummary {
    type V = ToolSummaryView;

    open spec fn view(&self) -> ToolSummaryView {
        ToolSummaryView {
            tool_id: self.tool_id@,
            name: self.name@,
            namespace: opt_view(self.namespace),
            exposure: self.exposure,
            token_count_estimate: self.token_count_estimate,
            exposed_count: self.exposed_count,
            called_count: self.called_count,
        }
    }
}

/// A search summary as plain values.
pub struct DeferredSearchView {
    pub name: Seq<char>,
    pub namespace: Option<Seq<char>>,
    pub search_result_count: usize,
}

impl View for DeferredSearchSummary {
    type V = DeferredSearchView;

    open spec fn view(&self) -> DeferredSearchView {
        DeferredSearchView {
            name: self.name@,
            namespace: opt_view(self.namespace),
            search_result_count: self.search_result_count,
        }
    }
}

/// A chain summary as plain values.
pub struct ChainSummaryView {
    pub chain_id: Seq<char>,
    pub entered: usize,
    pub skipped: usize,
    pub fallback: usize,
}

impl View for ChainCoverageSummary {
    type V = ChainSummaryView;

    open spec fn view(&self) -> ChainSummaryView {
        ChainSummaryView {
            chain_id: self.chain_id@,
            entered: self.entered,
            skipped: self.skipped,
            fallback: self.fallback,
        }
    }
}

/// A finding as plain values.
pub struct FindingView {
    pub target_id: Seq<char>,
    pub target_kind: Seq<char>,
    pub action: OptimizationAction,
    pub evidence: EvidenceStrength,
    pub reason: Seq<char>,
    pub token_savings_estimate: usize,
}

impl View for OptimizationFinding {
    type V = FindingView;

    open spec fn view(&self) -> FindingView {
        FindingView {
            target_id: self.target_id@,
            target_kind: self.target_kind@,
            action: self.action,
            evidence: self.evidence,
            reason: self.reason@,
            token_savings_estimate: self.token_savings_estimate,
        }
    }
}

/// The view of a waterfall row, as a function value.
pub open spec fn row_view_fn() -> spec_fn(TokenWaterfallRow) -> RowView {
    |x: TokenWaterfallRow| x@
}

/// Waterfall rows as plain values.
pub open spec fn row_views(v: Seq<TokenWaterfallRow>) -> Seq<RowView> {
    v.map_values(row_view_fn())
}

/// The view of a segment summary, as a function value.
pub open spec fn segment_summary_view_fn() -> spec_fn(SegmentSummary) -> SegmentSummaryView {
    |x: SegmentSummary| x@
}

/// Segment summaries as plain values.
pub open spec fn segment_summary_views(v: Seq<SegmentSummary>) -> Seq<SegmentSummaryView> {
    v.map_values(segment_summary_view_fn())
}

/// The view of a tool summary, as a function value.
pub open spec fn tool_summary_view_fn() -> spec_fn(ToolSummary) -> ToolSummaryView {
    |x: ToolSummary| x@
}

/// Tool summaries as plain values.
pub open spec fn tool_summary_views(v: Seq<ToolSummary>) -> Seq<ToolSummaryView> {
    v.map_values(tool_summary_view_fn())
}

/// The view of a search summary, as a function value.
pub open spec fn deferred_view_fn() -> spec_fn(DeferredSearchSummary) -> DeferredSearchView {
    |x: DeferredSearchSummary| x@
}

/// Search summaries as plain values.
pub open spec fn deferred_views(v: Seq<DeferredSearchSummary>) -> Seq<DeferredSearchView> {
    v.map_values(deferred_view_fn())
}

/// The view of a chain summary, as a function value.
pub open spec fn chain_summary_view_fn() -> spec_fn(ChainCoverageSummary) -> ChainSummaryView {
    |x: ChainCoverageSummary| x@
}

/// Chain summaries as plain values.
pub open spec fn chain_summary_views(v: Seq<ChainCoverageSummary>) -> Seq<ChainSummaryView> {
    v.map_values(chain_summary_view_fn())
}

/// The view of a finding, as a function value.
pub open spec fn finding_view_fn() -> spec_fn(OptimizationFinding) -> FindingView {
    |x: OptimizationFinding| x@
}

/// Findings as plain values.
pub open spec fn finding_views(v: Seq<OptimizationFinding>) -> Seq<FindingView> {
    v.map_values(finding_view_fn())
}

/// A report as plain values.
pub struct ReportView {
    pub bundles_analyzed: usize,
    pub snapshots_analyzed: usize,
    pub token_waterfall: Seq<RowView>,
    pub top_token_heavy_segments: Seq<SegmentSummaryView>,
    pub low_evidence_segments: Seq<SegmentSummaryView>,
    pub exposed_but_never_called_tools: Seq<ToolSummaryView>,
    pub deferred_but_searched_tools: Seq<DeferredSearchView>,
    pub chain_coverage: Seq<ChainSummaryView>,
    pub findings: Seq<FindingView>,
}

impl View for TraceAnalysisReport {
    type V = ReportView;

    open spec fn view(&self) -> ReportView {
        ReportView {
            bundles_analyzed: self.bundles_analyzed,
            snapshots_analyzed: self.snapshots_analyzed,
            token_waterfall: row_views(self.token_waterfall@),
            top_token_heavy_segments: segment_summary_views(self.top_token_heavy_segments@),
            low_evidence_segments: segment_summary_views(self.low_evidence_segments@),
            exposed_but_never_called_tools: tool_summary_views(
                self.exposed_but_never_called_tools@,
            ),
            deferred_but_searched_tools: deferred_views(self.deferred_but_searched_tools@),
            chain_coverage: chain_summary_views(self.chain_coverage@),
            findings: finding_views(self.findings@),
        }
    }
}

// ---------------------------------------------------------------------------
// Orders: larger token counts first, ties by identifier.
// ---------------------------------------------------------------------------
/// Larger `n1` first; for equal counts, the smaller identifier first.
pub open spec fn count_then_id_lt(n1: usize, id1: Seq<char>, n2: usize, id2: Seq<char>) -> bool {
    n1 > n2 || (n1 == n2 && text_lt(id1, id2))
}

/// The waterfall order.
pub open spec fn row_lt(a: RowView, b: RowView) -> bool {
    count_then_id_lt(a.token_count_estimate, a.id, b.token_count_estimate, b.id)
}

/// The order of segment summaries.
pub open spec fn segment_summary_lt(a: SegmentSummaryView, b: SegmentSummaryView) -> bool {
    count_then_id_lt(a.token_count_estimate, a.segment_id, b.token_count_estimate, b.segment_id)
}

/// The order of tool summaries.
pub open spec fn tool_summary_lt(a: ToolSummaryView, b: ToolSummaryView) -> bool {
    count_then_id_lt(a.token_count_estimate, a.tool_id, b.token_count_estimate, b.tool_id)
}

/// The order of findings.
pub open spec fn finding_lt(a: FindingView, b: FindingView) -> bool {
    count_then_id_lt(a.token_savings_estimate, a.target_id, b.token_savings_estimate, b.target_id)
}

/// The order of chain summaries: by identifier.
pub open spec fn chain_summary_lt(a: ChainSummaryView, b: ChainSummaryView) -> bool {
    text_lt(a.chain_id, b.chain_id)
}

/// The key under which a tool is counted: `namespace/name`, or the bare name.
pub open spec fn tool_key(namespace: Option<Seq<char>>, name: Seq<char>) -> Seq<char> {
    match namespace {
        Some(n) => n + "/"@ + name,
        None => name,
    }
}

/// The order of search summaries: more results first, then by name, then by
/// the key under which the tool is counted.
pub open spec fn deferred_lt(a: DeferredSearchView, b: DeferredSearchView) -> bool {
    a.search_result_count > b.search_result_count || (a.search_result_count
        == b.search_result_count && (text_lt(a.name, b.name) || (a.name == b.name && text_lt(
        tool_key(a.namespace, a.name),
        tool_key(b.namespace, b.name),
    ))))
}

/// `row_lt` as a function value.
pub open spec fn row_lt_fn() -> spec_fn(RowView, RowView) -> bool {
    |a: RowView, b: RowView| row_lt(a, b)
}

/// `segment_summary_lt` as a function value.
pub open spec fn segment_summary_lt_fn() -> spec_fn(SegmentSummaryView, SegmentSummaryView) -> bool {
    |a: SegmentSummaryView, b: SegmentSummaryView| segment_summary_lt(a, b)
}

/// `tool_summary_lt` as a function value.
pub open spec fn tool_summary_lt_fn() -> spec_fn(ToolSummaryView, ToolSummaryView) -> bool {
    |a: ToolSummaryView, b: ToolSummaryView| tool_summary_lt(a, b)
}

/// `finding_lt` as a function value.
pub open spec fn finding_lt_fn() -> spec_fn(FindingView, FindingView) -> bool {
    |a: FindingView, b: FindingView| finding_lt(a, b)
}

/// `chain_summary_lt` as a function value.
pub open spec fn chain_summary_lt_fn() -> spec_fn(ChainSummaryView, ChainSummaryView) -> bool {
    |a: ChainSummaryView, b: ChainSummaryView| chain_summary_lt(a, b)
}

/// `deferred_lt` as a function value.
pub open spec fn deferred_lt_fn() -> spec_fn(DeferredSearchView, DeferredSearchView) -> bool {
    |a: DeferredSearchView, b: DeferredSearchView| deferred_lt(a, b)
}

fn count_then_id_before(n1: usize, id1: &str, n2: usize, id2: &str) -> (r: bool)
    ensures
        r == count_then_id_lt(n1, id1@, n2, id2@),
{
    n1 > n2 || (n1 == n2 && str_lt(id1, id2))
}

impl Ranked for TokenWaterfallRow {
    open spec fn comes_before(a: Self, b: Self) -> bool {
        row_lt(a@, b@)
    }

    fn before(&self, other: &Self) -> (r: bool) {
        count_then_id_before(
            self.token_count_estimate,
            self.id.as_str(),
            other.token_count_estimate,
            other.id.as_str(),
        )
    }
}

impl Ranked for SegmentSummary {
    open spec fn comes_before(a: Self, b: Self) -> bool {
        segment_summary_lt(a@, b@)
    }

    fn before(&self, other: &Self) -> (r: bool) {
        count_then_id_before(
            self.token_count_estimate,
            self.segment_id.as_str(),
            other.token_count_estimate,
            other.segment_id.as_str(),
        )
    }
}

impl Ranked for ToolSummary {
    open spec fn comes_before(a: Self, b: Self) -> bool {
        tool_summary_lt(a@, b@)
    }

    fn before(&self, other: &Self) -> (r: bool) {
        count_then_id_before(
            self.token_count_estimate,
            self.tool_id.as_str(),
            other.token_count_estimate,
            other.tool_id.as_str(),
        )
    }
}

impl Ranked for OptimizationFinding {
    open spec fn comes_before(a: Self, b: Self) -> bool {
        finding_lt(a@, b@)
    }

    fn before(&self, other: &Self) -> (r: bool) {
        count_then_id_before(
            self.token_savings_estimate,
            self.target_id.as_str(),
            other.token_savings_estimate,
            other.target_id.as_str(),
        )
    }
}

impl Ranked for ChainCoverageSummary {
    open spec fn comes_before(a: Self, b: Self) -> bool {
        chain_summary_lt(a@, b@)
    }

    fn before(&self, other: &Self) -> (r: bool) {
        str_lt(self.chain_id.as_str(), other.chain_id.as_str())
    }
}


// ---------------------------------------------------------------------------
// Markdown rendering.
// ---------------------------------------------------------------------------
/// The display name of a tool: `namespace.name`, or the bare name.
pub open spec fn display_tool_name(namespace: Option<Seq<char>>, name: Seq<char>) -> Seq<char> {
    match namespace {
        Some(n) => n + "."@ + name,
        None => name,
    }
}

/// The display name of a tool, as `display_tool_name` gives it.
pub fn display_tool_name_string(namespace: &Option<String>, name: &str) -> (r: String)
    ensures
        r@ == display_tool_name(opt_view(*namespace), name@),
{
    match namespace {
        Some(n) => {
            let mut s = n.clone();
            append_str(&mut s, ".");
            append_str(&mut s, name);
            s
        },
        None => owned(name),
    }
}

/// A table cell with `|` escaped and line breaks turned into spaces.
pub open spec fn escape_cell(v: Seq<char>) -> Seq<char>
    decreases v.len(),
{
    if v.len() == 0 {
        Seq::empty()
    } else {
        let c = v.last();
        escape_cell(v.drop_last()) + if c == '|' {
            seq!['\\', '|']
        } else if c == '\n' {
            seq![' ']
        } else {
            seq![c]
        }
    }
}

/// An escaped cell holds no line break, every `|` in it is preceded by a
/// backslash, and it is at least as long as the raw value.
pub proof fn escaped_cells_stay_in_their_cell(v: Seq<char>)
    ensures
        !escape_cell(v).contains('\n'),
        forall|i: int|
            0 <= i < escape_cell(v).len() && #[trigger] escape_cell(v)[i] == '|' ==> i > 0
                && escape_cell(v)[i - 1] == '\\',
        escape_cell(v).len() >= v.len(),
    decreases v.len(),
{
    if v.len() > 0 {
        let rest = escape_cell(v.drop_last());
        escaped_cells_stay_in_their_cell(v.drop_last());
        let c = v.last();
        let tail = if c == '|' {
            seq!['\\', '|']
        } else if c == '\n' {
            seq![' ']
        } else {
            seq![c]
        };
        let all = escape_cell(v);
        assert(all == rest + tail);
        assert forall|i: int| 0 <= i < all.len() implies all[i] != '\n' by {
            if i < rest.len() {
                assert(all[i] == rest[i]);
                assert(rest.contains(rest[i]) ==> rest[i] != '\n');
            } else {
                assert(all[i] == tail[i - rest.len()]);
            }
        }
        assert forall|i: int|
            0 <= i < all.len() && #[trigger] all[i] == '|' implies i > 0 && all[i - 1] == '\\' by {
            if i < rest.len() {
                assert(all[i] == rest[i]);
                assert(all[i - 1] == rest[i - 1]);
            } else {
                assert(all[i] == tail[i - rest.len()]);
                assert(i - rest.len() == 1);
                assert(all[i - 1] == tail[0]);
            }
        }
    }
}

/// Escapes a markdown table cell, as `escape_cell` describes.
pub fn escape_markdown_table_cell(value: &str) -> (r: String)
    ensures
        r@ == escape_cell(value@),
{
    let cs = chars_of(value);
    let mut r = String::new();
    let mut i: usize = 0;
    while i < cs.len()
        invariant
            i <= cs@.len(),
            cs@ == value@,
            r@ == escape_cell(cs@.take(i as int)),
        decreases cs.len() - i,
    {
        let c = cs[i];
        assert(cs@.take(i + 1).drop_last() == cs@.take(i as int));
        if c == '|' {
            push_char(&mut r, '\\');
            push_char(&mut r, '|');
        } else if c == '\n' {
            push_char(&mut r, ' ');
        } else {
            push_char(&mut r, c);
        }
        assert(r@ =~= escape_cell(cs@.take(i + 1)));
        i += 1;
    }
    assert(cs@.take(cs@.len() as int) == cs@);
    r
}

/// Header cells: ` header |` for each header.
pub open spec fn header_cells(headers: Seq<Seq<char>>) -> Seq<char>
    decreases headers.len(),
{
    if headers.len() == 0 {
        Seq::empty()
    } else {
        header_cells(headers.drop_last()) + " "@ + headers.last() + " |"@
    }
}

/// `cell` repeated `n` times.
pub open spec fn repeat_cell(n: nat, cell: Seq<char>) -> Seq<char>
    decreases n,
{
    if n == 0 {
        Seq::empty()
    } else {
        repeat_cell((n - 1) as nat, cell) + cell
    }
}

/// Value cells: ` value |` for each escaped value.
pub open spec fn value_cells(values: Seq<Seq<char>>) -> Seq<char>
    decreases values.len(),
{
    if values.len() == 0 {
        Seq::empty()
    } else {
        value_cells(values.drop_last()) + " "@ + escape_cell(values.last()) + " |"@
    }
}

/// The lines of the table's rows.
pub open spec fn row_lines(rows: Seq<Seq<Seq<char>>>) -> Seq<char>
    decreases rows.len(),
{
    if rows.len() == 0 {
        Seq::empty()
    } else {
        row_lines(rows.drop_last()) + "|"@ + value_cells(rows.last()) + "\n"@
    }
}

/// A markdown table: the header line, the separator line, then one line per
/// row, or a line of `none` cells when there are no rows.
#[verifier::opaque]
pub open spec fn markdown_table(headers: Seq<Seq<char>>, rows: Seq<Seq<Seq<char>>>) -> Seq<char> {
    "|"@ + header_cells(headers) + "\n"@ + "|"@ + repeat_cell(headers.len(), " --- |"@) + "\n"@ + if rows.len()
        == 0 {
        "|"@ + repeat_cell(headers.len(), " none |"@) + "\n"@
    } else {
        row_lines(rows)
    }
}

/// The number of line breaks in a text.
pub open spec fn line_breaks(s: Seq<char>) -> nat
    decreases s.len(),
{
    if s.len() == 0 {
        0
    } else {
        line_breaks(s.drop_last()) + if s.last() == '\n' {
            1nat
        } else {
            0
        }
    }
}

proof fn lemma_line_breaks_add(a: Seq<char>, b: Seq<char>)
    ensures
        line_breaks(a + b) == line_breaks(a) + line_breaks(b),
    decreases b.len(),
{
    if b.len() == 0 {
        assert(a + b == a);
    } else {
        lemma_line_breaks_add(a, b.drop_last());
        assert((a + b).drop_last() == a + b.drop_last());
        assert((a + b).last() == b.last());
    }
}

proof fn lemma_no_line_breaks(s: Seq<char>)
    requires
        !s.contains('\n'),
    ensures
        line_breaks(s) == 0,
    decreases s.len(),
{
    if s.len() > 0 {
        assert(!s.drop_last().contains('\n')) by {
            if s.drop_last().contains('\n') {
                let i = choose|i: int| 0 <= i < s.drop_last().len() && s.drop_last()[i] == '\n';
                assert(s[i] == '\n');
            }
        }
        lemma_no_line_breaks(s.drop_last());
        assert(s[s.len() - 1] == s.last());
    }
}

proof fn lemma_cells_line_breaks(values: Seq<Seq<char>>)
    ensures
        line_breaks(value_cells(values)) == 0,
    decreases values.len(),
{
    if values.len() > 0 {
        lemma_cells_line_breaks(values.drop_last());
        escaped_cells_stay_in_their_cell(values.last());
        lemma_no_line_breaks(escape_cell(values.last()));
        reveal_strlit(" ");
        reveal_strlit(" |");
        lemma_no_line_breaks(" "@);
        lemma_no_line_breaks(" |"@);
        lemma_line_breaks_add(value_cells(values.drop_last()), " "@);
        lemma_line_breaks_add(value_cells(values.drop_last()) + " "@, escape_cell(values.last()));
        lemma_line_breaks_add(
            value_cells(values.drop_last()) + " "@ + escape_cell(values.last()),
            " |"@,
        );
    }
}

proof fn lemma_newline_line_break()
    ensures
        line_breaks("\n"@) == 1,
{
    reveal_strlit("\n");
    let nl = "\n"@;
    assert(nl.len() == 1);
    assert(nl[0] == '\n');
    assert(nl.drop_last() =~= Seq::<char>::empty());
    assert(nl.last() == '\n');
    assert(line_breaks(nl.drop_last()) == 0);
}

proof fn lemma_rows_line_breaks(rows: Seq<Seq<Seq<char>>>)
    ensures
        line_breaks(row_lines(rows)) == rows.len(),
    decreases rows.len(),
{
    if rows.len() > 0 {
        lemma_rows_line_breaks(rows.drop_last());
        lemma_cells_line_breaks(rows.last());
        reveal_strlit("|");
        reveal_strlit("\n");
        lemma_no_line_breaks("|"@);
        lemma_newline_line_break();
        let a = row_lines(rows.drop_last());
        lemma_line_breaks_add(a, "|"@);
        lemma_line_breaks_add(a + "|"@, value_cells(rows.last()));
        lemma_line_breaks_add(a + "|"@ + value_cells(rows.last()), "\n"@);
    }
}

proof fn lemma_headers_line_breaks(headers: Seq<Seq<char>>)
    requires
        forall|i: int| 0 <= i < headers.len() ==> !(#[trigger] headers[i]).contains('\n'),
    ensures
        line_breaks(header_cells(headers)) == 0,
    decreases headers.len(),
{
    if headers.len() > 0 {
        let dl = headers.drop_last();
        assert forall|i: int| 0 <= i < dl.len() implies !(#[trigger] dl[i]).contains('\n') by {
            assert(dl[i] == headers[i]);
        }
        lemma_headers_line_breaks(dl);
        assert(headers[headers.len() - 1] == headers.last());
        lemma_no_line_breaks(headers.last());
        reveal_strlit(" ");
        reveal_strlit(" |");
        lemma_no_line_breaks(" "@);
        lemma_no_line_breaks(" |"@);
        let a = header_cells(dl);
        lemma_line_breaks_add(a, " "@);
        lemma_line_breaks_add(a + " "@, headers.last());
        lemma_line_breaks_add(a + " "@ + headers.last(), " |"@);
    }
}

proof fn lemma_repeat_line_breaks(n: nat, cell: Seq<char>)
    requires
        !cell.contains('\n'),
    ensures
        line_breaks(repeat_cell(n, cell)) == 0,
    decreases n,
{
    if n > 0 {
        lemma_repeat_line_breaks((n - 1) as nat, cell);
        lemma_no_line_breaks(cell);
        lemma_line_breaks_add(repeat_cell((n - 1) as nat, cell), cell);
    }
}

/// A table has a header line, a separator line, and then one line per row,
/// or one line of `none` cells when there are no rows (headers holding no line
/// break).
pub proof fn tables_have_one_line_per_row(headers: Seq<Seq<char>>, rows: Seq<Seq<Seq<char>>>)
    requires
        forall|i: int| 0 <= i < headers.len() ==> !(#[trigger] headers[i]).contains('\n'),
    ensures
        line_breaks(markdown_table(headers, rows)) == 2 + if rows.len() == 0 {
            1
        } else {
            rows.len()
        },
{
    reveal(markdown_table);
    reveal_strlit("|");
    reveal_strlit("\n");
    reveal_strlit(" --- |");
    reveal_strlit(" none |");
    lemma_no_line_breaks("|"@);
    lemma_newline_line_break();
    lemma_headers_line_breaks(headers);
    lemma_repeat_line_breaks(headers.len(), " --- |"@);
    lemma_repeat_line_breaks(headers.len(), " none |"@);
    lemma_rows_line_breaks(rows);
    let a = "|"@ + header_cells(headers);
    let b = a + "\n"@;
    let c = b + "|"@;
    let d = c + repeat_cell(headers.len(), " --- |"@);
    let e = d + "\n"@;
    lemma_line_breaks_add("|"@, header_cells(headers));
    lemma_line_breaks_add(a, "\n"@);
    lemma_line_breaks_add(b, "|"@);
    lemma_line_breaks_add(c, repeat_cell(headers.len(), " --- |"@));
    lemma_line_breaks_add(d, "\n"@);
    let none = "|"@ + repeat_cell(headers.len(), " none |"@) + "\n"@;
    lemma_line_breaks_add("|"@, repeat_cell(headers.len(), " none |"@));
    lemma_line_breaks_add("|"@ + repeat_cell(headers.len(), " none |"@), "\n"@);
    lemma_line_breaks_add(e, none);
    lemma_line_breaks_add(e, row_lines(rows));
}

/// Every table but the chain coverage shows at most the first twenty entries
/// of its list, in order; the chain coverage shows all of its entries.
pub proof fn tables_show_at_most_twenty<A>(s: Seq<A>)
    ensures
        first_twenty(s).len() == if s.len() <= 20 {
            s.len()
        } else {
            20
        },
        forall|i: int| 0 <= i < first_twenty(s).len() ==> #[trigger] first_twenty(s)[i] == s[i],
{
}

/// Strings as texts, row by row.
pub open spec fn rows_view(rows: Seq<Vec<String>>) -> Seq<Seq<Seq<char>>> {
    rows.map_values(|r: Vec<String>| strings_view(r@))
}

/// Texts of string slices.
pub open spec fn strs_view(v: Seq<&str>) -> Seq<Seq<char>> {
    v.map_values(|s: &str| s@)
}

fn push_repeat(out: &mut String, n: usize, cell: &str)
    ensures
        final(out)@ == old(out)@ + repeat_cell(n as nat, cell@),
{
    let mut i: usize = 0;
    while i < n
        invariant
            i <= n,
            out@ == old(out)@ + repeat_cell(i as nat, cell@),
        decreases n - i,
    {
        append_str(out, cell);
        assert(out@ =~= old(out)@ + repeat_cell((i + 1) as nat, cell@));
        i += 1;
    }
}

/// Appends a markdown table to `out`.
fn push_table(out: &mut String, headers: &Vec<&str>, rows: &Vec<Vec<String>>)
    ensures
        final(out)@ == old(out)@ + markdown_table(strs_view(headers@), rows_view(rows@)),
{
    let ghost hv = strs_view(headers@);
    let ghost rv = rows_view(rows@);
    let ghost initial = out@;
    append_str(out, "|");
    let mut i: usize = 0;
    let ghost start = out@;
    while i < headers.len()
        invariant
            i <= headers@.len(),
            hv == strs_view(headers@),
            out@ == start + header_cells(hv.take(i as int)),
        decreases headers.len() - i,
    {
        assert(hv.take(i + 1).drop_last() == hv.take(i as int));
        append_str(out, " ");
        append_str(out, headers[i]);
        append_str(out, " |");
        assert(out@ =~= start + header_cells(hv.take(i + 1)));
        i += 1;
    }
    assert(hv.take(hv.len() as int) == hv);
    append_str(out, "\n");
    append_str(out, "|");
    push_repeat(out, headers.len(), " --- |");
    append_str(out, "\n");
    let ghost before_rows = out@;
    let mut wrote = false;
    let mut r: usize = 0;
    while r < rows.len()
        invariant
            r <= rows@.len(),
            rv == rows_view(rows@),
            wrote == (r > 0),
            out@ == before_rows + row_lines(rv.take(r as int)),
        decreases rows.len() - r,
    {
        wrote = true;
        let row = &rows[r];
        let ghost line_start = out@;
        append_str(out, "|");
        let ghost cells_start = out@;
        let ghost vals = strings_view(row@);
        let mut c: usize = 0;
        while c < row.len()
            invariant
                c <= row@.len(),
                vals == strings_view(row@),
                out@ == cells_start + value_cells(vals.take(c as int)),
            decreases row.len() - c,
        {
            assert(vals.take(c + 1).drop_last() == vals.take(c as int));
            append_str(out, " ");
            let escaped = escape_markdown_table_cell(row[c].as_str());
            append_str(out, escaped.as_str());
            append_str(out, " |");
            assert(out@ =~= cells_start + value_cells(vals.take(c + 1)));
            c += 1;
        }
        assert(vals.take(vals.len() as int) == vals);
        append_str(out, "\n");
        assert(rv[r as int] == vals);
        assert(rv.take(r + 1).drop_last() == rv.take(r as int));
        assert(rv.take(r + 1).last() == vals);
        assert(out@ =~= before_rows + row_lines(rv.take(r + 1)));
        r += 1;
    }
    assert(rv.take(rv.len() as int) == rv);
    if !wrote {
        append_str(out, "|");
        push_repeat(out, headers.len(), " none |");
        append_str(out, "\n");
        assert(rv.len() == 0);
    }
    reveal(markdown_table);
    assert(before_rows =~= initial + "|"@ + header_cells(hv) + "\n"@ + "|"@ + repeat_cell(hv.len(), " --- |"@) + "\n"@);
    assert(out@ =~= initial + markdown_table(hv, rv));
}

/// The Debug name of a criticality, in lower case.
pub open spec fn criticality_name(c: PromptCriticality) -> Seq<char> {
    match c {
        PromptCriticality::Critical => "critical"@,
        PromptCriticality::High => "high"@,
        PromptCriticality::Medium => "medium"@,
        PromptCriticality::Low => "low"@,
    }
}

fn criticality_str(c: PromptCriticality) -> (r: &'static str)
    ensures
        r@ == criticality_name(c),
{
    match c {
        PromptCriticality::Critical => "critical",
        PromptCriticality::High => "high",
        PromptCriticality::Medium => "medium",
        PromptCriticality::Low => "low",
    }
}

/// The name of an evidence strength, in lower case.
pub open spec fn evidence_name(e: EvidenceStrength) -> Seq<char> {
    match e {
        EvidenceStrength::Strong => "strong"@,
        EvidenceStrength::Medium => "medium"@,
        EvidenceStrength::Weak => "weak"@,
        EvidenceStrength::NoEvidence => "none"@,
    }
}

fn evidence_str(e: EvidenceStrength) -> (r: &'static str)
    ensures
        r@ == evidence_name(e),
{
    match e {
        EvidenceStrength::Strong => "strong",
        EvidenceStrength::Medium => "medium",
        EvidenceStrength::Weak => "weak",
        EvidenceStrength::NoEvidence => "none",
    }
}

/// The name of an exposure, in lower case.
pub open spec fn exposure_name(e: ToolExposure) -> Seq<char> {
    match e {
        ToolExposure::Direct => "direct"@,
        ToolExposure::Deferred => "deferred"@,
        ToolExposure::Hosted => "hosted"@,
        ToolExposure::Search => "search"@,
    }
}

fn exposure_str(e: ToolExposure) -> (r: &'static str)
    ensures
        r@ == exposure_name(e),
{
    match e {
        ToolExposure::Direct => "direct",
        ToolExposure::Deferred => "deferred",
        ToolExposure::Hosted => "hosted",
        ToolExposure::Search => "search",
    }
}

/// The display name of an action.
pub open spec fn action_name(a: OptimizationAction) -> Seq<char> {
    match a {
        OptimizationAction::Keep => "keep"@,
        OptimizationAction::Compress => "compress"@,
        OptimizationAction::LazyLoad => "lazy_load"@,
        OptimizationAction::RouteConditionally => "route_conditionally"@,
        OptimizationAction::DeleteCandidate => "delete_candidate"@,
    }
}

/// The display name of an action, as `action_name` gives it.
pub fn display_action(a: OptimizationAction) -> (r: &'static str)
    ensures
        r@ == action_name(a),
{
    match a {
        OptimizationAction::Keep => "keep",
        OptimizationAction::Compress => "compress",
        OptimizationAction::LazyLoad => "lazy_load",
        OptimizationAction::RouteConditionally => "route_conditionally",
        OptimizationAction::DeleteCandidate => "delete_candidate",
    }
}

/// At most the first twenty elements.
pub open spec fn first_twenty<A>(s: Seq<A>) -> Seq<A> {
    if s.len() <= 20 {
        s
    } else {
        s.take(20)
    }
}

/// The cells of a waterfall row.
pub open spec fn waterfall_cells(r: RowView) -> Seq<Seq<char>> {
    seq![r.id, r.category, decimal(r.token_count_estimate as nat), decimal(r.occurrences as nat)]
}

/// The cells of a low-evidence segment.
pub open spec fn low_evidence_cells(s: SegmentSummaryView) -> Seq<Seq<char>> {
    seq![
        s.segment_id,
        s.category,
        criticality_name(s.criticality),
        decimal(s.token_count_estimate as nat),
        evidence_name(s.evidence),
    ]
}

/// Every evidence strength, criticality, exposure and action is rendered as
/// its own lower-case name, distinct from the names of the other values of its
/// kind; the evidence and action cells of a finding row, the criticality and
/// evidence cells of a low-evidence row and the exposure cell of a
/// never-called row are these names.
pub proof fn rendered_names_are_distinct_lower_case(
    e1: EvidenceStrength,
    e2: EvidenceStrength,
    c1: PromptCriticality,
    c2: PromptCriticality,
    x1: ToolExposure,
    x2: ToolExposure,
    a1: OptimizationAction,
    a2: OptimizationAction,
    f: FindingView,
    s: SegmentSummaryView,
    t: ToolSummaryView,
)
    ensures
        evidence_name(EvidenceStrength::Strong) == "strong"@,
        evidence_name(EvidenceStrength::Medium) == "medium"@,
        evidence_name(EvidenceStrength::Weak) == "weak"@,
        evidence_name(EvidenceStrength::NoEvidence) == "none"@,
        criticality_name(PromptCriticality::Critical) == "critical"@,
        criticality_name(PromptCriticality::High) == "high"@,
        criticality_name(PromptCriticality::Medium) == "medium"@,
        criticality_name(PromptCriticality::Low) == "low"@,
        exposure_name(ToolExposure::Direct) == "direct"@,
        exposure_name(ToolExposure::Deferred) == "deferred"@,
        exposure_name(ToolExposure::Hosted) == "hosted"@,
        exposure_name(ToolExposure::Search) == "search"@,
        action_name(OptimizationAction::Keep) == "keep"@,
        action_name(OptimizationAction::Compress) == "compress"@,
        action_name(OptimizationAction::LazyLoad) == "lazy_load"@,
        action_name(OptimizationAction::RouteConditionally) == "route_conditionally"@,
        action_name(OptimizationAction::DeleteCandidate) == "delete_candidate"@,
        evidence_name(e1) == evidence_name(e2) ==> e1 == e2,
        criticality_name(c1) == criticality_name(c2) ==> c1 == c2,
        exposure_name(x1) == exposure_name(x2) ==> x1 == x2,
        action_name(a1) == action_name(a2) ==> a1 == a2,
        finding_cells(f)[1] == action_name(f.action),
        finding_cells(f)[3] == evidence_name(f.evidence),
        low_evidence_cells(s)[2] == criticality_name(s.criticality),
        low_evidence_cells(s)[4] == evidence_name(s.evidence),
        never_called_cells(t)[1] == exposure_name(t.exposure),
{
    reveal_strlit("strong");
    reveal_strlit("medium");
    reveal_strlit("weak");
    reveal_strlit("none");
    reveal_strlit("critical");
    reveal_strlit("high");
    reveal_strlit("low");
    reveal_strlit("direct");
    reveal_strlit("deferred");
    reveal_strlit("hosted");
    reveal_strlit("search");
    reveal_strlit("keep");
    reveal_strlit("compress");
    reveal_strlit("lazy_load");
    reveal_strlit("route_conditionally");
    reveal_strlit("delete_candidate");
    if evidence_name(e1) == evidence_name(e2) && e1 != e2 {
        assert(evidence_name(e1)[0] != evidence_name(e2)[0] || evidence_name(e1).len()
            != evidence_name(e2).len());
    }
    if criticality_name(c1) == criticality_name(c2) && c1 != c2 {
        assert(criticality_name(c1)[0] != criticality_name(c2)[0] || criticality_name(c1).len()
            != criticality_name(c2).len());
    }
    if exposure_name(x1) == exposure_name(x2) && x1 != x2 {
        assert(exposure_name(x1)[0] != exposure_name(x2)[0] || exposure_name(x1).len()
            != exposure_name(x2).len());
    }
    if action_name(a1) == action_name(a2) && a1 != a2 {
        assert(action_name(a1)[0] != action_name(a2)[0] || action_name(a1).len()
            != action_name(a2).len());
    }
}

/// The cells of a never-called tool.
pub open spec fn never_called_cells(t: ToolSummaryView) -> Seq<Seq<char>> {
    seq![
        display_tool_name(t.namespace, t.name),
        exposure_name(t.exposure),
        decimal(t.token_count_estimate as nat),
        decimal(t.exposed_count as nat),
    ]
}

/// The cells of a searched tool.
pub open spec fn searched_cells(d: DeferredSearchView) -> Seq<Seq<char>> {
    seq![display_tool_name(d.namespace, d.name), decimal(d.search_result_count as nat)]
}

/// The cells of a chain.
pub open spec fn chain_cells(c: ChainSummaryView) -> Seq<Seq<char>> {
    seq![c.chain_id, decimal(c.entered as nat), decimal(c.skipped as nat), decimal(c.fallback as nat)]
}

/// The cells of a finding.
pub open spec fn finding_cells(f: FindingView) -> Seq<Seq<char>> {
    seq![
        f.target_id,
        action_name(f.action),
        decimal(f.token_savings_estimate as nat),
        evidence_name(f.evidence),
        f.reason,
    ]
}

/// The markdown rendering of a report: a title, the counts, and six tables
/// (the first twenty waterfall rows, low-evidence segments, never-called
/// tools, searched tools and findings; all chains).
pub open spec fn markdown(r: ReportView) -> Seq<char> {
    "# Prompt Observability Trace Analysis\n\n"@ + "- Bundles analyzed: "@ + decimal(
        r.bundles_analyzed as nat,
    ) + "\n- Snapshots analyzed: "@ + decimal(r.snapshots_analyzed as nat)
        + "\n- Token counts: estimate\n\n"@ + "## Token Waterfall\n\n"@ + markdown_table(
        seq!["ID"@, "Category"@, "Tokens"@, "Occurrences"@],
        first_twenty(r.token_waterfall).map_values(|x: RowView| waterfall_cells(x)),
    ) + "\n## Low Evidence Segments\n\n"@ + markdown_table(
        seq!["Segment"@, "Category"@, "Criticality"@, "Tokens"@, "Evidence"@],
        first_twenty(r.low_evidence_segments).map_values(
            |x: SegmentSummaryView| low_evidence_cells(x),
        ),
    ) + "\n## Exposed But Never Called Tools\n\n"@ + markdown_table(
        seq!["Tool"@, "Exposure"@, "Tokens"@, "Exposed"@],
        first_twenty(r.exposed_but_never_called_tools).map_values(
            |x: ToolSummaryView| never_called_cells(x),
        ),
    ) + "\n## Deferred But Searched Tools\n\n"@ + markdown_table(
        seq!["Tool"@, "Search Results"@],
        first_twenty(r.deferred_but_searched_tools).map_values(
            |x: DeferredSearchView| searched_cells(x),
        ),
    ) + "\n## Chain Coverage\n\n"@ + markdown_table(
        seq!["Chain"@, "Entered"@, "Skipped"@, "Fallback"@],
        r.chain_coverage.map_values(|x: ChainSummaryView| chain_cells(x)),
    ) + "\n## Candidate Actions\n\n"@ + markdown_table(
        seq!["Target"@, "Action"@, "Savings"@, "Evidence"@, "Reason"@],
        first_twenty(r.findings).map_values(|x: FindingView| finding_cells(x)),
    )
}

proof fn lemma_literal_line_breaks()
    ensures
        line_breaks("# Prompt Observability Trace Analysis\n\n"@) == 2,
        line_breaks("- Bundles analyzed: "@) == 0,
        line_breaks("\n- Snapshots analyzed: "@) == 1,
        line_breaks("\n- Token counts: estimate\n\n"@) == 3,
        line_breaks("## Token Waterfall\n\n"@) == 2,
        line_breaks("\n## Low Evidence Segments\n\n"@) == 3,
        line_breaks("\n## Exposed But Never Called Tools\n\n"@) == 3,
        line_breaks("\n## Deferred But Searched Tools\n\n"@) == 3,
        line_breaks("\n## Chain Coverage\n\n"@) == 3,
        line_breaks("\n## Candidate Actions\n\n"@) == 3,
{
    reveal_with_fuel(line_breaks, 40);
    reveal_strlit("# Prompt Observability Trace Analysis\n\n");
    reveal_strlit("- Bundles analyzed: ");
    reveal_strlit("\n- Snapshots analyzed: ");
    reveal_strlit("\n- Token counts: estimate\n\n");
    reveal_strlit("## Token Waterfall\n\n");
    reveal_strlit("\n## Low Evidence Segments\n\n");
    reveal_strlit("\n## Exposed But Never Called Tools\n\n");
    reveal_strlit("\n## Deferred But Searched Tools\n\n");
    reveal_strlit("\n## Chain Coverage\n\n");
    reveal_strlit("\n## Candidate Actions\n\n");
}

proof fn lemma_digit_not_line_break(d: nat)
    requires
        d < 10,
    ensures
        digit_char(d) != '\n',
{
    let b: u8 = (d + 48) as u8;
    assert(b == d + 48);
    assert(b as char != '\n');
}

proof fn lemma_decimal_line_breaks(n: nat)
    ensures
        line_breaks(decimal(n)) == 0,
    decreases n,
{
    if n >= 10 {
        lemma_decimal_line_breaks(n / 10);
        let d = decimal(n);
        assert(d.drop_last() == decimal(n / 10));
        assert(d.last() == digit_char(n % 10));
        lemma_digit_not_line_break(n % 10);
    } else {
        let d = decimal(n);
        assert(d == seq![digit_char(n)]);
        assert(d.drop_last() =~= Seq::<char>::empty());
        assert(d.last() == digit_char(n));
        lemma_digit_not_line_break(n);
        assert(line_breaks(d.drop_last()) == 0);
    }
}

/// The number of lines of a table with `n` rows beyond its two head lines.
pub open spec fn table_body_lines(n: nat) -> nat {
    if n == 0 {
        1
    } else {
        n
    }
}

/// The rows a table shows of a list of `n` entries: at most twenty.
pub open spec fn twenty_at_most(n: nat) -> nat {
    if n <= 20 {
        n
    } else {
        20
    }
}

/// The rendered report is its head and six tables, in the order of
/// `markdown`: the waterfall, the low-evidence segments, the never-called
/// tools, the searched tools, the chains and the findings. Each table has its
/// header and separator lines and one line per shown row (a `none` line when
/// empty); every table but the chains shows at most twenty rows, so the
/// rendering has exactly this many line breaks.
#[verifier::rlimit(100)]
#[verifier::spinoff_prover]
pub proof fn rendered_reports_show_at_most_twenty_rows(r: ReportView)
    ensures
        line_breaks(markdown(r)) == 35 + table_body_lines(twenty_at_most(r.token_waterfall.len()))
            + table_body_lines(twenty_at_most(r.low_evidence_segments.len())) + table_body_lines(
            twenty_at_most(r.exposed_but_never_called_tools.len()),
        ) + table_body_lines(twenty_at_most(r.deferred_but_searched_tools.len()))
            + table_body_lines(r.chain_coverage.len()) + table_body_lines(
            twenty_at_most(r.findings.len()),
        ),
{
    lemma_literal_line_breaks();
    lemma_decimal_line_breaks(r.bundles_analyzed as nat);
    lemma_decimal_line_breaks(r.snapshots_analyzed as nat);
    let h1 = seq!["ID"@, "Category"@, "Tokens"@, "Occurrences"@];
    let h2 = seq!["Segment"@, "Category"@, "Criticality"@, "Tokens"@, "Evidence"@];
    let h3 = seq!["Tool"@, "Exposure"@, "Tokens"@, "Exposed"@];
    let h4 = seq!["Tool"@, "Search Results"@];
    let h5 = seq!["Chain"@, "Entered"@, "Skipped"@, "Fallback"@];
    let h6 = seq!["Target"@, "Action"@, "Savings"@, "Evidence"@, "Reason"@];
    reveal_strlit("ID");
    reveal_strlit("Category");
    reveal_strlit("Tokens");
    reveal_strlit("Occurrences");
    reveal_strlit("Segment");
    reveal_strlit("Criticality");
    reveal_strlit("Evidence");
    reveal_strlit("Tool");
    reveal_strlit("Exposure");
    reveal_strlit("Exposed");
    reveal_strlit("Search Results");
    reveal_strlit("Chain");
    reveal_strlit("Entered");
    reveal_strlit("Skipped");
    reveal_strlit("Fallback");
    reveal_strlit("Target");
    reveal_strlit("Action");
    reveal_strlit("Savings");
    reveal_strlit("Reason");
    let t1 = markdown_table(h1, first_twenty(r.token_waterfall).map_values(|x: RowView| waterfall_cells(x)));
    let t2 = markdown_table(
        h2,
        first_twenty(r.low_evidence_segments).map_values(|x: SegmentSummaryView| low_evidence_cells(x)),
    );
    let t3 = markdown_table(
        h3,
        first_twenty(r.exposed_but_never_called_tools).map_values(
            |x: ToolSummaryView| never_called_cells(x),
        ),
    );
    let t4 = markdown_table(
        h4,
        first_twenty(r.deferred_but_searched_tools).map_values(|x: DeferredSearchView| searched_cells(x)),
    );
    let t5 = markdown_table(h5, r.chain_coverage.map_values(|x: ChainSummaryView| chain_cells(x)));
    let t6 = markdown_table(
        h6,
        first_twenty(r.findings).map_values(|x: FindingView| finding_cells(x)),
    );
    tables_have_one_line_per_row(h1, first_twenty(r.token_waterfall).map_values(|x: RowView| waterfall_cells(x)));
    tables_have_one_line_per_row(
        h2,
        first_twenty(r.low_evidence_segments).map_values(|x: SegmentSummaryView| low_evidence_cells(x)),
    );
    tables_have_one_line_per_row(
        h3,
        first_twenty(r.exposed_but_never_called_tools).map_values(
            |x: ToolSummaryView| never_called_cells(x),
        ),
    );
    tables_have_one_line_per_row(
        h4,
        first_twenty(r.deferred_but_searched_tools).map_values(|x: DeferredSearchView| searched_cells(x)),
    );
    tables_have_one_line_per_row(h5, r.chain_coverage.map_values(|x: ChainSummaryView| chain_cells(x)));
    tables_have_one_line_per_row(
        h6,
        first_twenty(r.findings).map_values(|x: FindingView| finding_cells(x)),
    );
    let p1 = "# Prompt Observability Trace Analysis\n\n"@;
    let a2 = p1 + "- Bundles analyzed: "@;
    lemma_line_breaks_add(p1, "- Bundles analyzed: "@);
    let a3 = a2 + decimal(r.bundles_analyzed as nat);
    lemma_line_breaks_add(a2, decimal(r.bundles_analyzed as nat));
    let a4 = a3 + "\n- Snapshots analyzed: "@;
    lemma_line_breaks_add(a3, "\n- Snapshots analyzed: "@);
    let a5 = a4 + decimal(r.snapshots_analyzed as nat);
    lemma_line_breaks_add(a4, decimal(r.snapshots_analyzed as nat));
    let a6 = a5 + "\n- Token counts: estimate\n\n"@;
    lemma_line_breaks_add(a5, "\n- Token counts: estimate\n\n"@);
    let a7 = a6 + "## Token Waterfall\n\n"@;
    lemma_line_breaks_add(a6, "## Token Waterfall\n\n"@);
    let a8 = a7 + t1;
    lemma_line_breaks_add(a7, t1);
    let a9 = a8 + "\n## Low Evidence Segments\n\n"@;
    lemma_line_breaks_add(a8, "\n## Low Evidence Segments\n\n"@);
    let a10 = a9 + t2;
    lemma_line_breaks_add(a9, t2);
    let a11 = a10 + "\n## Exposed But Never Called Tools\n\n"@;
    lemma_line_breaks_add(a10, "\n## Exposed But Never Called Tools\n\n"@);
    let a12 = a11 + t3;
    lemma_line_breaks_add(a11, t3);
    let a13 = a12 + "\n## Deferred But Searched Tools\n\n"@;
    lemma_line_breaks_add(a12, "\n## Deferred But Searched Tools\n\n"@);
    let a14 = a13 + t4;
    lemma_line_breaks_add(a13, t4);
    let a15 = a14 + "\n## Chain Coverage\n\n"@;
    lemma_line_breaks_add(a14, "\n## Chain Coverage\n\n"@);
    let a16 = a15 + t5;
    lemma_line_breaks_add(a15, t5);
    let a17 = a16 + "\n## Candidate Actions\n\n"@;
    lemma_line_breaks_add(a16, "\n## Candidate Actions\n\n"@);
    let a18 = a17 + t6;
    lemma_line_breaks_add(a17, t6);
    assert(markdown(r) == a18);
}

/// How many of `n` elements a table shows at most twenty of.
fn twenty_or_fewer(n: usize) -> (r: usize)
    ensures
        r == if n <= 20 {
            n
        } else {
            20
        },
{
    if n <= 20 {
        n
    } else {
        20
    }
}

fn header_list4(a: &'static str, b: &'static str, c: &'static str, d: &'static str) -> (v: Vec<
    &'static str,
>)
    ensures
        strs_view(v@) == seq![a@, b@, c@, d@],
{
    let mut v: Vec<&'static str> = Vec::new();
    v.push(a);
    v.push(b);
    v.push(c);
    v.push(d);
    assert(strs_view(v@) =~= seq![a@, b@, c@, d@]);
    v
}

fn header_list5(
    a: &'static str,
    b: &'static str,
    c: &'static str,
    d: &'static str,
    e: &'static str,
) -> (v: Vec<&'static str>)
    ensures
        strs_view(v@) == seq![a@, b@, c@, d@, e@],
{
    let mut v: Vec<&'static str> = Vec::new();
    v.push(a);
    v.push(b);
    v.push(c);
    v.push(d);
    v.push(e);
    assert(strs_view(v@) =~= seq![a@, b@, c@, d@, e@]);
    v
}

fn header_list2(a: &'static str, b: &'static str) -> (v: Vec<&'static str>)
    ensures
        strs_view(v@) == seq![a@, b@],
{
    let mut v: Vec<&'static str> = Vec::new();
    v.push(a);
    v.push(b);
    assert(strs_view(v@) =~= seq![a@, b@]);
    v
}


fn waterfall_table_rows(items: &Vec<TokenWaterfallRow>) -> (rows: Vec<Vec<String>>)
    ensures
        rows_view(rows@) == first_twenty(row_views(items@)).map_values(|x: RowView| waterfall_cells(x)),
{
    let ghost all = row_views(items@);
    let n = twenty_or_fewer(items.len());
    let mut rows: Vec<Vec<String>> = Vec::new();
    let mut i: usize = 0;
    while i < n
        invariant
            i <= n <= items@.len(),
            all == row_views(items@),
            n == first_twenty(row_views(items@)).len(),
            first_twenty(row_views(items@)) == all.take(n as int),
            rows_view(rows@) == all.take(i as int).map_values(|x: RowView| waterfall_cells(x)),
        decreases n - i,
    {
        let x = &items[i];
        assert(all[i as int] == x@);
        let mut cells: Vec<String> = Vec::new();
        cells.push(x.id.clone());
        cells.push(x.category.clone());
        cells.push(decimal_string(x.token_count_estimate));
        cells.push(decimal_string(x.occurrences));
        assert(strings_view(cells@) =~= waterfall_cells(x@));
        let ghost before = rows@;
        rows.push(cells);
        assert(rows_view(rows@) =~= rows_view(before).push(waterfall_cells(x@)));
        assert(all.take(i + 1) =~= all.take(i as int).push(x@));
        assert(all.take(i + 1).map_values(|x: RowView| waterfall_cells(x)) =~= all.take(i as int).map_values(
            |x: RowView| waterfall_cells(x),
        ).push(waterfall_cells(x@)));
        i += 1;
    }
    rows
}

fn low_evidence_table_rows(items: &Vec<SegmentSummary>) -> (rows: Vec<Vec<String>>)
    ensures
        rows_view(rows@) == first_twenty(segment_summary_views(items@)).map_values(|x: SegmentSummaryView| low_evidence_cells(x)),
{
    let ghost all = segment_summary_views(items@);
    let n = twenty_or_fewer(items.len());
    let mut rows: Vec<Vec<String>> = Vec::new();
    let mut i: usize = 0;
    while i < n
        invariant
            i <= n <= items@.len(),
            all == segment_summary_views(items@),
            n == first_twenty(segment_summary_views(items@)).len(),
            first_twenty(segment_summary_views(items@)) == all.take(n as int),
            rows_view(rows@) == all.take(i as int).map_values(|x: SegmentSummaryView| low_evidence_cells(x)),
        decreases n - i,
    {
        let x = &items[i];
        assert(all[i as int] == x@);
        let mut cells: Vec<String> = Vec::new();
        cells.push(x.segment_id.clone());
        cells.push(x.category.clone());
        cells.push(owned(criticality_str(x.criticality)));
        cells.push(decimal_string(x.token_count_estimate));
        cells.push(owned(evidence_str(x.evidence)));
        assert(strings_view(cells@) =~= low_evidence_cells(x@));
        let ghost before = rows@;
        rows.push(cells);
        assert(rows_view(rows@) =~= rows_view(before).push(low_evidence_cells(x@)));
        assert(all.take(i + 1) =~= all.take(i as int).push(x@));
        assert(all.take(i + 1).map_values(|x: SegmentSummaryView| low_evidence_cells(x)) =~= all.take(i as int).map_values(
            |x: SegmentSummaryView| low_evidence_cells(x),
        ).push(low_evidence_cells(x@)));
        i += 1;
    }
    rows
}

fn never_called_table_rows(items: &Vec<ToolSummary>) -> (rows: Vec<Vec<String>>)
    ensures
        rows_view(rows@) == first_twenty(tool_summary_views(items@)).map_values(|x: ToolSummaryView| never_called_cells(x)),
{
    let ghost all = tool_summary_views(items@);
    let n = twenty_or_fewer(items.len());
    let mut rows: Vec<Vec<String>> = Vec::new();
    let mut i: usize = 0;
    while i < n
        invariant
            i <= n <= items@.len(),
            all == tool_summary_views(items@),
            n == first_twenty(tool_summary_views(items@)).len(),
            first_twenty(tool_summary_views(items@)) == all.take(n as int),
            rows_view(rows@) == all.take(i as int).map_values(|x: ToolSummaryView| never_called_cells(x)),
        decreases n - i,
    {
        let x = &items[i];
        assert(all[i as int] == x@);
        let mut cells: Vec<String> = Vec::new();
        cells.push(display_tool_name_string(&x.namespace, x.name.as_str()));
        cells.push(owned(exposure_str(x.exposure)));
        cells.push(decimal_string(x.token_count_estimate));
        cells.push(decimal_string(x.exposed_count));
        assert(strings_view(cells@) =~= never_called_cells(x@));
        let ghost before = rows@;
        rows.push(cells);
        assert(rows_view(rows@) =~= rows_view(before).push(never_called_cells(x@)));
        assert(all.take(i + 1) =~= all.take(i as int).push(x@));
        assert(all.take(i + 1).map_values(|x: ToolSummaryView| never_called_cells(x)) =~= all.take(i as int).map_values(
            |x: ToolSummaryView| never_called_cells(x),
        ).push(never_called_cells(x@)));
        i += 1;
    }
    rows
}

fn searched_table_rows(items: &Vec<DeferredSearchSummary>) -> (rows: Vec<Vec<String>>)
    ensures
        rows_view(rows@) == first_twenty(deferred_views(items@)).map_values(|x: DeferredSearchView| searched_cells(x)),
{
    let ghost all = deferred_views(items@);
    let n = twenty_or_fewer(items.len());
    let mut rows: Vec<Vec<String>> = Vec::new();
    let mut i: usize = 0;
    while i < n
        invariant
            i <= n <= items@.len(),
            all == deferred_views(items@),
            n == first_twenty(deferred_views(items@)).len(),
            first_twenty(deferred_views(items@)) == all.take(n as int),
            rows_view(rows@) == all.take(i as int).map_values(|x: DeferredSearchView| searched_cells(x)),
        decreases n - i,
    {
        let x = &items[i];
        assert(all[i as int] == x@);
        let mut cells: Vec<String> = Vec::new();
        cells.push(display_tool_name_string(&x.namespace, x.name.as_str()));
        cells.push(decimal_string(x.search_result_count));
        assert(strings_view(cells@) =~= searched_cells(x@));
        let ghost before = rows@;
        rows.push(cells);
        assert(rows_view(rows@) =~= rows_view(before).push(searched_cells(x@)));
        assert(all.take(i + 1) =~= all.take(i as int).push(x@));
        assert(all.take(i + 1).map_values(|x: DeferredSearchView| searched_cells(x)) =~= all.take(i as int).map_values(
            |x: DeferredSearchView| searched_cells(x),
        ).push(searched_cells(x@)));
        i += 1;
    }
    rows
}

fn chain_table_rows(items: &Vec<ChainCoverageSummary>) -> (rows: Vec<Vec<String>>)
    ensures
        rows_view(rows@) == chain_summary_views(items@).map_values(|x: ChainSummaryView| chain_cells(x)),
{
    let ghost all = chain_summary_views(items@);
    let n = items.len();
    let mut rows: Vec<Vec<String>> = Vec::new();
    let mut i: usize = 0;
    while i < n
        invariant
            i <= n <= items@.len(),
            all == chain_summary_views(items@),
            n == chain_summary_views(items@).len(),
            chain_summary_views(items@) == all.take(n as int),
            rows_view(rows@) == all.take(i as int).map_values(|x: ChainSummaryView| chain_cells(x)),
        decreases n - i,
    {
        let x = &items[i];
        assert(all[i as int] == x@);
        let mut cells: Vec<String> = Vec::new();
        cells.push(x.chain_id.clone());
        cells.push(decimal_string(x.entered));
        cells.push(decimal_string(x.skipped));
        cells.push(decimal_string(x.fallback));
        assert(strings_view(cells@) =~= chain_cells(x@));
        let ghost before = rows@;
        rows.push(cells);
        assert(rows_view(rows@) =~= rows_view(before).push(chain_cells(x@)));
        assert(all.take(i + 1) =~= all.take(i as int).push(x@));
        assert(all.take(i + 1).map_values(|x: ChainSummaryView| chain_cells(x)) =~= all.take(i as int).map_values(
            |x: ChainSummaryView| chain_cells(x),
        ).push(chain_cells(x@)));
        i += 1;
    }
    rows
}

fn finding_table_rows(items: &Vec<OptimizationFinding>) -> (rows: Vec<Vec<String>>)
    ensures
        rows_view(rows@) == first_twenty(finding_views(items@)).map_values(|x: FindingView| finding_cells(x)),
{
    let ghost all = finding_views(items@);
    let n = twenty_or_fewer(items.len());
    let mut rows: Vec<Vec<String>> = Vec::new();
    let mut i: usize = 0;
    while i < n
        invariant
            i <= n <= items@.len(),
            all == finding_views(items@),
            n == first_twenty(finding_views(items@)).len(),
            first_twenty(finding_views(items@)) == all.take(n as int),
            rows_view(rows@) == all.take(i as int).map_values(|x: FindingView| finding_cells(x)),
        decreases n - i,
    {
        let x = &items[i];
        assert(all[i as int] == x@);
        let mut cells: Vec<String> = Vec::new();
        cells.push(x.target_id.clone());
        cells.push(owned(display_action(x.action)));
        cells.push(decimal_string(x.token_savings_estimate));
        cells.push(owned(evidence_str(x.evidence)));
        cells.push(x.reason.clone());
        assert(strings_view(cells@) =~= finding_cells(x@));
        let ghost before = rows@;
        rows.push(cells);
        assert(rows_view(rows@) =~= rows_view(before).push(finding_cells(x@)));
        assert(all.take(i + 1) =~= all.take(i as int).push(x@));
        assert(all.take(i + 1).map_values(|x: FindingView| finding_cells(x)) =~= all.take(i as int).map_values(
            |x: FindingView| finding_cells(x),
        ).push(finding_cells(x@)));
        i += 1;
    }
    rows
}

/// Renders a report as markdown (see `markdown`).
#[verifier::rlimit(50)]
pub fn render_markdown(report: &TraceAnalysisReport) -> (out: String)
    ensures
        out@ == markdown(report@),
{
    let ghost r = report@;
    let mut out = owned("# Prompt Observability Trace Analysis\n\n");
    append_str(&mut out, "- Bundles analyzed: ");
    let bundles = decimal_string(report.bundles_analyzed);
    append_str(&mut out, bundles.as_str());
    append_str(&mut out, "\n- Snapshots analyzed: ");
    let snapshots = decimal_string(report.snapshots_analyzed);
    append_str(&mut out, snapshots.as_str());
    append_str(&mut out, "\n- Token counts: estimate\n\n");
    append_str(&mut out, "## Token Waterfall\n\n");
    let ghost s1 = out@;
    push_table(
        &mut out,
        &header_list4("ID", "Category", "Tokens", "Occurrences"),
        &waterfall_table_rows(&report.token_waterfall),
    );
    let ghost t1 = markdown_table(
        seq!["ID"@, "Category"@, "Tokens"@, "Occurrences"@],
        first_twenty(r.token_waterfall).map_values(|x: RowView| waterfall_cells(x)),
    );
    assert(out@ == s1 + t1);
    append_str(&mut out, "\n## Low Evidence Segments\n\n");
    let ghost s2 = out@;
    push_table(
        &mut out,
        &header_list5("Segment", "Category", "Criticality", "Tokens", "Evidence"),
        &low_evidence_table_rows(&report.low_evidence_segments),
    );
    let ghost t2 = markdown_table(
        seq!["Segment"@, "Category"@, "Criticality"@, "Tokens"@, "Evidence"@],
        first_twenty(r.low_evidence_segments).map_values(
            |x: SegmentSummaryView| low_evidence_cells(x),
        ),
    );
    assert(out@ == s2 + t2);
    append_str(&mut out, "\n## Exposed But Never Called Tools\n\n");
    let ghost s3 = out@;
    push_table(
        &mut out,
        &header_list4("Tool", "Exposure", "Tokens", "Exposed"),
        &never_called_table_rows(&report.exposed_but_never_called_tools),
    );
    let ghost t3 = markdown_table(
        seq!["Tool"@, "Exposure"@, "Tokens"@, "Exposed"@],
        first_twenty(r.exposed_but_never_called_tools).map_values(
            |x: ToolSummaryView| never_called_cells(x),
        ),
    );
    assert(out@ == s3 + t3);
    append_str(&mut out, "\n## Deferred But Searched Tools\n\n");
    let ghost s4 = out@;
    push_table(
        &mut out,
        &header_list2("Tool", "Search Results"),
        &searched_table_rows(&report.deferred_but_searched_tools),
    );
    let ghost t4 = markdown_table(
        seq!["Tool"@, "Search Results"@],
        first_twenty(r.deferred_but_searched_tools).map_values(
            |x: DeferredSearchView| searched_cells(x),
        ),
    );
    assert(out@ == s4 + t4);
    append_str(&mut out, "\n## Chain Coverage\n\n");
    let ghost s5 = out@;
    push_table(
        &mut out,
        &header_list4("Chain", "Entered", "Skipped", "Fallback"),
        &chain_table_rows(&report.chain_coverage),
    );
    let ghost t5 = markdown_table(
        seq!["Chain"@, "Entered"@, "Skipped"@, "Fallback"@],
        r.chain_coverage.map_values(|x: ChainSummaryView| chain_cells(x)),
    );
    assert(out@ == s5 + t5);
    append_str(&mut out, "\n## Candidate Actions\n\n");
    let ghost s6 = out@;
    push_table(
        &mut out,
        &header_list5("Target", "Action", "Savings", "Evidence", "Reason"),
        &finding_table_rows(&report.findings),
    );
    let ghost t6 = markdown_table(
        seq!["Target"@, "Action"@, "Savings"@, "Evidence"@, "Reason"@],
        first_twenty(r.findings).map_values(|x: FindingView| finding_cells(x)),
    );
    assert(out@ == s6 + t6);
    assert(out@ =~= markdown(r));
    out
}

} // verus!
