//! Accumulating recorded trace events into a token report.
use vstd::prelude::*;

use crate::report::chain_summary_lt_fn;
use crate::report::chain_summary_view_fn;
use crate::report::chain_summary_views;
use crate::report::deferred_lt;
use crate::report::deferred_lt_fn;
use crate::report::deferred_view_fn;
use crate::report::deferred_views;
use crate::report::finding_lt_fn;
use crate::report::finding_view_fn;
use crate::report::finding_views;
use crate::report::row_lt_fn;
use crate::report::row_view_fn;
use crate::report::row_views;
use crate::report::segment_summary_lt_fn;
use crate::report::segment_summary_view_fn;
use crate::report::segment_summary_views;
use crate::report::tool_key;
use crate::report::tool_summary_lt_fn;
use crate::report::tool_summary_view_fn;
use crate::report::tool_summary_views;
use crate::report::ChainCoverageSummary;
use crate::report::ChainSummaryView;
use crate::report::DeferredSearchSummary;
use crate::report::DeferredSearchView;
use crate::report::FindingView;
use crate::report::ReportView;
use crate::report::RowView;
use crate::report::SegmentSummary;
use crate::report::SegmentSummaryView;
use crate::report::TokenWaterfallRow;
use crate::report::ToolSummary;
use crate::report::ToolSummaryView;
use crate::report::TraceAnalysisReport;
use crate::snapshot::EvidenceStrength;
use crate::snapshot::OptimizationAction;
use crate::snapshot::OptimizationFinding;
use crate::sorting::lemma_sort_map;
use crate::sorting::rank_lt;
use crate::sorting::sort_stable_by;
use crate::sorting::stable_sort;
use crate::sorting::Ranked;
use crate::snapshot::chain_views;
use crate::snapshot::opt_view;
use crate::snapshot::segment_views;
use crate::snapshot::tool_views;
use crate::snapshot::ChainCoverageTrace;
use crate::snapshot::ChainStatus;
use crate::snapshot::ChainView;
use crate::snapshot::PromptCriticality;
use crate::snapshot::PromptObservabilitySnapshot;
use crate::snapshot::PromptSegmentTrace;
use crate::snapshot::SegmentView;
use crate::snapshot::ToolExposure;
use crate::snapshot::ToolExposureTrace;
use crate::snapshot::ToolJson;
use crate::snapshot::ToolJsonEntry;
use crate::snapshot::ToolView;
use crate::text::append_str;
use crate::text::opt_str_is;
use crate::text::opt_text_is;
use crate::text::owned;
use crate::text::str_eq;
use crate::text::str_lt;

verus! {

// ---------------------------------------------------------------------------
// Entries keyed by text.
// ---------------------------------------------------------------------------
/// Values that carry a text key.
pub trait Keyed: View {
    /// The key of a value's view.
    spec fn key_of(v: Self::V) -> Seq<char>;

    /// The key, as a string slice.
    fn key(&self) -> (r: &str)
        ensures
            r@ == Self::key_of(self@),
    ;
}

/// The views of a sequence of values.
pub open spec fn views<T: View>(s: Seq<T>) -> Seq<T::V> {
    s.map_values(|x: T| x@)
}

/// The key function of a keyed type.
pub open spec fn key_fn<T: Keyed>() -> spec_fn(T::V) -> Seq<char> {
    |v: T::V| T::key_of(v)
}

/// The index of the entry with key `k` (the last one, should there be more).
pub open spec fn find_key<V>(s: Seq<V>, kf: spec_fn(V) -> Seq<char>, k: Seq<char>) -> Option<int>
    decreases s.len(),
{
    if s.len() == 0 {
        None
    } else if kf(s.last()) == k {
        Some(s.len() - 1)
    } else {
        find_key(s.drop_last(), kf, k)
    }
}

/// No two entries share a key.
pub open spec fn keys_distinct<V>(s: Seq<V>, kf: spec_fn(V) -> Seq<char>) -> bool {
    forall|i: int, j: int| 0 <= i < j < s.len() ==> kf(#[trigger] s[i]) != kf(#[trigger] s[j])
}

/// What `find_key` finds.
pub proof fn lemma_find_key<V>(s: Seq<V>, kf: spec_fn(V) -> Seq<char>, k: Seq<char>)
    ensures
        find_key(s, kf, k) matches Some(i) ==> 0 <= i < s.len() && kf(s[i]) == k,
        find_key(s, kf, k) is None ==> forall|i: int| 0 <= i < s.len() ==> kf(#[trigger] s[i]) != k,
    decreases s.len(),
{
    if s.len() > 0 {
        lemma_find_key(s.drop_last(), kf, k);
        if kf(s.last()) != k {
            assert forall|i: int| 0 <= i < s.len() - 1 implies #[trigger] s[i] == s.drop_last()[i] by {}
        }
    }
}

/// Updating an entry without changing its key keeps keys distinct; so does
/// adding an entry with a new key.
pub proof fn lemma_keys_distinct_update<V>(s: Seq<V>, kf: spec_fn(V) -> Seq<char>, i: int, v: V)
    requires
        keys_distinct(s, kf),
        0 <= i < s.len(),
        kf(v) == kf(s[i]),
    ensures
        keys_distinct(s.update(i, v), kf),
{
    let t = s.update(i, v);
    assert forall|a: int, b: int| 0 <= a < b < t.len() implies kf(#[trigger] t[a]) != kf(
        #[trigger] t[b],
    ) by {
        assert(kf(t[a]) == kf(s[a]) && kf(t[b]) == kf(s[b]));
    }
}

/// Adding an entry with a new key keeps keys distinct.
pub proof fn lemma_keys_distinct_push<V>(s: Seq<V>, kf: spec_fn(V) -> Seq<char>, v: V)
    requires
        keys_distinct(s, kf),
        forall|i: int| 0 <= i < s.len() ==> kf(#[trigger] s[i]) != kf(v),
    ensures
        keys_distinct(s.push(v), kf),
{
    let t = s.push(v);
    assert forall|a: int, b: int| 0 <= a < b < t.len() implies kf(#[trigger] t[a]) != kf(
        #[trigger] t[b],
    ) by {
        if b == s.len() {
            assert(t[a] == s[a]);
        } else {
            assert(t[a] == s[a] && t[b] == s[b]);
        }
    }
}

/// The index of the entry with key `k`, as `find_key` gives it.
pub fn find_entry<T: Keyed>(entries: &Vec<T>, k: &str) -> (r: Option<usize>)
    ensures
        r matches Some(i) ==> find_key(views(entries@), key_fn::<T>(), k@) == Some(i as int),
        r is None ==> find_key(views(entries@), key_fn::<T>(), k@) is None,
{
    let ghost all = views(entries@);
    let mut i = entries.len();
    assert(all.take(i as int) == all);
    while i > 0
        invariant
            i <= entries@.len(),
            all == views(entries@),
            find_key(all, key_fn::<T>(), k@) == find_key(all.take(i as int), key_fn::<T>(), k@),
        decreases i,
    {
        assert(all.take(i as int).last() == entries@[i - 1]@);
        assert(all.take(i as int).drop_last() == all.take(i - 1));
        if str_eq(entries[i - 1].key(), k) {
            return Some(i - 1);
        }
        i -= 1;
    }
    None
}

/// `a + b`, saturating at `usize::MAX`.
pub open spec fn sat_add(a: usize, b: usize) -> usize {
    if a + b <= usize::MAX {
        (a + b) as usize
    } else {
        usize::MAX
    }
}

// ---------------------------------------------------------------------------
// Aggregates.
// ---------------------------------------------------------------------------
/// A prompt segment's totals so far.
#[derive(Debug, Clone)]
pub struct SegmentAggregate {
    pub segment_id: String,
    pub category: String,
    pub criticality: PromptCriticality,
    pub token_count_estimate: usize,
    pub occurrences: usize,
}

/// A segment aggregate as plain values.
pub struct SegmentAggregateView {
    pub segment_id: Seq<char>,
    pub category: Seq<char>,
    pub criticality: PromptCriticality,
    pub token_count_estimate: usize,
    pub occurrences: usize,
}

impl View for SegmentAggregate {
    type V = SegmentAggregateView;

    open spec fn view(&self) -> SegmentAggregateView {
        SegmentAggregateView {
            segment_id: self.segment_id@,
            category: self.category@,
            criticality: self.criticality,
            token_count_estimate: self.token_count_estimate,
            occurrences: self.occurrences,
        }
    }
}

impl Keyed for SegmentAggregate {
    open spec fn key_of(v: SegmentAggregateView) -> Seq<char> {
        v.segment_id
    }

    fn key(&self) -> (r: &str) {
        self.segment_id.as_str()
    }
}

/// A tool's totals so far.
#[derive(Debug, Clone)]
pub struct ToolAggregate {
    pub tool_id: String,
    pub name: String,
    pub namespace: Option<String>,
    pub exposure: ToolExposure,
    pub token_count_estimate: usize,
    pub exposed_count: usize,
}

/// A tool aggregate as plain values.
pub struct ToolAggregateView {
    pub tool_id: Seq<char>,
    pub name: Seq<char>,
    pub namespace: Option<Seq<char>>,
    pub exposure: ToolExposure,
    pub token_count_estimate: usize,
    pub exposed_count: usize,
}

impl View for ToolAggregate {
    type V = ToolAggregateView;

    open spec fn view(&self) -> ToolAggregateView {
        ToolAggregateView {
            tool_id: self.tool_id@,
            name: self.name@,
            namespace: opt_view(self.namespace),
            exposure: self.exposure,
            token_count_estimate: self.token_count_estimate,
            exposed_count: self.exposed_count,
        }
    }
}

impl Keyed for ToolAggregate {
    open spec fn key_of(v: ToolAggregateView) -> Seq<char> {
        v.tool_id
    }

    fn key(&self) -> (r: &str) {
        self.tool_id.as_str()
    }
}

/// A chain's counts so far.
#[derive(Debug, Clone)]
pub struct ChainAggregate {
    pub chain_id: String,
    pub entered: usize,
    pub skipped: usize,
    pub fallback: usize,
}

/// A chain aggregate as plain values.
pub struct ChainAggregateView {
    pub chain_id: Seq<char>,
    pub entered: usize,
    pub skipped: usize,
    pub fallback: usize,
}

impl View for ChainAggregate {
    type V = ChainAggregateView;

    open spec fn view(&self) -> ChainAggregateView {
        ChainAggregateView {
            chain_id: self.chain_id@,
            entered: self.entered,
            skipped: self.skipped,
            fallback: self.fallback,
        }
    }
}

impl Keyed for ChainAggregate {
    open spec fn key_of(v: ChainAggregateView) -> Seq<char> {
        v.chain_id
    }

    fn key(&self) -> (r: &str) {
        self.chain_id.as_str()
    }
}

/// How often tools were called under one key.
#[derive(Debug, Clone)]
pub struct CallCount {
    pub key: String,
    pub count: usize,
}

/// A call count as plain values.
pub struct CallCountView {
    pub key: Seq<char>,
    pub count: usize,
}

impl View for CallCount {
    type V = CallCountView;

    open spec fn view(&self) -> CallCountView {
        CallCountView { key: self.key@, count: self.count }
    }
}

impl Keyed for CallCount {
    open spec fn key_of(v: CallCountView) -> Seq<char> {
        v.key
    }

    fn key(&self) -> (r: &str) {
        self.key.as_str()
    }
}

/// How often tool search returned one tool.
#[derive(Debug, Clone)]
pub struct DeferredSearchAggregate {
    pub key: String,
    pub name: String,
    pub namespace: Option<String>,
    pub search_result_count: usize,
}

/// A search aggregate as plain values.
pub struct DeferredSearchAggregateView {
    pub key: Seq<char>,
    pub name: Seq<char>,
    pub namespace: Option<Seq<char>>,
    pub search_result_count: usize,
}

impl View for DeferredSearchAggregate {
    type V = DeferredSearchAggregateView;

    open spec fn view(&self) -> DeferredSearchAggregateView {
        DeferredSearchAggregateView {
            key: self.key@,
            name: self.name@,
            namespace: opt_view(self.namespace),
            search_result_count: self.search_result_count,
        }
    }
}

impl Keyed for DeferredSearchAggregate {
    open spec fn key_of(v: DeferredSearchAggregateView) -> Seq<char> {
        v.key
    }

    fn key(&self) -> (r: &str) {
        self.key.as_str()
    }
}

// ---------------------------------------------------------------------------
// How recording changes the aggregates.
// ---------------------------------------------------------------------------
/// Adds one segment occurrence under its id.
pub open spec fn add_segment(entries: Seq<SegmentAggregateView>, seg: SegmentView) -> Seq<
    SegmentAggregateView,
> {
    match find_key(entries, key_fn::<SegmentAggregate>(), seg.segment_id) {
        Some(i) => entries.update(
            i,
            SegmentAggregateView {
                segment_id: entries[i].segment_id,
                category: entries[i].category,
                criticality: entries[i].criticality,
                token_count_estimate: sat_add(
                    entries[i].token_count_estimate,
                    seg.token_count_estimate,
                ),
                occurrences: (entries[i].occurrences + 1) as usize,
            },
        ),
        None => entries.push(
            SegmentAggregateView {
                segment_id: seg.segment_id,
                category: seg.category,
                criticality: seg.criticality,
                token_count_estimate: seg.token_count_estimate,
                occurrences: 1,
            },
        ),
    }
}

/// Adds segment occurrences in order.
pub open spec fn add_segments(entries: Seq<SegmentAggregateView>, segs: Seq<SegmentView>) -> Seq<
    SegmentAggregateView,
>
    decreases segs.len(),
{
    if segs.len() == 0 {
        entries
    } else {
        add_segment(add_segments(entries, segs.drop_last()), segs.last())
    }
}

/// Adds one exposure of a tool under its id.
pub open spec fn add_tool(entries: Seq<ToolAggregateView>, tool: ToolView) -> Seq<
    ToolAggregateView,
> {
    match find_key(entries, key_fn::<ToolAggregate>(), tool.tool_id) {
        Some(i) => entries.update(
            i,
            ToolAggregateView {
                tool_id: entries[i].tool_id,
                name: entries[i].name,
                namespace: entries[i].namespace,
                exposure: entries[i].exposure,
                token_count_estimate: sat_add(
                    entries[i].token_count_estimate,
                    tool.token_count_estimate,
                ),
                exposed_count: (entries[i].exposed_count + 1) as usize,
            },
        ),
        None => entries.push(
            ToolAggregateView {
                tool_id: tool.tool_id,
                name: tool.name,
                namespace: tool.namespace,
                exposure: tool.exposure,
                token_count_estimate: tool.token_count_estimate,
                exposed_count: 1,
            },
        ),
    }
}

/// Adds tool exposures in order.
pub open spec fn add_tools(entries: Seq<ToolAggregateView>, tools: Seq<ToolView>) -> Seq<
    ToolAggregateView,
>
    decreases tools.len(),
{
    if tools.len() == 0 {
        entries
    } else {
        add_tool(add_tools(entries, tools.drop_last()), tools.last())
    }
}

/// `c` counted once more under `status`.
pub open spec fn count_status(c: ChainAggregateView, status: ChainStatus) -> ChainAggregateView {
    match status {
        ChainStatus::Entered => ChainAggregateView { entered: (c.entered + 1) as usize, ..c },
        ChainStatus::Skipped => ChainAggregateView { skipped: (c.skipped + 1) as usize, ..c },
        ChainStatus::Fallback => ChainAggregateView { fallback: (c.fallback + 1) as usize, ..c },
    }
}

/// Counts one chain trace under its chain id.
pub open spec fn add_chain(entries: Seq<ChainAggregateView>, chain: ChainView) -> Seq<
    ChainAggregateView,
> {
    match find_key(entries, key_fn::<ChainAggregate>(), chain.chain_id) {
        Some(i) => entries.update(i, count_status(entries[i], chain.status)),
        None => entries.push(
            count_status(
                ChainAggregateView { chain_id: chain.chain_id, entered: 0, skipped: 0, fallback: 0 },
                chain.status,
            ),
        ),
    }
}

/// Counts chain traces in order.
pub open spec fn add_chains(entries: Seq<ChainAggregateView>, chains: Seq<ChainView>) -> Seq<
    ChainAggregateView,
>
    decreases chains.len(),
{
    if chains.len() == 0 {
        entries
    } else {
        add_chain(add_chains(entries, chains.drop_last()), chains.last())
    }
}

// ---------------------------------------------------------------------------
// The accumulator.
// ---------------------------------------------------------------------------
/// Totals gathered from recorded events, before they become a report.
pub struct AnalysisAccumulator {
    snapshots_analyzed: usize,
    segments: Vec<SegmentAggregate>,
    tools: Vec<ToolAggregate>,
    chains: Vec<ChainAggregate>,
    called_tools: Vec<CallCount>,
    deferred_search_results: Vec<DeferredSearchAggregate>,
    /// How many counter increments have been made: a bound on every counter.
    work: Ghost<nat>,
}

/// The accumulator as plain values.
pub struct AccumulatorView {
    pub snapshots_analyzed: usize,
    pub segments: Seq<SegmentAggregateView>,
    pub tools: Seq<ToolAggregateView>,
    pub chains: Seq<ChainAggregateView>,
    pub called_tools: Seq<CallCountView>,
    pub deferred_search_results: Seq<DeferredSearchAggregateView>,
    /// How many counter increments have been made.
    pub work: nat,
}

impl View for AnalysisAccumulator {
    type V = AccumulatorView;

    closed spec fn view(&self) -> AccumulatorView {
        AccumulatorView {
            snapshots_analyzed: self.snapshots_analyzed,
            segments: views(self.segments@),
            tools: views(self.tools@),
            chains: views(self.chains@),
            called_tools: views(self.called_tools@),
            deferred_search_results: views(self.deferred_search_results@),
            work: self.work@,
        }
    }
}

/// Every counter is at most the number of increments made.
pub open spec fn counts_bounded(v: AccumulatorView) -> bool {
    &&& v.snapshots_analyzed <= v.work
    &&& forall|i: int| 0 <= i < v.segments.len() ==> #[trigger] v.segments[i].occurrences <= v.work
    &&& forall|i: int| 0 <= i < v.tools.len() ==> #[trigger] v.tools[i].exposed_count <= v.work
    &&& forall|i: int|
        0 <= i < v.chains.len() ==> #[trigger] v.chains[i].entered <= v.work && v.chains[i].skipped
            <= v.work && v.chains[i].fallback <= v.work
    &&& forall|i: int| 0 <= i < v.called_tools.len() ==> #[trigger] v.called_tools[i].count <= v.work
    &&& forall|i: int|
        0 <= i < v.deferred_search_results.len()
            ==> #[trigger] v.deferred_search_results[i].search_result_count <= v.work
}

/// The accumulator is a set of maps: each key appears once, and every
/// counter is bounded by the increments made.
pub open spec fn accumulator_wf(v: AccumulatorView) -> bool {
    &&& keys_distinct(v.segments, key_fn::<SegmentAggregate>())
    &&& keys_distinct(v.tools, key_fn::<ToolAggregate>())
    &&& keys_distinct(v.chains, key_fn::<ChainAggregate>())
    &&& keys_distinct(v.called_tools, key_fn::<CallCount>())
    &&& keys_distinct(v.deferred_search_results, key_fn::<DeferredSearchAggregate>())
    &&& counts_bounded(v)
}

/// The increments that recording a snapshot makes.
pub open spec fn snapshot_work(snapshot: PromptObservabilitySnapshot) -> nat {
    1 + snapshot.prompt_segments@.len() + snapshot.tools@.len() + snapshot.chains@.len()
}

/// The accumulator after recording a snapshot.
pub open spec fn after_snapshot(v: AccumulatorView, snapshot: PromptObservabilitySnapshot) -> AccumulatorView {
    AccumulatorView {
        snapshots_analyzed: (v.snapshots_analyzed + 1) as usize,
        segments: add_segments(v.segments, segment_views(snapshot.prompt_segments@)),
        tools: add_tools(v.tools, tool_views(snapshot.tools@)),
        chains: add_chains(v.chains, chain_views(snapshot.chains@)),
        work: v.work + snapshot_work(snapshot),
        ..v
    }
}

impl AnalysisAccumulator {
    /// An accumulator that has recorded nothing.
    pub fn new() -> (acc: Self)
        ensures
            accumulator_wf(acc@),
            acc@ == empty_accumulator(),
    {
        let acc = AnalysisAccumulator {
            snapshots_analyzed: 0,
            segments: Vec::new(),
            tools: Vec::new(),
            chains: Vec::new(),
            called_tools: Vec::new(),
            deferred_search_results: Vec::new(),
            work: Ghost(0),
        };
        assert(acc@.segments =~= Seq::<SegmentAggregateView>::empty());
        assert(acc@.tools =~= Seq::<ToolAggregateView>::empty());
        assert(acc@.chains =~= Seq::<ChainAggregateView>::empty());
        assert(acc@.called_tools =~= Seq::<CallCountView>::empty());
        assert(acc@.deferred_search_results =~= Seq::<DeferredSearchAggregateView>::empty());
        acc
    }

    /// Adds one occurrence of a segment.
    fn record_segment(&mut self, segment: &PromptSegmentTrace)
        requires
            accumulator_wf(old(self)@),
            old(self)@.work < usize::MAX,
        ensures
            accumulator_wf(final(self)@),
            final(self)@ == (AccumulatorView {
                segments: add_segment(old(self)@.segments, segment@),
                work: old(self)@.work + 1,
                ..old(self)@
            }),
    {
        let ghost old_view = self@;
        proof {
            lemma_find_key(old_view.segments, key_fn::<SegmentAggregate>(), segment.segment_id@);
        }
        match find_entry(&self.segments, segment.segment_id.as_str()) {
            Some(i) => {
                let e = &self.segments[i];
                let updated = SegmentAggregate {
                    segment_id: e.segment_id.clone(),
                    category: e.category.clone(),
                    criticality: e.criticality,
                    token_count_estimate: e.token_count_estimate.saturating_add(
                        segment.token_count_estimate,
                    ),
                    occurrences: e.occurrences + 1,
                };
                self.segments.set(i, updated);
                proof {
                    lemma_keys_distinct_update(
                        old_view.segments,
                        key_fn::<SegmentAggregate>(),
                        i as int,
                        updated@,
                    );
                }
            },
            None => {
                let added = SegmentAggregate {
                    segment_id: segment.segment_id.clone(),
                    category: segment.category.clone(),
                    criticality: segment.criticality,
                    token_count_estimate: segment.token_count_estimate,
                    occurrences: 1,
                };
                self.segments.push(added);
                proof {
                    lemma_keys_distinct_push(old_view.segments, key_fn::<SegmentAggregate>(), added@);
                }
            },
        }
        proof {
            self.work = Ghost(self.work@ + 1);
        }
        assert(views(self.segments@) =~= add_segment(old_view.segments, segment@));
    }

    /// Adds one exposure of a tool.
    fn record_tool(&mut self, tool: &ToolExposureTrace)
        requires
            accumulator_wf(old(self)@),
            old(self)@.work < usize::MAX,
        ensures
            accumulator_wf(final(self)@),
            final(self)@ == (AccumulatorView {
                tools: add_tool(old(self)@.tools, tool@),
                work: old(self)@.work + 1,
                ..old(self)@
            }),
    {
        let ghost old_view = self@;
        proof {
            lemma_find_key(old_view.tools, key_fn::<ToolAggregate>(), tool.tool_id@);
        }
        match find_entry(&self.tools, tool.tool_id.as_str()) {
            Some(i) => {
                let e = &self.tools[i];
                let updated = ToolAggregate {
                    tool_id: e.tool_id.clone(),
                    name: e.name.clone(),
                    namespace: e.namespace.clone(),
                    exposure: e.exposure,
                    token_count_estimate: e.token_count_estimate.saturating_add(
                        tool.token_count_estimate,
                    ),
                    exposed_count: e.exposed_count + 1,
                };
                self.tools.set(i, updated);
                proof {
                    lemma_keys_distinct_update(
                        old_view.tools,
                        key_fn::<ToolAggregate>(),
                        i as int,
                        updated@,
                    );
                }
            },
            None => {
                let added = ToolAggregate {
                    tool_id: tool.tool_id.clone(),
                    name: tool.name.clone(),
                    namespace: tool.namespace.clone(),
                    exposure: tool.exposure,
                    token_count_estimate: tool.token_count_estimate,
                    exposed_count: 1,
                };
                self.tools.push(added);
                proof {
                    lemma_keys_distinct_push(old_view.tools, key_fn::<ToolAggregate>(), added@);
                }
            },
        }
        proof {
            self.work = Ghost(self.work@ + 1);
        }
        assert(views(self.tools@) =~= add_tool(old_view.tools, tool@));
    }

    /// Counts one chain trace.
    fn record_chain(&mut self, chain: &ChainCoverageTrace)
        requires
            accumulator_wf(old(self)@),
            old(self)@.work < usize::MAX,
        ensures
            accumulator_wf(final(self)@),
            final(self)@ == (AccumulatorView {
                chains: add_chain(old(self)@.chains, chain@),
                work: old(self)@.work + 1,
                ..old(self)@
            }),
    {
        let ghost old_view = self@;
        proof {
            lemma_find_key(old_view.chains, key_fn::<ChainAggregate>(), chain.chain_id@);
        }
        let (base, index) = match find_entry(&self.chains, chain.chain_id.as_str()) {
            Some(i) => {
                let e = &self.chains[i];
                (
                    ChainAggregate {
                        chain_id: e.chain_id.clone(),
                        entered: e.entered,
                        skipped: e.skipped,
                        fallback: e.fallback,
                    },
                    Some(i),
                )
            },
            None => (
                ChainAggregate {
                    chain_id: chain.chain_id.clone(),
                    entered: 0,
                    skipped: 0,
                    fallback: 0,
                },
                None,
            ),
        };
        let updated = match chain.status {
            ChainStatus::Entered => ChainAggregate { entered: base.entered + 1, ..base },
            ChainStatus::Skipped => ChainAggregate { skipped: base.skipped + 1, ..base },
            ChainStatus::Fallback => ChainAggregate { fallback: base.fallback + 1, ..base },
        };
        match index {
            Some(i) => {
                self.chains.set(i, updated);
                proof {
                    lemma_keys_distinct_update(
                        old_view.chains,
                        key_fn::<ChainAggregate>(),
                        i as int,
                        updated@,
                    );
                }
            },
            None => {
                self.chains.push(updated);
                proof {
                    lemma_keys_distinct_push(old_view.chains, key_fn::<ChainAggregate>(), updated@);
                }
            },
        }
        proof {
            self.work = Ghost(self.work@ + 1);
        }
        assert(views(self.chains@) =~= add_chain(old_view.chains, chain@));
    }

    /// Records one snapshot: counts it, and adds its segments, tools and
    /// chains under their identifiers.
    pub fn record_snapshot(&mut self, snapshot: PromptObservabilitySnapshot)
        requires
            accumulator_wf(old(self)@),
            old(self)@.work + snapshot_work(snapshot) <= usize::MAX,
        ensures
            accumulator_wf(final(self)@),
            final(self)@ == after_snapshot(old(self)@, snapshot),
    {
        self.record_snapshot_ref(&snapshot);
    }

    fn record_snapshot_ref(&mut self, snapshot: &PromptObservabilitySnapshot)
        requires
            accumulator_wf(old(self)@),
            old(self)@.work + snapshot_work(*snapshot) <= usize::MAX,
        ensures
            accumulator_wf(final(self)@),
            final(self)@ == after_snapshot(old(self)@, *snapshot),
    {
        let ghost old_view = self@;
        self.snapshots_analyzed = self.snapshots_analyzed + 1;
        proof {
            self.work = Ghost(self.work@ + 1);
        }
        let segments = &snapshot.prompt_segments;
        let mut i: usize = 0;
        while i < segments.len()
            invariant
                i <= segments@.len(),
                segments == &snapshot.prompt_segments,
                accumulator_wf(self@),
                self@.work == old_view.work + 1 + i,
                old_view.work + snapshot_work(*snapshot) <= usize::MAX,
                self@ == (AccumulatorView {
                    snapshots_analyzed: (old_view.snapshots_analyzed + 1) as usize,
                    segments: add_segments(old_view.segments, segment_views(segments@.take(i as int))),
                    work: self@.work,
                    ..old_view
                }),
            decreases segments.len() - i,
        {
            self.record_segment(&segments[i]);
            assert(segment_views(segments@.take(i + 1)).drop_last() =~= segment_views(segments@.take(i as int)));
            i += 1;
        }
        assert(segments@.take(segments@.len() as int) == segments@);
        let ghost mid = self@;
        let tools = &snapshot.tools;
        let mut i: usize = 0;
        while i < tools.len()
            invariant
                i <= tools@.len(),
                tools == &snapshot.tools,
                accumulator_wf(self@),
                self@.work == mid.work + i,
                mid.work == old_view.work + 1 + snapshot.prompt_segments@.len(),
                old_view.work + snapshot_work(*snapshot) <= usize::MAX,
                self@ == (AccumulatorView {
                    tools: add_tools(mid.tools, tool_views(tools@.take(i as int))),
                    work: self@.work,
                    ..mid
                }),
            decreases tools.len() - i,
        {
            self.record_tool(&tools[i]);
            assert(tool_views(tools@.take(i + 1)).drop_last() =~= tool_views(tools@.take(i as int)));
            i += 1;
        }
        assert(tools@.take(tools@.len() as int) == tools@);
        let ghost mid2 = self@;
        let chains = &snapshot.chains;
        let mut i: usize = 0;
        while i < chains.len()
            invariant
                i <= chains@.len(),
                chains == &snapshot.chains,
                accumulator_wf(self@),
                self@.work == mid2.work + i,
                mid2.work == old_view.work + 1 + snapshot.prompt_segments@.len() + snapshot.tools@.len(),
                old_view.work + snapshot_work(*snapshot) <= usize::MAX,
                self@ == (AccumulatorView {
                    chains: add_chains(mid2.chains, chain_views(chains@.take(i as int))),
                    work: self@.work,
                    ..mid2
                }),
            decreases chains.len() - i,
        {
            self.record_chain(&chains[i]);
            assert(chain_views(chains@.take(i + 1)).drop_last() =~= chain_views(chains@.take(i as int)));
            i += 1;
        }
        assert(chains@.take(chains@.len() as int) == chains@);
    }
}


// ---------------------------------------------------------------------------
// Tool calls.
// ---------------------------------------------------------------------------
/// One more call counted under key `k`.
pub open spec fn bump(entries: Seq<CallCountView>, k: Seq<char>) -> Seq<CallCountView> {
    match find_key(entries, key_fn::<CallCount>(), k) {
        Some(i) => entries.update(
            i,
            CallCountView { key: entries[i].key, count: (entries[i].count + 1) as usize },
        ),
        None => entries.push(CallCountView { key: k, count: 1 }),
    }
}

/// One more call counted under each of `keys`, in order.
pub open spec fn bump_all(entries: Seq<CallCountView>, keys: Seq<Seq<char>>) -> Seq<CallCountView>
    decreases keys.len(),
{
    if keys.len() == 0 {
        entries
    } else {
        bump(bump_all(entries, keys.drop_last()), keys.last())
    }
}

/// `s` without repeats, first occurrences kept.
pub open spec fn dedup(s: Seq<Seq<char>>) -> Seq<Seq<char>>
    decreases s.len(),
{
    if s.len() == 0 {
        s
    } else {
        let d = dedup(s.drop_last());
        if d.contains(s.last()) {
            d
        } else {
            d.push(s.last())
        }
    }
}

/// The keys under which a call of `name` in `namespace` is counted: the tool
/// key, the bare name, and for a namespace also `namespace.name` and
/// `namespacename`.
pub open spec fn call_keys(namespace: Option<Seq<char>>, name: Seq<char>) -> Seq<Seq<char>> {
    let base = seq![tool_key(namespace, name), name];
    match namespace {
        Some(n) => base + seq![n + "."@ + name, n + name],
        None => base,
    }
}

/// The accumulator after counting one call of `name` in `namespace`: each
/// distinct key of the call is counted once.
pub open spec fn call_recorded(
    v: AccumulatorView,
    namespace: Option<Seq<char>>,
    name: Seq<char>,
) -> AccumulatorView {
    AccumulatorView {
        called_tools: bump_all(v.called_tools, dedup(call_keys(namespace, name))),
        work: v.work + 1,
        ..v
    }
}

/// What an invocation payload of a tool call says about the call.
#[derive(Debug, Clone, PartialEq, Eq)]
pub struct ToolInvocationJson {
    /// The `tool_name` field when it is a string.
    pub tool_name: Option<String>,
    /// The `tool_namespace` field when it is a string.
    pub tool_namespace: Option<String>,
    /// The `type` field of the `payload` object when it is a string.
    pub payload_type: Option<String>,
}

/// The accumulator after recording an invocation payload.
pub open spec fn after_invocation(v: AccumulatorView, invocation: ToolInvocationJson) -> AccumulatorView {
    let named = match invocation.tool_name {
        Some(n) => call_recorded(v, opt_view(invocation.tool_namespace), n@),
        None => v,
    };
    if opt_text_is(invocation.payload_type, "tool_search"@) {
        call_recorded(named, None, "tool_search"@)
    } else {
        named
    }
}

/// The kind of a tool call that was started without an invocation payload.
#[derive(Debug, Clone, PartialEq, Eq)]
pub enum ToolCallKind {
    ExecCommand,
    WriteStdin,
    ApplyPatch,
    Mcp { server: String, tool: String },
    Web,
    ImageGeneration,
    SpawnAgent,
    AssignAgentTask,
    SendMessage,
    WaitAgent,
    CloseAgent,
    Other { name: String },
    Unknown,
}

/// The accumulator after recording a tool call known only by its kind.
pub open spec fn after_kind(v: AccumulatorView, kind: ToolCallKind) -> AccumulatorView {
    match kind {
        ToolCallKind::ExecCommand => call_recorded(v, None, "local_shell"@),
        ToolCallKind::WriteStdin => call_recorded(v, None, "write_stdin"@),
        ToolCallKind::ApplyPatch => call_recorded(v, None, "apply_patch"@),
        ToolCallKind::Mcp { server, tool } => call_recorded(
            call_recorded(v, Some(server@), tool@),
            None,
            tool@,
        ),
        ToolCallKind::Web => call_recorded(v, None, "web_search"@),
        ToolCallKind::ImageGeneration => call_recorded(v, None, "image_generation"@),
        ToolCallKind::SpawnAgent => call_recorded(v, None, "spawn_agent"@),
        ToolCallKind::AssignAgentTask => call_recorded(v, None, "assign_agent_task"@),
        ToolCallKind::SendMessage => call_recorded(v, None, "send_message"@),
        ToolCallKind::WaitAgent => call_recorded(v, None, "wait_agent"@),
        ToolCallKind::CloseAgent => call_recorded(v, None, "close_agent"@),
        ToolCallKind::Other { name } => call_recorded(v, None, name@),
        ToolCallKind::Unknown => v,
    }
}

/// `namespace/name`, or the bare name.
pub fn tool_key_string(namespace: Option<&str>, name: &str) -> (r: String)
    ensures
        r@ == tool_key(crate::snapshot::opt_str_view(namespace), name@),
{
    match namespace {
        Some(n) => {
            let mut k = owned(n);
            append_str(&mut k, "/");
            append_str(&mut k, name);
            k
        },
        None => owned(name),
    }
}

/// Whether `keys` holds `k`.
fn contains_key(keys: &Vec<String>, k: &str) -> (r: bool)
    ensures
        r == views(keys@).contains(k@),
{
    let mut i: usize = 0;
    while i < keys.len()
        invariant
            i <= keys@.len(),
            forall|j: int| 0 <= j < i ==> keys@[j]@ != k@,
        decreases keys.len() - i,
    {
        if str_eq(keys[i].as_str(), k) {
            assert(views(keys@)[i as int] == k@);
            return true;
        }
        i += 1;
    }
    assert(!views(keys@).contains(k@)) by {
        if views(keys@).contains(k@) {
            let j = choose|j: int| 0 <= j < views(keys@).len() && views(keys@)[j] == k@;
            assert(keys@[j]@ == k@);
        }
    }
    false
}

proof fn lemma_push_contains(s: Seq<Seq<char>>, a: Seq<char>, x: Seq<char>)
    ensures
        s.push(a).contains(x) <==> (s.contains(x) || x == a),
{
    if s.push(a).contains(x) && x != a {
        let j = choose|j: int| 0 <= j < s.push(a).len() && s.push(a)[j] == x;
        assert(s[j] == x);
    }
    if s.contains(x) {
        let j = choose|j: int| 0 <= j < s.len() && s[j] == x;
        assert(s.push(a)[j] == x);
    }
    if x == a {
        assert(s.push(a)[s.len() as int] == a);
    }
}

/// `dedup` drops repeats and nothing else.
pub proof fn lemma_dedup_distinct(s: Seq<Seq<char>>)
    ensures
        dedup(s).no_duplicates(),
        forall|x: Seq<char>| dedup(s).contains(x) <==> s.contains(x),
    decreases s.len(),
{
    if s.len() > 0 {
        lemma_dedup_distinct(s.drop_last());
        let d = dedup(s.drop_last());
        assert(s == s.drop_last().push(s.last()));
        assert forall|x: Seq<char>| dedup(s).contains(x) <==> s.contains(x) by {
            lemma_push_contains(s.drop_last(), s.last(), x);
            lemma_push_contains(d, s.last(), x);
        }
    }
}

impl AnalysisAccumulator {
    /// Counts one call under key `k`; the key must not have been counted in
    /// this round yet.
    fn bump_key(&mut self, k: &str, Ghost(round): Ghost<Seq<Seq<char>>>)
        requires
            keys_distinct(old(self)@.called_tools, key_fn::<CallCount>()),
            !round.contains(k@),
            forall|i: int|
                0 <= i < old(self)@.called_tools.len() ==> #[trigger] old(self)@.called_tools[i].count
                    <= old(self)@.work + (if round.contains(old(self)@.called_tools[i].key) {
                    1int
                } else {
                    0
                }),
            old(self)@.work < usize::MAX,
        ensures
            keys_distinct(final(self)@.called_tools, key_fn::<CallCount>()),
            forall|i: int|
                0 <= i < final(self)@.called_tools.len() ==> #[trigger] final(self)@.called_tools[i].count
                    <= old(self)@.work + (if round.push(k@).contains(final(self)@.called_tools[i].key) {
                    1int
                } else {
                    0
                }),
            final(self)@ == (AccumulatorView {
                called_tools: bump(old(self)@.called_tools, k@),
                ..old(self)@
            }),
    {
        let ghost old_view = self@;
        proof {
            lemma_find_key(old_view.called_tools, key_fn::<CallCount>(), k@);
        }
        match find_entry(&self.called_tools, k) {
            Some(i) => {
                let e = &self.called_tools[i];
                assert(e.count <= old_view.work);
                let updated = CallCount { key: e.key.clone(), count: e.count + 1 };
                self.called_tools.set(i, updated);
                proof {
                    lemma_keys_distinct_update(
                        old_view.called_tools,
                        key_fn::<CallCount>(),
                        i as int,
                        updated@,
                    );
                }
            },
            None => {
                let added = CallCount { key: owned(k), count: 1 };
                self.called_tools.push(added);
                proof {
                    lemma_keys_distinct_push(old_view.called_tools, key_fn::<CallCount>(), added@);
                }
            },
        }
        assert(views(self.called_tools@) =~= bump(old_view.called_tools, k@));
        assert forall|i: int| 0 <= i < self@.called_tools.len() implies #[trigger] self@.called_tools[i].count
            <= old_view.work + (if round.push(k@).contains(self@.called_tools[i].key) {
            1int
        } else {
            0
        }) by {
            let key = self@.called_tools[i].key;
            if key == k@ {
                assert(round.push(k@).contains(k@)) by {
                    assert(round.push(k@)[round.len() as int] == k@);
                }
            } else {
                if round.contains(key) {
                    let j = choose|j: int| 0 <= j < round.len() && round[j] == key;
                    assert(round.push(k@)[j] == key);
                }
            }
        }
    }

    /// Counts one call of `name` in `namespace` under each of its keys.
    fn record_called_tool(&mut self, namespace: Option<&str>, name: &str)
        requires
            accumulator_wf(old(self)@),
            old(self)@.work < usize::MAX,
        ensures
            accumulator_wf(final(self)@),
            final(self)@ == call_recorded(
                old(self)@,
                crate::snapshot::opt_str_view(namespace),
                name@,
            ),
    {
        let ghost old_view = self@;
        let ghost ns = crate::snapshot::opt_str_view(namespace);
        let mut candidates: Vec<String> = Vec::new();
        candidates.push(tool_key_string(namespace, name));
        candidates.push(owned(name));
        match namespace {
            Some(n) => {
                let mut dotted = owned(n);
                append_str(&mut dotted, ".");
                append_str(&mut dotted, name);
                candidates.push(dotted);
                let mut joined = owned(n);
                append_str(&mut joined, name);
                candidates.push(joined);
            },
            None => {},
        }
        assert(views(candidates@) =~= call_keys(ns, name@));
        let mut keys: Vec<String> = Vec::new();
        let mut i: usize = 0;
        while i < candidates.len()
            invariant
                i <= candidates@.len(),
                views(candidates@) == call_keys(ns, name@),
                views(keys@) == dedup(views(candidates@).take(i as int)),
            decreases candidates.len() - i,
        {
            assert(views(candidates@).take(i + 1).drop_last() == views(candidates@).take(i as int));
            if !contains_key(&keys, candidates[i].as_str()) {
                keys.push(candidates[i].clone());
                assert(views(keys@) =~= dedup(views(candidates@).take(i as int)).push(
                    candidates@[i as int]@,
                ));
            }
            i += 1;
        }
        assert(views(candidates@).take(candidates@.len() as int) == views(candidates@));
        let ghost all_keys = views(keys@);
        proof {
            lemma_dedup_distinct(call_keys(ns, name@));
        }
        let mut j: usize = 0;
        while j < keys.len()
            invariant
                j <= keys@.len(),
                all_keys == views(keys@),
                all_keys == dedup(call_keys(ns, name@)),
                all_keys.no_duplicates(),
                old_view.work < usize::MAX,
                self@ == (AccumulatorView {
                    called_tools: bump_all(old_view.called_tools, all_keys.take(j as int)),
                    ..old_view
                }),
                keys_distinct(self@.called_tools, key_fn::<CallCount>()),
                forall|m: int|
                    0 <= m < self@.called_tools.len() ==> #[trigger] self@.called_tools[m].count
                        <= old_view.work + (if all_keys.take(j as int).contains(
                        self@.called_tools[m].key,
                    ) {
                        1int
                    } else {
                        0
                    }),
            decreases keys.len() - j,
        {
            assert(!all_keys.take(j as int).contains(all_keys[j as int])) by {
                if all_keys.take(j as int).contains(all_keys[j as int]) {
                    let m = choose|m: int| 0 <= m < j && all_keys.take(j as int)[m] == all_keys[j as int];
                    assert(all_keys[m] == all_keys[j as int]);
                }
            }
            self.bump_key(keys[j].as_str(), Ghost(all_keys.take(j as int)));
            assert(all_keys.take(j + 1) =~= all_keys.take(j as int).push(all_keys[j as int]));
            assert(all_keys.take(j + 1).drop_last() =~= all_keys.take(j as int));
            j += 1;
        }
        assert(all_keys.take(keys@.len() as int) == all_keys);
        proof {
            self.work = Ghost(self.work@ + 1);
        }
    }

    /// Records the invocation payload of a started tool call.
    fn record_tool_invocation(&mut self, invocation: &ToolInvocationJson)
        requires
            accumulator_wf(old(self)@),
            old(self)@.work + 2 <= usize::MAX,
        ensures
            accumulator_wf(final(self)@),
            final(self)@ == after_invocation(old(self)@, *invocation),
            final(self)@.work <= old(self)@.work + 2,
    {
        match &invocation.tool_name {
            Some(name) => {
                let namespace = match &invocation.tool_namespace {
                    Some(n) => Some(n.as_str()),
                    None => None,
                };
                self.record_called_tool(namespace, name.as_str());
            },
            None => {},
        }
        if opt_str_is(&invocation.payload_type, "tool_search") {
            self.record_called_tool(None, "tool_search");
        }
    }

    /// Records a started tool call known only by its kind.
    fn record_tool_kind(&mut self, kind: &ToolCallKind)
        requires
            accumulator_wf(old(self)@),
            old(self)@.work + 2 <= usize::MAX,
        ensures
            accumulator_wf(final(self)@),
            final(self)@ == after_kind(old(self)@, *kind),
            final(self)@.work <= old(self)@.work + 2,
    {
        match kind {
            ToolCallKind::ExecCommand => self.record_called_tool(None, "local_shell"),
            ToolCallKind::WriteStdin => self.record_called_tool(None, "write_stdin"),
            ToolCallKind::ApplyPatch => self.record_called_tool(None, "apply_patch"),
            ToolCallKind::Mcp { server, tool } => {
                self.record_called_tool(Some(server.as_str()), tool.as_str());
                self.record_called_tool(None, tool.as_str());
            },
            ToolCallKind::Web => self.record_called_tool(None, "web_search"),
            ToolCallKind::ImageGeneration => self.record_called_tool(None, "image_generation"),
            ToolCallKind::SpawnAgent => self.record_called_tool(None, "spawn_agent"),
            ToolCallKind::AssignAgentTask => self.record_called_tool(None, "assign_agent_task"),
            ToolCallKind::SendMessage => self.record_called_tool(None, "send_message"),
            ToolCallKind::WaitAgent => self.record_called_tool(None, "wait_agent"),
            ToolCallKind::CloseAgent => self.record_called_tool(None, "close_agent"),
            ToolCallKind::Other { name } => self.record_called_tool(None, name.as_str()),
            ToolCallKind::Unknown => {},
        }
    }
}


// ---------------------------------------------------------------------------
// From totals to the report.
// ---------------------------------------------------------------------------
/// How strongly the analyzed traces show that segments of a category matter.
pub open spec fn segment_evidence(category: Seq<char>, any_tools_called: bool) -> EvidenceStrength {
    if category == "tool_result"@ {
        EvidenceStrength::Strong
    } else if category == "tools"@ || category == "capabilities"@ {
        if any_tools_called {
            EvidenceStrength::Medium
        } else {
            EvidenceStrength::Weak
        }
    } else if category == "output_format"@ {
        EvidenceStrength::Medium
    } else if category == "user_input"@ || category == "project_instructions"@ || category
        == "runtime_context"@ {
        EvidenceStrength::Weak
    } else if category == "permissions"@ || category == "base_instructions"@ || category
        == "developer_instructions"@ {
        EvidenceStrength::Weak
    } else {
        EvidenceStrength::NoEvidence
    }
}

fn segment_evidence_of(category: &str, any_tools_called: bool) -> (r: EvidenceStrength)
    ensures
        r == segment_evidence(category@, any_tools_called),
{
    if str_eq(category, "tool_result") {
        EvidenceStrength::Strong
    } else if str_eq(category, "tools") || str_eq(category, "capabilities") {
        if any_tools_called {
            EvidenceStrength::Medium
        } else {
            EvidenceStrength::Weak
        }
    } else if str_eq(category, "output_format") {
        EvidenceStrength::Medium
    } else if str_eq(category, "user_input") || str_eq(category, "project_instructions")
        || str_eq(category, "runtime_context") {
        EvidenceStrength::Weak
    } else if str_eq(category, "permissions") || str_eq(category, "base_instructions") || str_eq(
        category,
        "developer_instructions",
    ) {
        EvidenceStrength::Weak
    } else {
        EvidenceStrength::NoEvidence
    }
}

/// The calls counted under key `k`.
pub open spec fn lookup_count(calls: Seq<CallCountView>, k: Seq<char>) -> usize {
    match find_key(calls, key_fn::<CallCount>(), k) {
        Some(i) => calls[i].count,
        None => 0,
    }
}

/// The larger of two counts.
pub open spec fn max_count(a: usize, b: usize) -> usize {
    if a >= b {
        a
    } else {
        b
    }
}

/// How often a tool was called: the largest count under the tool key, the bare
/// name, `namespace.name` and `namespacename` (the last two are the empty key
/// without a namespace).
pub open spec fn called_count_for(
    calls: Seq<CallCountView>,
    namespace: Option<Seq<char>>,
    name: Seq<char>,
) -> usize {
    let dotted = match namespace {
        Some(n) => n + "."@ + name,
        None => Seq::empty(),
    };
    let joined = match namespace {
        Some(n) => n + name,
        None => Seq::empty(),
    };
    max_count(
        max_count(lookup_count(calls, tool_key(namespace, name)), lookup_count(calls, name)),
        max_count(lookup_count(calls, dotted), lookup_count(calls, joined)),
    )
}

/// The display name of a tool: `namespace.name`, or the bare name.
pub open spec fn display_tool_name(namespace: Option<Seq<char>>, name: Seq<char>) -> Seq<char> {
    match namespace {
        Some(n) => n + "."@ + name,
        None => name,
    }
}

/// The summary of a segment aggregate.
pub open spec fn segment_summary_of(e: SegmentAggregateView, any_tools_called: bool) -> SegmentSummaryView {
    SegmentSummaryView {
        segment_id: e.segment_id,
        category: e.category,
        criticality: e.criticality,
        token_count_estimate: e.token_count_estimate,
        occurrences: e.occurrences,
        evidence: segment_evidence(e.category, any_tools_called),
    }
}

/// The summary of a tool aggregate.
pub open spec fn tool_summary_of(e: ToolAggregateView, calls: Seq<CallCountView>) -> ToolSummaryView {
    ToolSummaryView {
        tool_id: e.tool_id,
        name: e.name,
        namespace: e.namespace,
        exposure: e.exposure,
        token_count_estimate: e.token_count_estimate,
        exposed_count: e.exposed_count,
        called_count: called_count_for(calls, e.namespace, e.name),
    }
}

/// A segment with little behavioral evidence that is not critical and costs
/// at least 64 tokens.
pub open spec fn is_low_evidence(s: SegmentSummaryView) -> bool {
    &&& (s.evidence == EvidenceStrength::NoEvidence || s.evidence == EvidenceStrength::Weak)
    &&& (s.criticality == PromptCriticality::Medium || s.criticality == PromptCriticality::Low)
    &&& s.token_count_estimate >= 64
}

/// `is_low_evidence` as a function value.
pub open spec fn low_evidence_fn() -> spec_fn(SegmentSummaryView) -> bool {
    |s: SegmentSummaryView| is_low_evidence(s)
}

/// A tool that was never called.
pub open spec fn never_called_fn() -> spec_fn(ToolSummaryView) -> bool {
    |t: ToolSummaryView| t.called_count == 0
}

/// The waterfall row of a segment summary.
pub open spec fn segment_row(s: SegmentSummaryView) -> RowView {
    RowView {
        id: s.segment_id,
        label: s.segment_id,
        category: s.category,
        token_count_estimate: s.token_count_estimate,
        occurrences: s.occurrences,
    }
}

/// The waterfall row of a tool summary.
pub open spec fn tool_row(t: ToolSummaryView) -> RowView {
    RowView {
        id: t.tool_id,
        label: display_tool_name(t.namespace, t.name),
        category: "tool_schema"@,
        token_count_estimate: t.token_count_estimate,
        occurrences: t.exposed_count,
    }
}

/// The finding a segment summary gives, if any: expensive critical segments
/// are to be compressed; low-evidence ones compressed, or deleted if of low
/// criticality.
pub open spec fn segment_finding(s: SegmentSummaryView) -> Seq<FindingView> {
    if (s.criticality == PromptCriticality::Critical || s.criticality == PromptCriticality::High)
        && s.token_count_estimate >= 500 {
        seq![
            FindingView {
                target_id: s.segment_id,
                target_kind: "prompt_segment"@,
                action: OptimizationAction::Compress,
                evidence: s.evidence,
                reason: "High-criticality prompt segment is expensive; report compression only."@,
                token_savings_estimate: (s.token_count_estimate / 3) as usize,
            },
        ]
    } else if is_low_evidence(s) {
        seq![
            FindingView {
                target_id: s.segment_id,
                target_kind: "prompt_segment"@,
                action: if s.criticality == PromptCriticality::Low {
                    OptimizationAction::DeleteCandidate
                } else {
                    OptimizationAction::Compress
                },
                evidence: s.evidence,
                reason: "Segment has low behavioral evidence in analyzed traces."@,
                token_savings_estimate: (s.token_count_estimate / 2) as usize,
            },
        ]
    } else {
        Seq::empty()
    }
}

/// The finding a tool summary gives, if any: a tool that costs tokens and was
/// never called.
pub open spec fn tool_finding(t: ToolSummaryView) -> Seq<FindingView> {
    if t.called_count == 0 && t.token_count_estimate > 0 {
        seq![
            FindingView {
                target_id: t.tool_id,
                target_kind: "tool_schema"@,
                action: match t.exposure {
                    ToolExposure::Direct => OptimizationAction::LazyLoad,
                    ToolExposure::Deferred => OptimizationAction::Keep,
                    ToolExposure::Hosted => OptimizationAction::RouteConditionally,
                    ToolExposure::Search => OptimizationAction::RouteConditionally,
                },
                evidence: EvidenceStrength::Strong,
                reason: "Tool schema was exposed but no matching dispatch was observed."@,
                token_savings_estimate: t.token_count_estimate,
            },
        ]
    } else {
        Seq::empty()
    }
}

/// The findings of segment summaries, in order.
pub open spec fn segment_findings(segs: Seq<SegmentSummaryView>) -> Seq<FindingView>
    decreases segs.len(),
{
    if segs.len() == 0 {
        Seq::empty()
    } else {
        segment_findings(segs.drop_last()) + segment_finding(segs.last())
    }
}

/// The findings of tool summaries, in order.
pub open spec fn tool_findings(tools: Seq<ToolSummaryView>) -> Seq<FindingView>
    decreases tools.len(),
{
    if tools.len() == 0 {
        Seq::empty()
    } else {
        tool_findings(tools.drop_last()) + tool_finding(tools.last())
    }
}

/// The waterfall of summaries: a row per segment and per tool, by token count.
pub open spec fn waterfall_of(segs: Seq<SegmentSummaryView>, tools: Seq<ToolSummaryView>) -> Seq<
    RowView,
> {
    sort_stable_by(
        segs.map_values(|s: SegmentSummaryView| segment_row(s)) + tools.map_values(
            |t: ToolSummaryView| tool_row(t),
        ),
        row_lt_fn(),
    )
}

/// The findings of summaries, by savings.
pub open spec fn findings_of(segs: Seq<SegmentSummaryView>, tools: Seq<ToolSummaryView>) -> Seq<
    FindingView,
> {
    sort_stable_by(segment_findings(segs) + tool_findings(tools), finding_lt_fn())
}

/// The sorted segment summaries of an accumulator.
pub open spec fn sorted_segment_summaries(v: AccumulatorView) -> Seq<SegmentSummaryView> {
    let any_tools_called = v.called_tools.len() > 0;
    sort_stable_by(
        v.segments.map_values(|e: SegmentAggregateView| segment_summary_of(e, any_tools_called)),
        segment_summary_lt_fn(),
    )
}

/// The sorted tool summaries of an accumulator.
pub open spec fn sorted_tool_summaries(v: AccumulatorView) -> Seq<ToolSummaryView> {
    sort_stable_by(
        v.tools.map_values(|e: ToolAggregateView| tool_summary_of(e, v.called_tools)),
        tool_summary_lt_fn(),
    )
}

/// The report of an accumulator: segments and tools by token cost (largest
/// first, ties by id), the waterfall of both, low-evidence segments,
/// never-called tools, searched tools by result count, chains by id, and the
/// findings by savings.
pub open spec fn report_of(v: AccumulatorView, bundles_analyzed: usize) -> ReportView {
    let segs = sorted_segment_summaries(v);
    let tools = sorted_tool_summaries(v);
    ReportView {
        bundles_analyzed,
        snapshots_analyzed: v.snapshots_analyzed,
        token_waterfall: waterfall_of(segs, tools),
        top_token_heavy_segments: segs,
        low_evidence_segments: segs.filter(low_evidence_fn()),
        exposed_but_never_called_tools: tools.filter(never_called_fn()),
        deferred_but_searched_tools: sort_stable_by(
            v.deferred_search_results.map_values(
                |e: DeferredSearchAggregateView|
                    DeferredSearchView {
                        name: e.name,
                        namespace: e.namespace,
                        search_result_count: e.search_result_count,
                    },
            ),
            deferred_lt_fn(),
        ),
        chain_coverage: sort_stable_by(
            v.chains.map_values(
                |e: ChainAggregateView|
                    ChainSummaryView {
                        chain_id: e.chain_id,
                        entered: e.entered,
                        skipped: e.skipped,
                        fallback: e.fallback,
                    },
            ),
            chain_summary_lt_fn(),
        ),
        findings: findings_of(segs, tools),
    }
}

impl Ranked for DeferredSearchSummary {
    open spec fn comes_before(a: Self, b: Self) -> bool {
        deferred_lt(a@, b@)
    }

    fn before(&self, other: &Self) -> (r: bool) {
        if self.search_result_count != other.search_result_count {
            return self.search_result_count > other.search_result_count;
        }
        if str_lt(self.name.as_str(), other.name.as_str()) {
            return true;
        }
        if !str_eq(self.name.as_str(), other.name.as_str()) {
            return false;
        }
        let a = tool_key_string(opt_as_str(&self.namespace), self.name.as_str());
        let b = tool_key_string(opt_as_str(&other.namespace), other.name.as_str());
        str_lt(a.as_str(), b.as_str())
    }
}

/// An optional string as an optional slice.
pub fn opt_as_str(o: &Option<String>) -> (r: Option<&str>)
    ensures
        crate::snapshot::opt_str_view(r) == opt_view(*o),
{
    match o {
        Some(s) => Some(s.as_str()),
        None => None,
    }
}

fn copy_segment_summary(s: &SegmentSummary) -> (r: SegmentSummary)
    ensures
        r@ == s@,
{
    SegmentSummary {
        segment_id: s.segment_id.clone(),
        category: s.category.clone(),
        criticality: s.criticality,
        token_count_estimate: s.token_count_estimate,
        occurrences: s.occurrences,
        evidence: s.evidence,
    }
}

fn copy_tool_summary(t: &ToolSummary) -> (r: ToolSummary)
    ensures
        r@ == t@,
{
    ToolSummary {
        tool_id: t.tool_id.clone(),
        name: t.name.clone(),
        namespace: t.namespace.clone(),
        exposure: t.exposure,
        token_count_estimate: t.token_count_estimate,
        exposed_count: t.exposed_count,
        called_count: t.called_count,
    }
}

fn lookup_count_of(calls: &Vec<CallCount>, k: &str) -> (r: usize)
    ensures
        r == lookup_count(views(calls@), k@),
{
    proof {
        lemma_find_key(views(calls@), key_fn::<CallCount>(), k@);
    }
    match find_entry(calls, k) {
        Some(i) => calls[i].count,
        None => 0,
    }
}

fn called_count_of(calls: &Vec<CallCount>, namespace: Option<&str>, name: &str) -> (r: usize)
    ensures
        r == called_count_for(views(calls@), crate::snapshot::opt_str_view(namespace), name@),
{
    let k1 = tool_key_string(namespace, name);
    let (dotted, joined) = match namespace {
        Some(n) => {
            let mut d = owned(n);
            append_str(&mut d, ".");
            append_str(&mut d, name);
            let mut j = owned(n);
            append_str(&mut j, name);
            (d, j)
        },
        None => (String::new(), String::new()),
    };
    let a = lookup_count_of(calls, k1.as_str());
    let b = lookup_count_of(calls, name);
    let c = lookup_count_of(calls, dotted.as_str());
    let d = lookup_count_of(calls, joined.as_str());
    let ab = if a >= b {
        a
    } else {
        b
    };
    let cd = if c >= d {
        c
    } else {
        d
    };
    if ab >= cd {
        ab
    } else {
        cd
    }
}

/// The display name of a tool, as `display_tool_name` gives it.
pub fn display_tool_name_string(namespace: Option<&str>, name: &str) -> (r: String)
    ensures
        r@ == display_tool_name(crate::snapshot::opt_str_view(namespace), name@),
{
    match namespace {
        Some(n) => {
            let mut s = owned(n);
            append_str(&mut s, ".");
            append_str(&mut s, name);
            s
        },
        None => owned(name),
    }
}

fn segment_row_of(s: &SegmentSummary) -> (r: TokenWaterfallRow)
    ensures
        r@ == segment_row(s@),
{
    TokenWaterfallRow {
        id: s.segment_id.clone(),
        label: s.segment_id.clone(),
        category: s.category.clone(),
        token_count_estimate: s.token_count_estimate,
        occurrences: s.occurrences,
    }
}

fn tool_row_of(t: &ToolSummary) -> (r: TokenWaterfallRow)
    ensures
        r@ == tool_row(t@),
{
    TokenWaterfallRow {
        id: t.tool_id.clone(),
        label: display_tool_name_string(opt_as_str(&t.namespace), t.name.as_str()),
        category: owned("tool_schema"),
        token_count_estimate: t.token_count_estimate,
        occurrences: t.exposed_count,
    }
}

fn push_segment_finding(findings: &mut Vec<OptimizationFinding>, s: &SegmentSummary)
    ensures
        finding_views(final(findings)@) == finding_views(old(findings)@) + segment_finding(s@),
{
    let ghost before = findings@;
    let high = match s.criticality {
        PromptCriticality::Critical => true,
        PromptCriticality::High => true,
        _ => false,
    };
    let weak = match s.evidence {
        EvidenceStrength::NoEvidence => true,
        EvidenceStrength::Weak => true,
        _ => false,
    };
    let soft = match s.criticality {
        PromptCriticality::Medium => true,
        PromptCriticality::Low => true,
        _ => false,
    };
    if high && s.token_count_estimate >= 500 {
        findings.push(
            OptimizationFinding {
                target_id: s.segment_id.clone(),
                target_kind: owned("prompt_segment"),
                action: OptimizationAction::Compress,
                evidence: s.evidence,
                reason: owned("High-criticality prompt segment is expensive; report compression only."),
                token_savings_estimate: s.token_count_estimate / 3,
            },
        );
    } else if weak && soft && s.token_count_estimate >= 64 {
        let action = match s.criticality {
            PromptCriticality::Low => OptimizationAction::DeleteCandidate,
            _ => OptimizationAction::Compress,
        };
        findings.push(
            OptimizationFinding {
                target_id: s.segment_id.clone(),
                target_kind: owned("prompt_segment"),
                action,
                evidence: s.evidence,
                reason: owned("Segment has low behavioral evidence in analyzed traces."),
                token_savings_estimate: s.token_count_estimate / 2,
            },
        );
    }
    assert(finding_views(findings@) =~= finding_views(before) + segment_finding(s@));
}

fn push_tool_finding(findings: &mut Vec<OptimizationFinding>, t: &ToolSummary)
    ensures
        finding_views(final(findings)@) == finding_views(old(findings)@) + tool_finding(t@),
{
    let ghost before = findings@;
    if t.called_count == 0 && t.token_count_estimate > 0 {
        let action = match t.exposure {
            ToolExposure::Direct => OptimizationAction::LazyLoad,
            ToolExposure::Deferred => OptimizationAction::Keep,
            ToolExposure::Hosted => OptimizationAction::RouteConditionally,
            ToolExposure::Search => OptimizationAction::RouteConditionally,
        };
        findings.push(
            OptimizationFinding {
                target_id: t.tool_id.clone(),
                target_kind: owned("tool_schema"),
                action,
                evidence: EvidenceStrength::Strong,
                reason: owned("Tool schema was exposed but no matching dispatch was observed."),
                token_savings_estimate: t.token_count_estimate,
            },
        );
    }
    assert(finding_views(findings@) =~= finding_views(before) + tool_finding(t@));
}


/// The token waterfall: a row per segment and per tool, by token count
/// (largest first, ties by id).
fn token_waterfall(segs: &Vec<SegmentSummary>, tools: &Vec<ToolSummary>) -> (rows: Vec<
    TokenWaterfallRow,
>)
    ensures
        row_views(rows@) == waterfall_of(segment_summary_views(segs@), tool_summary_views(tools@)),
{
    let ghost sv = segment_summary_views(segs@);
    let ghost tv = tool_summary_views(tools@);
    let mut rows: Vec<TokenWaterfallRow> = Vec::new();
    let mut i: usize = 0;
    while i < segs.len()
        invariant
            i <= segs@.len(),
            sv == segment_summary_views(segs@),
            row_views(rows@) == sv.take(i as int).map_values(|s: SegmentSummaryView| segment_row(s)),
        decreases segs.len() - i,
    {
        let ghost before = rows@;
        assert(sv[i as int] == segs@[i as int]@);
        rows.push(segment_row_of(&segs[i]));
        assert(row_views(rows@) =~= row_views(before).push(segment_row(sv[i as int])));
        assert(sv.take(i + 1) =~= sv.take(i as int).push(sv[i as int]));
        assert(sv.take(i + 1).map_values(|s: SegmentSummaryView| segment_row(s)) =~= sv.take(
            i as int,
        ).map_values(|s: SegmentSummaryView| segment_row(s)).push(segment_row(sv[i as int])));
        i += 1;
    }
    assert(sv.take(sv.len() as int) == sv);
    let ghost seg_rows = row_views(rows@);
    let mut i: usize = 0;
    while i < tools.len()
        invariant
            i <= tools@.len(),
            tv == tool_summary_views(tools@),
            row_views(rows@) == seg_rows + tv.take(i as int).map_values(
                |t: ToolSummaryView| tool_row(t),
            ),
        decreases tools.len() - i,
    {
        let ghost before = rows@;
        assert(tv[i as int] == tools@[i as int]@);
        rows.push(tool_row_of(&tools[i]));
        assert(row_views(rows@) =~= row_views(before).push(tool_row(tv[i as int])));
        assert(tv.take(i + 1) =~= tv.take(i as int).push(tv[i as int]));
        assert(tv.take(i + 1).map_values(|t: ToolSummaryView| tool_row(t)) =~= tv.take(
            i as int,
        ).map_values(|t: ToolSummaryView| tool_row(t)).push(tool_row(tv[i as int])));
        assert(row_views(rows@) =~= seg_rows + tv.take(i + 1).map_values(
            |t: ToolSummaryView| tool_row(t),
        ));
        i += 1;
    }
    assert(tv.take(tv.len() as int) == tv);
    let ghost unsorted_rows = rows@;
    let rows = stable_sort(rows);
    proof {
        lemma_sort_map(unsorted_rows, row_view_fn(), rank_lt::<TokenWaterfallRow>(), row_lt_fn());
    }
    rows
}

/// The findings of the summaries, by savings (largest first, ties by target).
fn findings(segs: &Vec<SegmentSummary>, tools: &Vec<ToolSummary>) -> (findings: Vec<
    OptimizationFinding,
>)
    ensures
        finding_views(findings@) == findings_of(segment_summary_views(segs@), tool_summary_views(tools@)),
{
    let ghost sv = segment_summary_views(segs@);
    let ghost tv = tool_summary_views(tools@);
    let mut findings: Vec<OptimizationFinding> = Vec::new();
    let mut i: usize = 0;
    while i < segs.len()
        invariant
            i <= segs@.len(),
            sv == segment_summary_views(segs@),
            finding_views(findings@) == segment_findings(sv.take(i as int)),
        decreases segs.len() - i,
    {
        assert(sv[i as int] == segs@[i as int]@);
        push_segment_finding(&mut findings, &segs[i]);
        assert(sv.take(i + 1).drop_last() == sv.take(i as int));
        i += 1;
    }
    let ghost seg_findings = finding_views(findings@);
    let mut i: usize = 0;
    while i < tools.len()
        invariant
            i <= tools@.len(),
            tv == tool_summary_views(tools@),
            finding_views(findings@) == seg_findings + tool_findings(tv.take(i as int)),
        decreases tools.len() - i,
    {
        assert(tv[i as int] == tools@[i as int]@);
        push_tool_finding(&mut findings, &tools[i]);
        assert(tv.take(i + 1).drop_last() == tv.take(i as int));
        i += 1;
    }
    assert(sv.take(sv.len() as int) == sv);
    assert(tv.take(tv.len() as int) == tv);
    let ghost unsorted_findings = findings@;
    let findings = stable_sort(findings);
    proof {
        lemma_sort_map(
            unsorted_findings,
            finding_view_fn(),
            rank_lt::<OptimizationFinding>(),
            finding_lt_fn(),
        );
    }
    findings
}

impl AnalysisAccumulator {
    /// Turns the totals into the report (see `report_of`).
    pub fn into_report(self, bundles_analyzed: usize) -> (report: TraceAnalysisReport)
        ensures
            report@ == report_of(self@, bundles_analyzed),
    {
        let ghost v = self@;
        let any_tools_called = self.called_tools.len() > 0;
        // segment summaries
        let mut segs: Vec<SegmentSummary> = Vec::new();
        let mut i: usize = 0;
        while i < self.segments.len()
            invariant
                i <= self.segments@.len(),
                v == self@,
                any_tools_called == (v.called_tools.len() > 0),
                segment_summary_views(segs@) == v.segments.take(i as int).map_values(
                    |e: SegmentAggregateView| segment_summary_of(e, any_tools_called),
                ),
            decreases self.segments.len() - i,
        {
            let e = &self.segments[i];
            let ghost before = segs@;
            assert(v.segments[i as int] == e@);
            segs.push(
                SegmentSummary {
                    segment_id: e.segment_id.clone(),
                    category: e.category.clone(),
                    criticality: e.criticality,
                    token_count_estimate: e.token_count_estimate,
                    occurrences: e.occurrences,
                    evidence: segment_evidence_of(e.category.as_str(), any_tools_called),
                },
            );
            assert(segment_summary_views(segs@) =~= segment_summary_views(before).push(
                segment_summary_of(e@, any_tools_called),
            ));
            assert(v.segments.take(i + 1) =~= v.segments.take(i as int).push(e@));
            assert(v.segments.take(i + 1).map_values(
                |e: SegmentAggregateView| segment_summary_of(e, any_tools_called),
            ) =~= v.segments.take(i as int).map_values(
                |e: SegmentAggregateView| segment_summary_of(e, any_tools_called),
            ).push(segment_summary_of(e@, any_tools_called)));
            i += 1;
        }
        assert(v.segments.take(v.segments.len() as int) == v.segments);
        let ghost unsorted_segs = segs@;
        let segs = stable_sort(segs);
        proof {
            lemma_sort_map(
                unsorted_segs,
                segment_summary_view_fn(),
                rank_lt::<SegmentSummary>(),
                segment_summary_lt_fn(),
            );
        }
        assert(segment_summary_views(segs@) == sorted_segment_summaries(v));
        // tool summaries
        let mut tools: Vec<ToolSummary> = Vec::new();
        let mut i: usize = 0;
        while i < self.tools.len()
            invariant
                i <= self.tools@.len(),
                v == self@,
                tool_summary_views(tools@) == v.tools.take(i as int).map_values(
                    |e: ToolAggregateView| tool_summary_of(e, v.called_tools),
                ),
            decreases self.tools.len() - i,
        {
            let e = &self.tools[i];
            let ghost before = tools@;
            assert(v.tools[i as int] == e@);
            let called_count = called_count_of(
                &self.called_tools,
                opt_as_str(&e.namespace),
                e.name.as_str(),
            );
            tools.push(
                ToolSummary {
                    tool_id: e.tool_id.clone(),
                    name: e.name.clone(),
                    namespace: e.namespace.clone(),
                    exposure: e.exposure,
                    token_count_estimate: e.token_count_estimate,
                    exposed_count: e.exposed_count,
                    called_count,
                },
            );
            assert(tool_summary_views(tools@) =~= tool_summary_views(before).push(
                tool_summary_of(e@, v.called_tools),
            ));
            assert(v.tools.take(i + 1) =~= v.tools.take(i as int).push(e@));
            assert(v.tools.take(i + 1).map_values(
                |e: ToolAggregateView| tool_summary_of(e, v.called_tools),
            ) =~= v.tools.take(i as int).map_values(
                |e: ToolAggregateView| tool_summary_of(e, v.called_tools),
            ).push(tool_summary_of(e@, v.called_tools)));
            i += 1;
        }
        assert(v.tools.take(v.tools.len() as int) == v.tools);
        let ghost unsorted_tools = tools@;
        let tools = stable_sort(tools);
        proof {
            lemma_sort_map(
                unsorted_tools,
                tool_summary_view_fn(),
                rank_lt::<ToolSummary>(),
                tool_summary_lt_fn(),
            );
        }
        assert(tool_summary_views(tools@) == sorted_tool_summaries(v));
        let ghost sv = segment_summary_views(segs@);
        let ghost tv = tool_summary_views(tools@);
        // low-evidence segments
        let mut low: Vec<SegmentSummary> = Vec::new();
        let mut i: usize = 0;
        while i < segs.len()
            invariant
                i <= segs@.len(),
                sv == segment_summary_views(segs@),
                segment_summary_views(low@) == sv.take(i as int).filter(low_evidence_fn()),
            decreases segs.len() - i,
        {
            let s = &segs[i];
            let weak = match s.evidence {
                EvidenceStrength::NoEvidence => true,
                EvidenceStrength::Weak => true,
                _ => false,
            };
            let soft = match s.criticality {
                PromptCriticality::Medium => true,
                PromptCriticality::Low => true,
                _ => false,
            };
            let ghost before = low@;
            assert(sv[i as int] == s@);
            if weak && soft && s.token_count_estimate >= 64 {
                low.push(copy_segment_summary(s));
            }
            proof {
                assert(sv.take(i + 1) == sv.take(i as int).push(sv[i as int]));
                sv.take(i as int).lemma_filter_push(sv[i as int], low_evidence_fn());
                assert(segment_summary_views(low@) =~= segment_summary_views(before) + (if is_low_evidence(
                    s@,
                ) {
                    seq![s@]
                } else {
                    Seq::empty()
                }));
            }
            i += 1;
        }
        assert(sv.take(sv.len() as int) == sv);
        // never-called tools
        let mut never: Vec<ToolSummary> = Vec::new();
        let mut i: usize = 0;
        while i < tools.len()
            invariant
                i <= tools@.len(),
                tv == tool_summary_views(tools@),
                tool_summary_views(never@) == tv.take(i as int).filter(never_called_fn()),
            decreases tools.len() - i,
        {
            let t = &tools[i];
            let ghost before = never@;
            assert(tv[i as int] == t@);
            if t.called_count == 0 {
                never.push(copy_tool_summary(t));
            }
            proof {
                assert(tv.take(i + 1) == tv.take(i as int).push(tv[i as int]));
                tv.take(i as int).lemma_filter_push(tv[i as int], never_called_fn());
                assert(tool_summary_views(never@) =~= tool_summary_views(before) + (if t@.called_count
                    == 0 {
                    seq![t@]
                } else {
                    Seq::empty()
                }));
            }
            i += 1;
        }
        assert(tv.take(tv.len() as int) == tv);
        // searched tools
        let mut searched: Vec<DeferredSearchSummary> = Vec::new();
        let mut i: usize = 0;
        while i < self.deferred_search_results.len()
            invariant
                i <= self.deferred_search_results@.len(),
                v == self@,
                deferred_views(searched@) == v.deferred_search_results.take(i as int).map_values(
                    |e: DeferredSearchAggregateView|
                        DeferredSearchView {
                            name: e.name,
                            namespace: e.namespace,
                            search_result_count: e.search_result_count,
                        },
                ),
            decreases self.deferred_search_results.len() - i,
        {
            let e = &self.deferred_search_results[i];
            let ghost before = searched@;
            assert(v.deferred_search_results[i as int] == e@);
            searched.push(
                DeferredSearchSummary {
                    name: e.name.clone(),
                    namespace: e.namespace.clone(),
                    search_result_count: e.search_result_count,
                },
            );
            let ghost item = DeferredSearchView {
                name: e@.name,
                namespace: e@.namespace,
                search_result_count: e@.search_result_count,
            };
            assert(deferred_views(searched@) =~= deferred_views(before).push(item));
            assert(v.deferred_search_results.take(i + 1) =~= v.deferred_search_results.take(i as int).push(e@));
            assert(v.deferred_search_results.take(i + 1).map_values(
                |e: DeferredSearchAggregateView|
                    DeferredSearchView {
                        name: e.name,
                        namespace: e.namespace,
                        search_result_count: e.search_result_count,
                    },
            ) =~= v.deferred_search_results.take(i as int).map_values(
                |e: DeferredSearchAggregateView|
                    DeferredSearchView {
                        name: e.name,
                        namespace: e.namespace,
                        search_result_count: e.search_result_count,
                    },
            ).push(item));
            i += 1;
        }
        assert(v.deferred_search_results.take(v.deferred_search_results.len() as int)
            == v.deferred_search_results);
        let ghost unsorted_searched = searched@;
        let searched = stable_sort(searched);
        proof {
            lemma_sort_map(
                unsorted_searched,
                deferred_view_fn(),
                rank_lt::<DeferredSearchSummary>(),
                deferred_lt_fn(),
            );
        }
        // chains
        let mut chains: Vec<ChainCoverageSummary> = Vec::new();
        let mut i: usize = 0;
        while i < self.chains.len()
            invariant
                i <= self.chains@.len(),
                v == self@,
                chain_summary_views(chains@) == v.chains.take(i as int).map_values(
                    |e: ChainAggregateView|
                        ChainSummaryView {
                            chain_id: e.chain_id,
                            entered: e.entered,
                            skipped: e.skipped,
                            fallback: e.fallback,
                        },
                ),
            decreases self.chains.len() - i,
        {
            let e = &self.chains[i];
            let ghost before = chains@;
            assert(v.chains[i as int] == e@);
            chains.push(
                ChainCoverageSummary {
                    chain_id: e.chain_id.clone(),
                    entered: e.entered,
                    skipped: e.skipped,
                    fallback: e.fallback,
                },
            );
            let ghost item = ChainSummaryView {
                chain_id: e@.chain_id,
                entered: e@.entered,
                skipped: e@.skipped,
                fallback: e@.fallback,
            };
            assert(chain_summary_views(chains@) =~= chain_summary_views(before).push(item));
            assert(v.chains.take(i + 1) =~= v.chains.take(i as int).push(e@));
            assert(v.chains.take(i + 1).map_values(
                |e: ChainAggregateView|
                    ChainSummaryView {
                        chain_id: e.chain_id,
                        entered: e.entered,
                        skipped: e.skipped,
                        fallback: e.fallback,
                    },
            ) =~= v.chains.take(i as int).map_values(
                |e: ChainAggregateView|
                    ChainSummaryView {
                        chain_id: e.chain_id,
                        entered: e.entered,
                        skipped: e.skipped,
                        fallback: e.fallback,
                    },
            ).push(item));
            i += 1;
        }
        assert(v.chains.take(v.chains.len() as int) == v.chains);
        let ghost unsorted_chains = chains@;
        let chains = stable_sort(chains);
        proof {
            lemma_sort_map(
                unsorted_chains,
                chain_summary_view_fn(),
                rank_lt::<ChainCoverageSummary>(),
                chain_summary_lt_fn(),
            );
        }
        let rows = token_waterfall(&segs, &tools);
        let findings = findings(&segs, &tools);
        let report = TraceAnalysisReport {
            bundles_analyzed,
            snapshots_analyzed: self.snapshots_analyzed,
            token_waterfall: rows,
            top_token_heavy_segments: segs,
            low_evidence_segments: low,
            exposed_but_never_called_tools: never,
            deferred_but_searched_tools: searched,
            chain_coverage: chains,
            findings,
        };
        assert(report@.findings == report_of(v, bundles_analyzed).findings);
        assert(report@ == report_of(v, bundles_analyzed));
        report
    }
}


// ---------------------------------------------------------------------------
// Tool search results.
// ---------------------------------------------------------------------------
/// The response item of a tool result, as far as search results go.
#[derive(Debug, Clone, PartialEq, Eq)]
pub struct SearchOutputJson {
    /// The `type` field when it is a string.
    pub item_type: Option<String>,
    /// The `tools` field when it is an array.
    pub tools: Option<Vec<ToolJson>>,
}

/// What a result payload of a tool call holds.
#[derive(Debug, Clone, PartialEq, Eq)]
pub struct ToolResultJson {
    /// The `response_item` field, when there is one.
    pub response_item: Option<SearchOutputJson>,
}

/// A tool that a search result made loadable.
#[derive(Debug, Clone)]
pub struct LoadableName {
    pub namespace: Option<String>,
    pub name: String,
}

/// A loadable name as plain values.
pub struct LoadableNameView {
    pub namespace: Option<Seq<char>>,
    pub name: Seq<char>,
}

impl View for LoadableName {
    type V = LoadableNameView;

    open spec fn view(&self) -> LoadableNameView {
        LoadableNameView { namespace: opt_view(self.namespace), name: self.name@ }
    }
}

/// The named entries of a namespace, in order.
pub open spec fn entry_names(namespace: Option<Seq<char>>, entries: Seq<ToolJsonEntry>) -> Seq<
    LoadableNameView,
>
    decreases entries.len(),
{
    if entries.len() == 0 {
        Seq::empty()
    } else {
        let earlier = entry_names(namespace, entries.drop_last());
        match entries.last().name {
            Some(n) => earlier.push(LoadableNameView { namespace, name: n@ }),
            None => earlier,
        }
    }
}

/// The tools that one tool of a search result makes loadable: a named
/// function, or the named tools of a namespace.
pub open spec fn loadable_names(tool: ToolJson) -> Seq<LoadableNameView> {
    if opt_text_is(tool.tool_type, "function"@) {
        match tool.name {
            Some(n) => seq![LoadableNameView { namespace: None, name: n@ }],
            None => Seq::empty(),
        }
    } else if opt_text_is(tool.tool_type, "namespace"@) {
        match tool.tools {
            Some(entries) => entry_names(opt_view(tool.name), entries@),
            None => Seq::empty(),
        }
    } else {
        Seq::empty()
    }
}

/// The loadable tools of a list of search results, in order.
pub open spec fn tools_loadable_names(tools: Seq<ToolJson>) -> Seq<LoadableNameView>
    decreases tools.len(),
{
    if tools.len() == 0 {
        Seq::empty()
    } else {
        tools_loadable_names(tools.drop_last()) + loadable_names(tools.last())
    }
}

/// The loadable tools a result payload reports: those of a tool search output.
pub open spec fn result_names(result: ToolResultJson) -> Seq<LoadableNameView> {
    match result.response_item {
        Some(item) => if opt_text_is(item.item_type, "tool_search_output"@) {
            match item.tools {
                Some(tools) => tools_loadable_names(tools@),
                None => Seq::empty(),
            }
        } else {
            Seq::empty()
        },
        None => Seq::empty(),
    }
}

/// One more search result counted for a tool, under its tool key.
pub open spec fn add_search(entries: Seq<DeferredSearchAggregateView>, n: LoadableNameView) -> Seq<
    DeferredSearchAggregateView,
> {
    let key = tool_key(n.namespace, n.name);
    match find_key(entries, key_fn::<DeferredSearchAggregate>(), key) {
        Some(i) => entries.update(
            i,
            DeferredSearchAggregateView {
                search_result_count: (entries[i].search_result_count + 1) as usize,
                ..entries[i]
            },
        ),
        None => entries.push(
            DeferredSearchAggregateView {
                key,
                name: n.name,
                namespace: n.namespace,
                search_result_count: 1,
            },
        ),
    }
}

/// Search results counted in order.
pub open spec fn add_searches(entries: Seq<DeferredSearchAggregateView>, names: Seq<LoadableNameView>) -> Seq<
    DeferredSearchAggregateView,
>
    decreases names.len(),
{
    if names.len() == 0 {
        entries
    } else {
        add_search(add_searches(entries, names.drop_last()), names.last())
    }
}

/// The accumulator after recording a result payload.
pub open spec fn after_result(v: AccumulatorView, result: ToolResultJson) -> AccumulatorView {
    AccumulatorView {
        deferred_search_results: add_searches(v.deferred_search_results, result_names(result)),
        work: v.work + result_names(result).len(),
        ..v
    }
}

/// Appends the loadable tools of one search result to `names`.
fn push_loadable_names(names: &mut Vec<LoadableName>, tool: &ToolJson)
    ensures
        views(final(names)@) == views(old(names)@) + loadable_names(*tool),
{
    let ghost start = views(names@);
    if opt_str_is(&tool.tool_type, "function") {
        match &tool.name {
            Some(n) => {
                names.push(LoadableName { namespace: None, name: n.clone() });
            },
            None => {},
        }
        assert(views(names@) =~= start + loadable_names(*tool));
    } else if opt_str_is(&tool.tool_type, "namespace") {
        match &tool.tools {
            Some(entries) => {
                let mut i: usize = 0;
                while i < entries.len()
                    invariant
                        i <= entries@.len(),
                        views(names@) == start + entry_names(opt_view(tool.name), entries@.take(i as int)),
                    decreases entries.len() - i,
                {
                    assert(entries@.take(i + 1).drop_last() == entries@.take(i as int));
                    let ghost before = views(names@);
                    match &entries[i].name {
                        Some(n) => {
                            names.push(LoadableName { namespace: tool.name.clone(), name: n.clone() });
                            assert(views(names@) =~= before.push(
                                LoadableNameView { namespace: opt_view(tool.name), name: n@ },
                            ));
                        },
                        None => {},
                    }
                    i += 1;
                }
                assert(entries@.take(entries@.len() as int) == entries@);
            },
            None => {
                assert(views(names@) =~= start + loadable_names(*tool));
            },
        }
    } else {
        assert(views(names@) =~= start + loadable_names(*tool));
    }
}

/// The loadable tools a result payload reports, as `result_names` gives them.
fn result_loadable_names(result: &ToolResultJson) -> (names: Vec<LoadableName>)
    ensures
        views(names@) == result_names(*result),
{
    let mut names: Vec<LoadableName> = Vec::new();
    match &result.response_item {
        Some(item) => {
            if opt_str_is(&item.item_type, "tool_search_output") {
                match &item.tools {
                    Some(tools) => {
                        let mut i: usize = 0;
                        while i < tools.len()
                            invariant
                                i <= tools@.len(),
                                views(names@) == tools_loadable_names(tools@.take(i as int)),
                            decreases tools.len() - i,
                        {
                            push_loadable_names(&mut names, &tools[i]);
                            assert(tools@.take(i + 1).drop_last() == tools@.take(i as int));
                            i += 1;
                        }
                        assert(tools@.take(tools@.len() as int) == tools@);
                    },
                    None => {},
                }
            }
        },
        None => {},
    }
    assert(views(names@) =~= result_names(*result));
    names
}

impl AnalysisAccumulator {
    /// Counts one search result for a tool.
    fn record_search_result(&mut self, n: &LoadableName)
        requires
            accumulator_wf(old(self)@),
            old(self)@.work < usize::MAX,
        ensures
            accumulator_wf(final(self)@),
            final(self)@ == (AccumulatorView {
                deferred_search_results: add_search(old(self)@.deferred_search_results, n@),
                work: old(self)@.work + 1,
                ..old(self)@
            }),
    {
        let ghost old_view = self@;
        let key = tool_key_string(opt_as_str(&n.namespace), n.name.as_str());
        proof {
            lemma_find_key(old_view.deferred_search_results, key_fn::<DeferredSearchAggregate>(), key@);
        }
        match find_entry(&self.deferred_search_results, key.as_str()) {
            Some(i) => {
                let e = &self.deferred_search_results[i];
                let updated = DeferredSearchAggregate {
                    key: e.key.clone(),
                    name: e.name.clone(),
                    namespace: e.namespace.clone(),
                    search_result_count: e.search_result_count + 1,
                };
                self.deferred_search_results.set(i, updated);
                proof {
                    lemma_keys_distinct_update(
                        old_view.deferred_search_results,
                        key_fn::<DeferredSearchAggregate>(),
                        i as int,
                        updated@,
                    );
                }
            },
            None => {
                let added = DeferredSearchAggregate {
                    key,
                    name: n.name.clone(),
                    namespace: n.namespace.clone(),
                    search_result_count: 1,
                };
                self.deferred_search_results.push(added);
                proof {
                    lemma_keys_distinct_push(
                        old_view.deferred_search_results,
                        key_fn::<DeferredSearchAggregate>(),
                        added@,
                    );
                }
            },
        }
        proof {
            self.work = Ghost(self.work@ + 1);
        }
        assert(views(self.deferred_search_results@) =~= add_search(
            old_view.deferred_search_results,
            n@,
        ));
    }

    /// Records the result payload of an ended tool call: every tool that a
    /// tool search output lists is counted once more.
    fn record_tool_result(&mut self, result: &ToolResultJson)
        requires
            accumulator_wf(old(self)@),
            old(self)@.work + result_names(*result).len() <= usize::MAX,
        ensures
            accumulator_wf(final(self)@),
            final(self)@ == after_result(old(self)@, *result),
    {
        let ghost old_view = self@;
        let names = result_loadable_names(result);
        let ghost nv = views(names@);
        let mut i: usize = 0;
        while i < names.len()
            invariant
                i <= names@.len(),
                nv == views(names@),
                nv == result_names(*result),
                old_view.work + nv.len() <= usize::MAX,
                accumulator_wf(self@),
                self@ == (AccumulatorView {
                    deferred_search_results: add_searches(
                        old_view.deferred_search_results,
                        nv.take(i as int),
                    ),
                    work: old_view.work + i as nat,
                    ..old_view
                }),
            decreases names.len() - i,
        {
            self.record_search_result(&names[i]);
            assert(nv.take(i + 1).drop_last() == nv.take(i as int));
            i += 1;
        }
        assert(nv.take(nv.len() as int) == nv);
    }
}


// ---------------------------------------------------------------------------
// Trace events.
// ---------------------------------------------------------------------------
/// The event kind under which snapshots are recorded in a trace.
pub const PROMPT_OBSERVABILITY_SNAPSHOT_EVENT_KIND: &'static str = "prompt_observability.snapshot";

/// Whether an event kind is the snapshot event kind.
pub fn is_snapshot_event_kind(kind: &str) -> (r: bool)
    ensures
        r == (kind@ == PROMPT_OBSERVABILITY_SNAPSHOT_EVENT_KIND@),
{
    str_eq(kind, PROMPT_OBSERVABILITY_SNAPSHOT_EVENT_KIND)
}

/// One recorded trace event, with the payloads that matter already read.
#[derive(Debug, Clone, PartialEq, Eq)]
pub enum TraceEvent {
    /// An event of another kind; for the snapshot kind, the snapshots its
    /// payloads hold.
    Other { kind: String, snapshots: Vec<PromptObservabilitySnapshot> },
    /// A tool call started, with its invocation payload if it had one.
    ToolCallStarted { kind: ToolCallKind, invocation: Option<ToolInvocationJson> },
    /// A tool call ended, with its result payload if it had one.
    ToolCallEnded { result: Option<ToolResultJson> },
    /// An event that analysis does not read.
    Ignored,
}

/// The accumulator after recording snapshots in order.
pub open spec fn after_snapshots(v: AccumulatorView, snapshots: Seq<PromptObservabilitySnapshot>) -> AccumulatorView
    decreases snapshots.len(),
{
    if snapshots.len() == 0 {
        v
    } else {
        after_snapshot(after_snapshots(v, snapshots.drop_last()), snapshots.last())
    }
}

/// The increments that recording snapshots makes.
pub open spec fn snapshots_work(snapshots: Seq<PromptObservabilitySnapshot>) -> nat
    decreases snapshots.len(),
{
    if snapshots.len() == 0 {
        0
    } else {
        snapshots_work(snapshots.drop_last()) + snapshot_work(snapshots.last())
    }
}

/// The accumulator after recording one event.
pub open spec fn after_event(v: AccumulatorView, event: TraceEvent) -> AccumulatorView {
    match event {
        TraceEvent::Other { kind, snapshots } => if kind@ == PROMPT_OBSERVABILITY_SNAPSHOT_EVENT_KIND@ {
            after_snapshots(v, snapshots@)
        } else {
            v
        },
        TraceEvent::ToolCallStarted { kind, invocation } => match invocation {
            Some(i) => after_invocation(v, i),
            None => after_kind(v, kind),
        },
        TraceEvent::ToolCallEnded { result } => match result {
            Some(r) => after_result(v, r),
            None => v,
        },
        TraceEvent::Ignored => v,
    }
}

/// A bound on the increments that recording one event makes.
pub open spec fn event_work(event: TraceEvent) -> nat {
    match event {
        TraceEvent::Other { kind, snapshots } => if kind@ == PROMPT_OBSERVABILITY_SNAPSHOT_EVENT_KIND@ {
            snapshots_work(snapshots@)
        } else {
            0
        },
        TraceEvent::ToolCallStarted { .. } => 2,
        TraceEvent::ToolCallEnded { result } => match result {
            Some(r) => result_names(r).len(),
            None => 0,
        },
        TraceEvent::Ignored => 0,
    }
}

/// The accumulator after recording events in order.
pub open spec fn after_events(v: AccumulatorView, events: Seq<TraceEvent>) -> AccumulatorView
    decreases events.len(),
{
    if events.len() == 0 {
        v
    } else {
        after_event(after_events(v, events.drop_last()), events.last())
    }
}

/// A bound on the increments that recording events makes.
pub open spec fn events_work(events: Seq<TraceEvent>) -> nat
    decreases events.len(),
{
    if events.len() == 0 {
        0
    } else {
        events_work(events.drop_last()) + event_work(events.last())
    }
}

/// The accumulator after recording bundles of events in order.
pub open spec fn after_bundles(v: AccumulatorView, bundles: Seq<Vec<TraceEvent>>) -> AccumulatorView
    decreases bundles.len(),
{
    if bundles.len() == 0 {
        v
    } else {
        after_events(after_bundles(v, bundles.drop_last()), bundles.last()@)
    }
}

/// A bound on the increments that recording bundles makes.
pub open spec fn bundles_work(bundles: Seq<Vec<TraceEvent>>) -> nat
    decreases bundles.len(),
{
    if bundles.len() == 0 {
        0
    } else {
        bundles_work(bundles.drop_last()) + events_work(bundles.last()@)
    }
}

/// An accumulator that has recorded nothing.
pub open spec fn empty_accumulator() -> AccumulatorView {
    AccumulatorView {
        snapshots_analyzed: 0,
        segments: Seq::empty(),
        tools: Seq::empty(),
        chains: Seq::empty(),
        called_tools: Seq::empty(),
        deferred_search_results: Seq::empty(),
        work: 0,
    }
}

proof fn lemma_snapshots_work_prefix(s: Seq<PromptObservabilitySnapshot>, i: int)
    requires
        0 <= i <= s.len(),
    ensures
        snapshots_work(s.take(i)) <= snapshots_work(s),
    decreases s.len() - i,
{
    if i < s.len() {
        lemma_snapshots_work_prefix(s, i + 1);
        assert(s.take(i + 1).drop_last() == s.take(i));
    } else {
        assert(s.take(i) == s);
    }
}

proof fn lemma_events_work_prefix(s: Seq<TraceEvent>, i: int)
    requires
        0 <= i <= s.len(),
    ensures
        events_work(s.take(i)) <= events_work(s),
    decreases s.len() - i,
{
    if i < s.len() {
        lemma_events_work_prefix(s, i + 1);
        assert(s.take(i + 1).drop_last() == s.take(i));
    } else {
        assert(s.take(i) == s);
    }
}

proof fn lemma_bundles_work_prefix(s: Seq<Vec<TraceEvent>>, i: int)
    requires
        0 <= i <= s.len(),
    ensures
        bundles_work(s.take(i)) <= bundles_work(s),
    decreases s.len() - i,
{
    if i < s.len() {
        lemma_bundles_work_prefix(s, i + 1);
        assert(s.take(i + 1).drop_last() == s.take(i));
    } else {
        assert(s.take(i) == s);
    }
}

fn snapshots_work_of(snapshots: &Vec<PromptObservabilitySnapshot>) -> (r: Option<usize>)
    ensures
        r matches Some(n) ==> n == snapshots_work(snapshots@),
        r is None ==> snapshots_work(snapshots@) > usize::MAX,
{
    let mut total: usize = 0;
    let mut i: usize = 0;
    while i < snapshots.len()
        invariant
            i <= snapshots@.len(),
            total == snapshots_work(snapshots@.take(i as int)),
        decreases snapshots.len() - i,
    {
        assert(snapshots@.take(i + 1).drop_last() == snapshots@.take(i as int));
        proof {
            lemma_snapshots_work_prefix(snapshots@, i + 1);
        }
        let s = &snapshots[i];
        let step = match total.checked_add(1) {
            Some(t) => t.checked_add(s.prompt_segments.len()),
            None => None,
        };
        let step = match step {
            Some(t) => t.checked_add(s.tools.len()),
            None => None,
        };
        let step = match step {
            Some(t) => t.checked_add(s.chains.len()),
            None => None,
        };
        match step {
            Some(t) => {
                total = t;
            },
            None => {
                return None;
            },
        }
        i += 1;
    }
    assert(snapshots@.take(snapshots@.len() as int) == snapshots@);
    Some(total)
}

fn event_work_of(event: &TraceEvent) -> (r: Option<usize>)
    ensures
        r matches Some(n) ==> n == event_work(*event),
        r is None ==> event_work(*event) > usize::MAX,
{
    match event {
        TraceEvent::Other { kind, snapshots } => {
            if is_snapshot_event_kind(kind.as_str()) {
                snapshots_work_of(snapshots)
            } else {
                Some(0)
            }
        },
        TraceEvent::ToolCallStarted { .. } => Some(2),
        TraceEvent::ToolCallEnded { result } => {
            match result {
                Some(r) => {
                    let names = result_loadable_names(r);
                    Some(names.len())
                },
                None => Some(0),
            }
        },
        TraceEvent::Ignored => Some(0),
    }
}

fn events_work_of(events: &Vec<TraceEvent>) -> (r: Option<usize>)
    ensures
        r matches Some(n) ==> n == events_work(events@),
        r is None ==> events_work(events@) > usize::MAX,
{
    let mut total: usize = 0;
    let mut i: usize = 0;
    while i < events.len()
        invariant
            i <= events@.len(),
            total == events_work(events@.take(i as int)),
        decreases events.len() - i,
    {
        assert(events@.take(i + 1).drop_last() == events@.take(i as int));
        proof {
            lemma_events_work_prefix(events@, i + 1);
        }
        let step = match event_work_of(&events[i]) {
            Some(w) => total.checked_add(w),
            None => None,
        };
        match step {
            Some(t) => {
                total = t;
            },
            None => {
                return None;
            },
        }
        i += 1;
    }
    assert(events@.take(events@.len() as int) == events@);
    Some(total)
}

/// The counter increments that analyzing `bundles` makes at most (see
/// `bundles_work`), or `None` when that bound exceeds `usize::MAX`; in the
/// first case `analyze_trace_path` may be called on the bundles.
pub fn analysis_work(bundles: &Vec<Vec<TraceEvent>>) -> (r: Option<usize>)
    ensures
        r matches Some(n) ==> n == bundles_work(bundles@),
        r is None <==> bundles_work(bundles@) > usize::MAX,
{
    let mut total: usize = 0;
    let mut b: usize = 0;
    while b < bundles.len()
        invariant
            b <= bundles@.len(),
            total == bundles_work(bundles@.take(b as int)),
        decreases bundles.len() - b,
    {
        assert(bundles@.take(b + 1).drop_last() == bundles@.take(b as int));
        proof {
            lemma_bundles_work_prefix(bundles@, b + 1);
        }
        let step = match events_work_of(&bundles[b]) {
            Some(w) => total.checked_add(w),
            None => None,
        };
        match step {
            Some(t) => {
                total = t;
            },
            None => {
                return None;
            },
        }
        b += 1;
    }
    assert(bundles@.take(bundles@.len() as int) == bundles@);
    Some(total)
}

impl Default for AnalysisAccumulator {
    fn default() -> (acc: Self)
        ensures
            accumulator_wf(acc@),
            acc@ == empty_accumulator(),
    {
        AnalysisAccumulator::new()
    }
}

impl AnalysisAccumulator {
    /// Records one trace event.
    pub fn record_event(&mut self, event: &TraceEvent)
        requires
            accumulator_wf(old(self)@),
            old(self)@.work + event_work(*event) <= usize::MAX,
        ensures
            accumulator_wf(final(self)@),
            final(self)@ == after_event(old(self)@, *event),
            final(self)@.work <= old(self)@.work + event_work(*event),
    {
        match event {
            TraceEvent::Other { kind, snapshots } => {
                if is_snapshot_event_kind(kind.as_str()) {
                    let ghost old_view = self@;
                    let mut i: usize = 0;
                    while i < snapshots.len()
                        invariant
                            i <= snapshots@.len(),
                            accumulator_wf(self@),
                            old_view.work + snapshots_work(snapshots@) <= usize::MAX,
                            self@ == after_snapshots(old_view, snapshots@.take(i as int)),
                            self@.work == old_view.work + snapshots_work(snapshots@.take(i as int)),
                        decreases snapshots.len() - i,
                    {
                        assert(snapshots@.take(i + 1).drop_last() == snapshots@.take(i as int));
                        proof {
                            lemma_snapshots_work_prefix(snapshots@, i + 1);
                        }
                        self.record_snapshot_ref(&snapshots[i]);
                        i += 1;
                    }
                    assert(snapshots@.take(snapshots@.len() as int) == snapshots@);
                }
            },
            TraceEvent::ToolCallStarted { kind, invocation } => {
                match invocation {
                    Some(i) => self.record_tool_invocation(i),
                    None => self.record_tool_kind(kind),
                }
            },
            TraceEvent::ToolCallEnded { result } => {
                match result {
                    Some(r) => self.record_tool_result(r),
                    None => {},
                }
            },
            TraceEvent::Ignored => {},
        }
    }
}

/// Analyzes bundles of trace events, in order, into a report
/// (see `report_of`).
pub fn analyze_trace_path(bundles: Vec<Vec<TraceEvent>>) -> (report: TraceAnalysisReport)
    requires
        bundles_work(bundles@) <= usize::MAX,
    ensures
        report@ == report_of(after_bundles(empty_accumulator(), bundles@), bundles@.len() as usize),
{
    let mut acc = AnalysisAccumulator::new();
    let mut b: usize = 0;
    while b < bundles.len()
        invariant
            b <= bundles@.len(),
            bundles_work(bundles@) <= usize::MAX,
            accumulator_wf(acc@),
            acc@ == after_bundles(empty_accumulator(), bundles@.take(b as int)),
            acc@.work <= bundles_work(bundles@.take(b as int)),
        decreases bundles.len() - b,
    {
        let events = &bundles[b];
        let ghost start = acc@;
        proof {
            lemma_bundles_work_prefix(bundles@, b + 1);
            assert(bundles@.take(b + 1).drop_last() == bundles@.take(b as int));
        }
        let mut e: usize = 0;
        while e < events.len()
            invariant
                e <= events@.len(),
                accumulator_wf(acc@),
                start.work + events_work(events@) <= usize::MAX,
                acc@ == after_events(start, events@.take(e as int)),
                acc@.work <= start.work + events_work(events@.take(e as int)),
            decreases events.len() - e,
        {
            assert(events@.take(e + 1).drop_last() == events@.take(e as int));
            proof {
                lemma_events_work_prefix(events@, e + 1);
            }
            acc.record_event(&events[e]);
            e += 1;
        }
        assert(events@.take(events@.len() as int) == events@);
        b += 1;
    }
    assert(bundles@.take(bundles@.len() as int) == bundles@);
    acc.into_report(bundles.len())
}

} // verus!
