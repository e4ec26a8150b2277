//! What an accumulator holds after a whole history of recorded events: one
//! entry per recorded identifier, with the sums and counts of every
//! occurrence and the fields of the first one.
use vstd::prelude::*;

use crate::analyze::add_chain;
use crate::analyze::add_chains;
use crate::analyze::add_segment;
use crate::analyze::add_search;
use crate::analyze::add_searches;
use crate::analyze::DeferredSearchAggregate;
use crate::analyze::DeferredSearchAggregateView;
use crate::analyze::LoadableNameView;
use crate::analyze::add_tool;
use crate::analyze::add_tools;
use crate::analyze::ToolAggregate;
use crate::analyze::ToolAggregateView;
use crate::snapshot::ToolView;
use crate::snapshot::tool_views;
use crate::analyze::count_status;
use crate::analyze::ChainAggregate;
use crate::analyze::ChainAggregateView;
use crate::snapshot::chain_views;
use crate::snapshot::ChainStatus;
use crate::snapshot::ChainView;
use crate::report::ChainSummaryView;
use crate::report::ToolSummaryView;
use crate::report::chain_summary_lt_fn;
use crate::analyze::add_segments;
use crate::analyze::after_event;
use crate::analyze::after_events;
use crate::analyze::after_snapshot;
use crate::analyze::after_snapshots;
use crate::analyze::find_key;
use crate::analyze::key_fn;
use crate::analyze::keys_distinct;
use crate::analyze::lemma_find_key;
use crate::analyze::sat_add;
use crate::analyze::after_bundles;
use crate::analyze::bundles_work;
use crate::analyze::empty_accumulator;
use crate::analyze::events_work;
use crate::analyze::report_of;
use crate::analyze::segment_summary_of;
use crate::analyze::AccumulatorView;
use crate::analyze::SegmentAggregate;
use crate::analyze::SegmentAggregateView;
use crate::analyze::ToolCallKind;
use crate::analyze::TraceEvent;
use crate::analyze::PROMPT_OBSERVABILITY_SNAPSHOT_EVENT_KIND;
use crate::snapshot::segment_views;
use crate::snapshot::PromptObservabilitySnapshot;
use crate::snapshot::SegmentView;
use crate::report::ReportView;
use crate::report::SegmentSummaryView;
use crate::report::segment_summary_lt_fn;
use crate::report_properties::dispatched_name;
use crate::report_properties::flatten_events;
use crate::sorting::lemma_sort_stable_by_props;

verus! {

// ---------------------------------------------------------------------------
// What a history records.
// ---------------------------------------------------------------------------
/// Whether an event carries snapshots that are recorded.
pub open spec fn is_snapshot_event(event: TraceEvent) -> bool {
    event matches TraceEvent::Other { kind, .. } && kind@ == PROMPT_OBSERVABILITY_SNAPSHOT_EVENT_KIND@
}

/// The snapshots that an event makes the accumulator record.
pub open spec fn event_snapshots(event: TraceEvent) -> Seq<PromptObservabilitySnapshot> {
    match event {
        TraceEvent::Other { kind, snapshots } => if kind@ == PROMPT_OBSERVABILITY_SNAPSHOT_EVENT_KIND@ {
            snapshots@
        } else {
            Seq::empty()
        },
        _ => Seq::empty(),
    }
}

/// The snapshots recorded by events, in order.
pub open spec fn recorded_snapshots(events: Seq<TraceEvent>) -> Seq<PromptObservabilitySnapshot>
    decreases events.len(),
{
    if events.len() == 0 {
        Seq::empty()
    } else {
        recorded_snapshots(events.drop_last()) + event_snapshots(events.last())
    }
}

/// The prompt segments of snapshots, in order.
pub open spec fn snapshots_segments(snapshots: Seq<PromptObservabilitySnapshot>) -> Seq<SegmentView>
    decreases snapshots.len(),
{
    if snapshots.len() == 0 {
        Seq::empty()
    } else {
        snapshots_segments(snapshots.drop_last()) + segment_views(
            snapshots.last().prompt_segments@,
        )
    }
}

// ---------------------------------------------------------------------------
// Segments over a history.
// ---------------------------------------------------------------------------
/// How often a segment id occurs.
#[verifier::opaque]
pub open spec fn segment_count(segs: Seq<SegmentView>, id: Seq<char>) -> nat
    decreases segs.len(),
{
    if segs.len() == 0 {
        0
    } else {
        segment_count(segs.drop_last(), id) + if segs.last().segment_id == id {
            1nat
        } else {
            0
        }
    }
}

/// The token estimates of the occurrences of a segment id, summed in order
/// with each addition saturating at `usize::MAX`.
#[verifier::opaque]
pub open spec fn segment_total(segs: Seq<SegmentView>, id: Seq<char>) -> usize
    decreases segs.len(),
{
    if segs.len() == 0 {
        0
    } else if segs.last().segment_id == id {
        sat_add(segment_total(segs.drop_last(), id), segs.last().token_count_estimate)
    } else {
        segment_total(segs.drop_last(), id)
    }
}

/// The first occurrence of a segment id (meaningful when it occurs).
#[verifier::opaque]
pub open spec fn segment_first(segs: Seq<SegmentView>, id: Seq<char>) -> SegmentView
    decreases segs.len(),
{
    if segs.len() == 0 {
        arbitrary()
    } else if segment_count(segs.drop_last(), id) > 0 {
        segment_first(segs.drop_last(), id)
    } else {
        segs.last()
    }
}

/// The aggregate that a history gives a segment id: the category and
/// criticality of its first occurrence, its saturating token sum, and its
/// number of occurrences.
pub open spec fn expected_segment(segs: Seq<SegmentView>, id: Seq<char>) -> SegmentAggregateView {
    SegmentAggregateView {
        segment_id: id,
        category: segment_first(segs, id).category,
        criticality: segment_first(segs, id).criticality,
        token_count_estimate: segment_total(segs, id),
        occurrences: segment_count(segs, id) as usize,
    }
}

/// Segment aggregates that hold exactly the segment ids of `segs`, once
/// each, with what `expected_segment` gives them.
pub open spec fn segments_summarize(entries: Seq<SegmentAggregateView>, segs: Seq<SegmentView>) -> bool {
    &&& keys_distinct(entries, key_fn::<SegmentAggregate>())
    &&& forall|i: int|
        0 <= i < entries.len() ==> segment_count(segs, (#[trigger] entries[i]).segment_id) > 0
            && entries[i] == expected_segment(segs, entries[i].segment_id)
    &&& forall|id: Seq<char>|
        #[trigger] segment_recorded(segs, id) ==> exists|i: int|
            0 <= i < entries.len() && entries[i].segment_id == id
}

/// Whether a segment id occurs.
pub open spec fn segment_recorded(segs: Seq<SegmentView>, id: Seq<char>) -> bool {
    segment_count(segs, id) > 0
}

proof fn lemma_segment_count_bound(segs: Seq<SegmentView>, id: Seq<char>)
    ensures
        segment_count(segs, id) <= segs.len(),
    decreases segs.len(),
{
    reveal(segment_count);
    if segs.len() > 0 {
        lemma_segment_count_bound(segs.drop_last(), id);
    }
}

proof fn lemma_segment_push(dl: Seq<SegmentView>, x: SegmentView, id: Seq<char>)
    ensures
        id != x.segment_id ==> segment_count(dl.push(x), id) == segment_count(dl, id),
        id != x.segment_id && segment_count(dl, id) > 0 ==> expected_segment(dl.push(x), id)
            == expected_segment(dl, id),
        id == x.segment_id && segment_count(dl, id) > 0 ==> segment_count(dl.push(x), id)
            == segment_count(dl, id) + 1 && segment_first(dl.push(x), id) == segment_first(dl, id)
            && segment_total(dl.push(x), id) == sat_add(segment_total(dl, id), x.token_count_estimate),
        id == x.segment_id && segment_count(dl, id) == 0 ==> segment_count(dl.push(x), id) == 1
            && segment_first(dl.push(x), id) == x && segment_total(dl.push(x), id)
            == sat_add(segment_total(dl, id), x.token_count_estimate),
{
    reveal(segment_count);
    reveal(segment_total);
    reveal(segment_first);
    assert(dl.push(x).drop_last() == dl);
}

proof fn lemma_segment_total_zero(segs: Seq<SegmentView>, id: Seq<char>)
    requires
        segment_count(segs, id) == 0,
    ensures
        segment_total(segs, id) == 0,
    decreases segs.len(),
{
    reveal(segment_count);
    reveal(segment_total);
    if segs.len() > 0 {
        lemma_segment_total_zero(segs.drop_last(), id);
    }
}

#[verifier::rlimit(30)]
proof fn lemma_add_segment_found(prev: Seq<SegmentAggregateView>, dl: Seq<SegmentView>, x: SegmentView, j: int)
    requires
        segments_summarize(prev, dl),
        segment_count(dl, x.segment_id) < usize::MAX,
        find_key(prev, key_fn::<SegmentAggregate>(), x.segment_id) == Some(j),
    ensures
        segments_summarize(add_segment(prev, x), dl.push(x)),
{
    let segs = dl.push(x);
    let kf = key_fn::<SegmentAggregate>();
    let next = add_segment(prev, x);
    lemma_find_key(prev, kf, x.segment_id);
    lemma_segment_push(dl, x, x.segment_id);
    crate::analyze::lemma_keys_distinct_update(prev, kf, j, next[j]);
    assert forall|i: int| 0 <= i < next.len() implies segment_count(
        segs,
        (#[trigger] next[i]).segment_id,
    ) > 0 && next[i] == expected_segment(segs, next[i].segment_id) by {
        lemma_segment_push(dl, x, next[i].segment_id);
        if i != j {
            assert(next[i] == prev[i]);
            assert(kf(prev[i]) != kf(prev[j]));
        }
    }
    assert forall|id: Seq<char>| #[trigger] segment_recorded(segs, id) implies exists|i: int|
        0 <= i < next.len() && next[i].segment_id == id by {
        lemma_segment_push(dl, x, id);
        if id == x.segment_id {
            assert(next[j].segment_id == id);
        } else {
            assert(segment_recorded(dl, id));
            let i = choose|i: int| 0 <= i < prev.len() && prev[i].segment_id == id;
            assert(next[i].segment_id == id);
        }
    }
}

#[verifier::rlimit(30)]
proof fn lemma_add_segment_new(prev: Seq<SegmentAggregateView>, dl: Seq<SegmentView>, x: SegmentView)
    requires
        segments_summarize(prev, dl),
        find_key(prev, key_fn::<SegmentAggregate>(), x.segment_id) is None,
    ensures
        segments_summarize(add_segment(prev, x), dl.push(x)),
{
    let segs = dl.push(x);
    let kf = key_fn::<SegmentAggregate>();
    let next = add_segment(prev, x);
    lemma_find_key(prev, kf, x.segment_id);
    lemma_segment_push(dl, x, x.segment_id);
    assert(segment_count(dl, x.segment_id) == 0) by {
        if segment_count(dl, x.segment_id) > 0 {
            assert(segment_recorded(dl, x.segment_id));
            let i = choose|i: int| 0 <= i < prev.len() && prev[i].segment_id == x.segment_id;
            assert(kf(prev[i]) == x.segment_id);
        }
    }
    lemma_segment_total_zero(dl, x.segment_id);
    let added = next[prev.len() as int];
    crate::analyze::lemma_keys_distinct_push(prev, kf, added);
    assert forall|i: int| 0 <= i < next.len() implies segment_count(
        segs,
        (#[trigger] next[i]).segment_id,
    ) > 0 && next[i] == expected_segment(segs, next[i].segment_id) by {
        lemma_segment_push(dl, x, next[i].segment_id);
        if i < prev.len() {
            assert(next[i] == prev[i]);
            assert(kf(prev[i]) != x.segment_id);
        }
    }
    assert forall|id: Seq<char>| #[trigger] segment_recorded(segs, id) implies exists|i: int|
        0 <= i < next.len() && next[i].segment_id == id by {
        lemma_segment_push(dl, x, id);
        if id == x.segment_id {
            assert(next[prev.len() as int].segment_id == id);
        } else {
            assert(segment_recorded(dl, id));
            let i = choose|i: int| 0 <= i < prev.len() && prev[i].segment_id == id;
            assert(next[i].segment_id == id);
        }
    }
}

proof fn lemma_add_segment_step(prev: Seq<SegmentAggregateView>, dl: Seq<SegmentView>, x: SegmentView)
    requires
        segments_summarize(prev, dl),
        segment_count(dl, x.segment_id) < usize::MAX,
    ensures
        segments_summarize(add_segment(prev, x), dl.push(x)),
{
    match find_key(prev, key_fn::<SegmentAggregate>(), x.segment_id) {
        Some(j) => lemma_add_segment_found(prev, dl, x, j),
        None => lemma_add_segment_new(prev, dl, x),
    }
}

/// Adding segment occurrences one by one to no aggregates summarizes them.
pub proof fn lemma_add_segments_summarize(segs: Seq<SegmentView>)
    requires
        segs.len() <= usize::MAX,
    ensures
        segments_summarize(add_segments(Seq::empty(), segs), segs),
    decreases segs.len(),
{
    if segs.len() == 0 {
        assert forall|id: Seq<char>| !#[trigger] segment_recorded(segs, id) by {
            reveal(segment_count);
        }
    } else {
        let dl = segs.drop_last();
        lemma_add_segments_summarize(dl);
        lemma_segment_count_bound(dl, segs.last().segment_id);
        assert(dl.push(segs.last()) == segs);
        lemma_add_segment_step(add_segments(Seq::empty(), dl), dl, segs.last());
    }
}

// ---------------------------------------------------------------------------
// Search results over a history.
// ---------------------------------------------------------------------------
/// The key under which a search result is counted.
pub open spec fn skey(n: LoadableNameView) -> Seq<char> {
    crate::report::tool_key(n.namespace, n.name)
}

/// How often a tool key occurs.
#[verifier::opaque]
pub open spec fn search_count(names: Seq<LoadableNameView>, id: Seq<char>) -> nat
    decreases names.len(),
{
    if names.len() == 0 {
        0
    } else {
        search_count(names.drop_last(), id) + if skey(names.last()) == id {
            1nat
        } else {
            0
        }
    }
}


/// The first occurrence of a tool key (meaningful when it occurs).
#[verifier::opaque]
pub open spec fn search_first(names: Seq<LoadableNameView>, id: Seq<char>) -> LoadableNameView
    decreases names.len(),
{
    if names.len() == 0 {
        arbitrary()
    } else if search_count(names.drop_last(), id) > 0 {
        search_first(names.drop_last(), id)
    } else {
        names.last()
    }
}

/// The aggregate that a history gives a tool key: the name and namespace of
/// its first search result, and its number of search results.
pub open spec fn expected_search(names: Seq<LoadableNameView>, id: Seq<char>) -> DeferredSearchAggregateView {
    DeferredSearchAggregateView {
        key: id,
        name: search_first(names, id).name,
        namespace: search_first(names, id).namespace,
        search_result_count: search_count(names, id) as usize,
    }
}

/// Search aggregates that hold exactly the tool keys of `names`, once
/// each, with what `expected_search` gives them.
pub open spec fn searches_summarize(entries: Seq<DeferredSearchAggregateView>, names: Seq<LoadableNameView>) -> bool {
    &&& keys_distinct(entries, key_fn::<DeferredSearchAggregate>())
    &&& forall|i: int|
        0 <= i < entries.len() ==> search_count(names, (#[trigger] entries[i]).key) > 0
            && entries[i] == expected_search(names, entries[i].key)
    &&& forall|id: Seq<char>|
        #[trigger] search_recorded(names, id) ==> exists|i: int|
            0 <= i < entries.len() && entries[i].key == id
}

/// Whether a tool key occurs.
pub open spec fn search_recorded(names: Seq<LoadableNameView>, id: Seq<char>) -> bool {
    search_count(names, id) > 0
}

proof fn lemma_search_count_bound(names: Seq<LoadableNameView>, id: Seq<char>)
    ensures
        search_count(names, id) <= names.len(),
    decreases names.len(),
{
    reveal(search_count);
    if names.len() > 0 {
        lemma_search_count_bound(names.drop_last(), id);
    }
}

proof fn lemma_search_push(dl: Seq<LoadableNameView>, x: LoadableNameView, id: Seq<char>)
    ensures
        id != skey(x) ==> search_count(dl.push(x), id) == search_count(dl, id),
        id != skey(x) && search_count(dl, id) > 0 ==> expected_search(dl.push(x), id)
            == expected_search(dl, id),
        id == skey(x) && search_count(dl, id) > 0 ==> search_count(dl.push(x), id)
            == search_count(dl, id) + 1 && search_first(dl.push(x), id) == search_first(dl, id),
        id == skey(x) && search_count(dl, id) == 0 ==> search_count(dl.push(x), id) == 1
            && search_first(dl.push(x), id) == x,
{
    reveal(search_count);
    reveal(search_first);
    assert(dl.push(x).drop_last() == dl);
}


#[verifier::rlimit(30)]
proof fn lemma_add_search_found(prev: Seq<DeferredSearchAggregateView>, dl: Seq<LoadableNameView>, x: LoadableNameView, j: int)
    requires
        searches_summarize(prev, dl),
        search_count(dl, skey(x)) < usize::MAX,
        find_key(prev, key_fn::<DeferredSearchAggregate>(), skey(x)) == Some(j),
    ensures
        searches_summarize(add_search(prev, x), dl.push(x)),
{
    let names = dl.push(x);
    let kf = key_fn::<DeferredSearchAggregate>();
    let next = add_search(prev, x);
    lemma_find_key(prev, kf, skey(x));
    lemma_search_push(dl, x, skey(x));
    crate::analyze::lemma_keys_distinct_update(prev, kf, j, next[j]);
    assert forall|i: int| 0 <= i < next.len() implies search_count(
        names,
        (#[trigger] next[i]).key,
    ) > 0 && next[i] == expected_search(names, next[i].key) by {
        lemma_search_push(dl, x, next[i].key);
        if i != j {
            assert(next[i] == prev[i]);
            assert(kf(prev[i]) != kf(prev[j]));
        }
    }
    assert forall|id: Seq<char>| #[trigger] search_recorded(names, id) implies exists|i: int|
        0 <= i < next.len() && next[i].key == id by {
        lemma_search_push(dl, x, id);
        if id == skey(x) {
            assert(next[j].key == id);
        } else {
            assert(search_recorded(dl, id));
            let i = choose|i: int| 0 <= i < prev.len() && prev[i].key == id;
            assert(next[i].key == id);
        }
    }
}

#[verifier::rlimit(30)]
proof fn lemma_add_search_new(prev: Seq<DeferredSearchAggregateView>, dl: Seq<LoadableNameView>, x: LoadableNameView)
    requires
        searches_summarize(prev, dl),
        find_key(prev, key_fn::<DeferredSearchAggregate>(), skey(x)) is None,
    ensures
        searches_summarize(add_search(prev, x), dl.push(x)),
{
    let names = dl.push(x);
    let kf = key_fn::<DeferredSearchAggregate>();
    let next = add_search(prev, x);
    lemma_find_key(prev, kf, skey(x));
    lemma_search_push(dl, x, skey(x));
    assert(search_count(dl, skey(x)) == 0) by {
        if search_count(dl, skey(x)) > 0 {
            assert(search_recorded(dl, skey(x)));
            let i = choose|i: int| 0 <= i < prev.len() && prev[i].key == skey(x);
            assert(kf(prev[i]) == skey(x));
        }
    }
    let added = next[prev.len() as int];
    crate::analyze::lemma_keys_distinct_push(prev, kf, added);
    assert forall|i: int| 0 <= i < next.len() implies search_count(
        names,
        (#[trigger] next[i]).key,
    ) > 0 && next[i] == expected_search(names, next[i].key) by {
        lemma_search_push(dl, x, next[i].key);
        if i < prev.len() {
            assert(next[i] == prev[i]);
            assert(kf(prev[i]) != skey(x));
        }
    }
    assert forall|id: Seq<char>| #[trigger] search_recorded(names, id) implies exists|i: int|
        0 <= i < next.len() && next[i].key == id by {
        lemma_search_push(dl, x, id);
        if id == skey(x) {
            assert(next[prev.len() as int].key == id);
        } else {
            assert(search_recorded(dl, id));
            let i = choose|i: int| 0 <= i < prev.len() && prev[i].key == id;
            assert(next[i].key == id);
        }
    }
}

proof fn lemma_add_search_step(prev: Seq<DeferredSearchAggregateView>, dl: Seq<LoadableNameView>, x: LoadableNameView)
    requires
        searches_summarize(prev, dl),
        search_count(dl, skey(x)) < usize::MAX,
    ensures
        searches_summarize(add_search(prev, x), dl.push(x)),
{
    match find_key(prev, key_fn::<DeferredSearchAggregate>(), skey(x)) {
        Some(j) => lemma_add_search_found(prev, dl, x, j),
        None => lemma_add_search_new(prev, dl, x),
    }
}

/// Counting search results one by one to no aggregates summarizes them.
pub proof fn lemma_add_searches_summarize(names: Seq<LoadableNameView>)
    requires
        names.len() <= usize::MAX,
    ensures
        searches_summarize(add_searches(Seq::empty(), names), names),
    decreases names.len(),
{
    if names.len() == 0 {
        assert forall|id: Seq<char>| !#[trigger] search_recorded(names, id) by {
            reveal(search_count);
        }
    } else {
        let dl = names.drop_last();
        lemma_add_searches_summarize(dl);
        lemma_search_count_bound(dl, skey(names.last()));
        assert(dl.push(names.last()) == names);
        lemma_add_search_step(add_searches(Seq::empty(), dl), dl, names.last());
    }
}

// ---------------------------------------------------------------------------
// Tools over a history.
// ---------------------------------------------------------------------------
/// How often a tool id occurs.
#[verifier::opaque]
pub open spec fn tool_count(tools: Seq<ToolView>, id: Seq<char>) -> nat
    decreases tools.len(),
{
    if tools.len() == 0 {
        0
    } else {
        tool_count(tools.drop_last(), id) + if tools.last().tool_id == id {
            1nat
        } else {
            0
        }
    }
}

/// The token estimates of the exposures of a tool id, summed in order
/// with each addition saturating at `usize::MAX`.
#[verifier::opaque]
pub open spec fn tool_total(tools: Seq<ToolView>, id: Seq<char>) -> usize
    decreases tools.len(),
{
    if tools.len() == 0 {
        0
    } else if tools.last().tool_id == id {
        sat_add(tool_total(tools.drop_last(), id), tools.last().token_count_estimate)
    } else {
        tool_total(tools.drop_last(), id)
    }
}

/// The first exposure of a tool id (meaningful when it was exposed).
#[verifier::opaque]
pub open spec fn tool_first(tools: Seq<ToolView>, id: Seq<char>) -> ToolView
    decreases tools.len(),
{
    if tools.len() == 0 {
        arbitrary()
    } else if tool_count(tools.drop_last(), id) > 0 {
        tool_first(tools.drop_last(), id)
    } else {
        tools.last()
    }
}

/// The aggregate that a history gives a tool id: the name, namespace and
/// exposure of its first exposure, its saturating token sum, and its number of
/// exposures.
pub open spec fn expected_tool(tools: Seq<ToolView>, id: Seq<char>) -> ToolAggregateView {
    ToolAggregateView {
        tool_id: id,
        name: tool_first(tools, id).name,
        namespace: tool_first(tools, id).namespace,
        exposure: tool_first(tools, id).exposure,
        token_count_estimate: tool_total(tools, id),
        exposed_count: tool_count(tools, id) as usize,
    }
}

/// Tool aggregates that hold exactly the tool ids of `tools`, once
/// each, with what `expected_tool` gives them.
pub open spec fn tools_summarize(entries: Seq<ToolAggregateView>, tools: Seq<ToolView>) -> bool {
    &&& keys_distinct(entries, key_fn::<ToolAggregate>())
    &&& forall|i: int|
        0 <= i < entries.len() ==> tool_count(tools, (#[trigger] entries[i]).tool_id) > 0
            && entries[i] == expected_tool(tools, entries[i].tool_id)
    &&& forall|id: Seq<char>|
        #[trigger] tool_recorded(tools, id) ==> exists|i: int|
            0 <= i < entries.len() && entries[i].tool_id == id
}

/// Whether a tool id occurs.
pub open spec fn tool_recorded(tools: Seq<ToolView>, id: Seq<char>) -> bool {
    tool_count(tools, id) > 0
}

proof fn lemma_tool_count_bound(tools: Seq<ToolView>, id: Seq<char>)
    ensures
        tool_count(tools, id) <= tools.len(),
    decreases tools.len(),
{
    reveal(tool_count);
    if tools.len() > 0 {
        lemma_tool_count_bound(tools.drop_last(), id);
    }
}

proof fn lemma_tool_push(dl: Seq<ToolView>, x: ToolView, id: Seq<char>)
    ensures
        id != x.tool_id ==> tool_count(dl.push(x), id) == tool_count(dl, id),
        id != x.tool_id && tool_count(dl, id) > 0 ==> expected_tool(dl.push(x), id)
            == expected_tool(dl, id),
        id == x.tool_id && tool_count(dl, id) > 0 ==> tool_count(dl.push(x), id)
            == tool_count(dl, id) + 1 && tool_first(dl.push(x), id) == tool_first(dl, id)
            && tool_total(dl.push(x), id) == sat_add(tool_total(dl, id), x.token_count_estimate),
        id == x.tool_id && tool_count(dl, id) == 0 ==> tool_count(dl.push(x), id) == 1
            && tool_first(dl.push(x), id) == x && tool_total(dl.push(x), id)
            == sat_add(tool_total(dl, id), x.token_count_estimate),
{
    reveal(tool_count);
    reveal(tool_total);
    reveal(tool_first);
    assert(dl.push(x).drop_last() == dl);
}

proof fn lemma_tool_total_zero(tools: Seq<ToolView>, id: Seq<char>)
    requires
        tool_count(tools, id) == 0,
    ensures
        tool_total(tools, id) == 0,
    decreases tools.len(),
{
    reveal(tool_count);
    reveal(tool_total);
    if tools.len() > 0 {
        lemma_tool_total_zero(tools.drop_last(), id);
    }
}

#[verifier::rlimit(30)]
proof fn lemma_add_tool_found(prev: Seq<ToolAggregateView>, dl: Seq<ToolView>, x: ToolView, j: int)
    requires
        tools_summarize(prev, dl),
        tool_count(dl, x.tool_id) < usize::MAX,
        find_key(prev, key_fn::<ToolAggregate>(), x.tool_id) == Some(j),
    ensures
        tools_summarize(add_tool(prev, x), dl.push(x)),
{
    let tools = dl.push(x);
    let kf = key_fn::<ToolAggregate>();
    let next = add_tool(prev, x);
    lemma_find_key(prev, kf, x.tool_id);
    lemma_tool_push(dl, x, x.tool_id);
    crate::analyze::lemma_keys_distinct_update(prev, kf, j, next[j]);
    assert forall|i: int| 0 <= i < next.len() implies tool_count(
        tools,
        (#[trigger] next[i]).tool_id,
    ) > 0 && next[i] == expected_tool(tools, next[i].tool_id) by {
        lemma_tool_push(dl, x, next[i].tool_id);
        if i != j {
            assert(next[i] == prev[i]);
            assert(kf(prev[i]) != kf(prev[j]));
        }
    }
    assert forall|id: Seq<char>| #[trigger] tool_recorded(tools, id) implies exists|i: int|
        0 <= i < next.len() && next[i].tool_id == id by {
        lemma_tool_push(dl, x, id);
        if id == x.tool_id {
            assert(next[j].tool_id == id);
        } else {
            assert(tool_recorded(dl, id));
            let i = choose|i: int| 0 <= i < prev.len() && prev[i].tool_id == id;
            assert(next[i].tool_id == id);
        }
    }
}

#[verifier::rlimit(30)]
proof fn lemma_add_tool_new(prev: Seq<ToolAggregateView>, dl: Seq<ToolView>, x: ToolView)
    requires
        tools_summarize(prev, dl),
        find_key(prev, key_fn::<ToolAggregate>(), x.tool_id) is None,
    ensures
        tools_summarize(add_tool(prev, x), dl.push(x)),
{
    let tools = dl.push(x);
    let kf = key_fn::<ToolAggregate>();
    let next = add_tool(prev, x);
    lemma_find_key(prev, kf, x.tool_id);
    lemma_tool_push(dl, x, x.tool_id);
    assert(tool_count(dl, x.tool_id) == 0) by {
        if tool_count(dl, x.tool_id) > 0 {
            assert(tool_recorded(dl, x.tool_id));
            let i = choose|i: int| 0 <= i < prev.len() && prev[i].tool_id == x.tool_id;
            assert(kf(prev[i]) == x.tool_id);
        }
    }
    lemma_tool_total_zero(dl, x.tool_id);
    let added = next[prev.len() as int];
    crate::analyze::lemma_keys_distinct_push(prev, kf, added);
    assert forall|i: int| 0 <= i < next.len() implies tool_count(
        tools,
        (#[trigger] next[i]).tool_id,
    ) > 0 && next[i] == expected_tool(tools, next[i].tool_id) by {
        lemma_tool_push(dl, x, next[i].tool_id);
        if i < prev.len() {
            assert(next[i] == prev[i]);
            assert(kf(prev[i]) != x.tool_id);
        }
    }
    assert forall|id: Seq<char>| #[trigger] tool_recorded(tools, id) implies exists|i: int|
        0 <= i < next.len() && next[i].tool_id == id by {
        lemma_tool_push(dl, x, id);
        if id == x.tool_id {
            assert(next[prev.len() as int].tool_id == id);
        } else {
            assert(tool_recorded(dl, id));
            let i = choose|i: int| 0 <= i < prev.len() && prev[i].tool_id == id;
            assert(next[i].tool_id == id);
        }
    }
}

proof fn lemma_add_tool_step(prev: Seq<ToolAggregateView>, dl: Seq<ToolView>, x: ToolView)
    requires
        tools_summarize(prev, dl),
        tool_count(dl, x.tool_id) < usize::MAX,
    ensures
        tools_summarize(add_tool(prev, x), dl.push(x)),
{
    match find_key(prev, key_fn::<ToolAggregate>(), x.tool_id) {
        Some(j) => lemma_add_tool_found(prev, dl, x, j),
        None => lemma_add_tool_new(prev, dl, x),
    }
}

/// Adding tool exposures one by one to no aggregates summarizes them.
pub proof fn lemma_add_tools_summarize(tools: Seq<ToolView>)
    requires
        tools.len() <= usize::MAX,
    ensures
        tools_summarize(add_tools(Seq::empty(), tools), tools),
    decreases tools.len(),
{
    if tools.len() == 0 {
        assert forall|id: Seq<char>| !#[trigger] tool_recorded(tools, id) by {
            reveal(tool_count);
        }
    } else {
        let dl = tools.drop_last();
        lemma_add_tools_summarize(dl);
        lemma_tool_count_bound(dl, tools.last().tool_id);
        assert(dl.push(tools.last()) == tools);
        lemma_add_tool_step(add_tools(Seq::empty(), dl), dl, tools.last());
    }
}

// ---------------------------------------------------------------------------
// From events to what they record.
// ---------------------------------------------------------------------------
/// The prompt segments recorded by events, in order.
pub open spec fn recorded_segments(events: Seq<TraceEvent>) -> Seq<SegmentView>
    decreases events.len(),
{
    if events.len() == 0 {
        Seq::empty()
    } else {
        recorded_segments(events.drop_last()) + snapshots_segments(event_snapshots(events.last()))
    }
}

proof fn lemma_add_segments_append(e: Seq<SegmentAggregateView>, a: Seq<SegmentView>, b: Seq<SegmentView>)
    ensures
        add_segments(e, a + b) == add_segments(add_segments(e, a), b),
    decreases b.len(),
{
    if b.len() == 0 {
        assert(a + b == a);
    } else {
        lemma_add_segments_append(e, a, b.drop_last());
        assert((a + b).drop_last() == a + b.drop_last());
        assert((a + b).last() == b.last());
    }
}

proof fn lemma_after_snapshots_segments(v: AccumulatorView, snapshots: Seq<PromptObservabilitySnapshot>)
    ensures
        after_snapshots(v, snapshots).segments == add_segments(v.segments, snapshots_segments(snapshots)),
        snapshots_segments(snapshots).len() <= crate::analyze::snapshots_work(snapshots),
    decreases snapshots.len(),
{
    if snapshots.len() > 0 {
        let dl = snapshots.drop_last();
        lemma_after_snapshots_segments(v, dl);
        lemma_add_segments_append(
            v.segments,
            snapshots_segments(dl),
            segment_views(snapshots.last().prompt_segments@),
        );
    } else {
        assert(add_segments(v.segments, Seq::empty()) == v.segments);
    }
}

proof fn lemma_after_event_segments(v: AccumulatorView, event: TraceEvent)
    ensures
        after_event(v, event).segments == add_segments(
            v.segments,
            snapshots_segments(event_snapshots(event)),
        ),
        snapshots_segments(event_snapshots(event)).len() <= crate::analyze::event_work(event),
{
    match event {
        TraceEvent::Other { kind, snapshots } => {
            lemma_after_snapshots_segments(v, snapshots@);
            if kind@ != PROMPT_OBSERVABILITY_SNAPSHOT_EVENT_KIND@ {
                assert(snapshots_segments(Seq::<PromptObservabilitySnapshot>::empty()) == Seq::<SegmentView>::empty());
            }
        },
        _ => {
            assert(snapshots_segments(Seq::<PromptObservabilitySnapshot>::empty()) == Seq::<SegmentView>::empty());
        },
    }
}

/// Recording events adds, in order, the prompt segments of the snapshots that
/// they record.
pub proof fn events_record_their_segments(v: AccumulatorView, events: Seq<TraceEvent>)
    ensures
        after_events(v, events).segments == add_segments(v.segments, recorded_segments(events)),
        recorded_segments(events).len() <= crate::analyze::events_work(events),
    decreases events.len(),
{
    if events.len() > 0 {
        let dl = events.drop_last();
        events_record_their_segments(v, dl);
        lemma_after_event_segments(after_events(v, dl), events.last());
        lemma_add_segments_append(
            v.segments,
            recorded_segments(dl),
            snapshots_segments(event_snapshots(events.last())),
        );
    }
}

/// The tool exposures of snapshots, in order.
pub open spec fn snapshots_tools(snapshots: Seq<PromptObservabilitySnapshot>) -> Seq<ToolView>
    decreases snapshots.len(),
{
    if snapshots.len() == 0 {
        Seq::empty()
    } else {
        snapshots_tools(snapshots.drop_last()) + tool_views(snapshots.last().tools@)
    }
}

/// The tool exposures recorded by events, in order.
pub open spec fn recorded_tools(events: Seq<TraceEvent>) -> Seq<ToolView>
    decreases events.len(),
{
    if events.len() == 0 {
        Seq::empty()
    } else {
        recorded_tools(events.drop_last()) + snapshots_tools(event_snapshots(events.last()))
    }
}

proof fn lemma_add_tools_append(e: Seq<ToolAggregateView>, a: Seq<ToolView>, b: Seq<ToolView>)
    ensures
        add_tools(e, a + b) == add_tools(add_tools(e, a), b),
    decreases b.len(),
{
    if b.len() == 0 {
        assert(a + b == a);
    } else {
        lemma_add_tools_append(e, a, b.drop_last());
        assert((a + b).drop_last() == a + b.drop_last());
        assert((a + b).last() == b.last());
    }
}

proof fn lemma_after_snapshots_tools(v: AccumulatorView, snapshots: Seq<PromptObservabilitySnapshot>)
    ensures
        after_snapshots(v, snapshots).tools == add_tools(v.tools, snapshots_tools(snapshots)),
        snapshots_tools(snapshots).len() <= crate::analyze::snapshots_work(snapshots),
    decreases snapshots.len(),
{
    if snapshots.len() > 0 {
        let dl = snapshots.drop_last();
        lemma_after_snapshots_tools(v, dl);
        lemma_add_tools_append(
            v.tools,
            snapshots_tools(dl),
            tool_views(snapshots.last().tools@),
        );
    } else {
        assert(add_tools(v.tools, Seq::empty()) == v.tools);
    }
}

proof fn lemma_after_event_tools(v: AccumulatorView, event: TraceEvent)
    ensures
        after_event(v, event).tools == add_tools(
            v.tools,
            snapshots_tools(event_snapshots(event)),
        ),
        snapshots_tools(event_snapshots(event)).len() <= crate::analyze::event_work(event),
{
    match event {
        TraceEvent::Other { kind, snapshots } => {
            lemma_after_snapshots_tools(v, snapshots@);
            if kind@ != PROMPT_OBSERVABILITY_SNAPSHOT_EVENT_KIND@ {
                assert(snapshots_tools(Seq::<PromptObservabilitySnapshot>::empty()) == Seq::<ToolView>::empty());
            }
        },
        _ => {
            assert(snapshots_tools(Seq::<PromptObservabilitySnapshot>::empty()) == Seq::<ToolView>::empty());
        },
    }
}

/// Recording events adds, in order, the tool exposures of the snapshots that
/// they record.
pub proof fn events_record_their_tools(v: AccumulatorView, events: Seq<TraceEvent>)
    ensures
        after_events(v, events).tools == add_tools(v.tools, recorded_tools(events)),
        recorded_tools(events).len() <= crate::analyze::events_work(events),
    decreases events.len(),
{
    if events.len() > 0 {
        let dl = events.drop_last();
        events_record_their_tools(v, dl);
        lemma_after_event_tools(after_events(v, dl), events.last());
        lemma_add_tools_append(
            v.tools,
            recorded_tools(dl),
            snapshots_tools(event_snapshots(events.last())),
        );
    }
}

// ---------------------------------------------------------------------------
// Whole traces.
// ---------------------------------------------------------------------------
/// The report of a trace of bundles.
pub open spec fn trace_report(bundles: Seq<Vec<TraceEvent>>) -> ReportView {
    report_of(after_bundles(empty_accumulator(), bundles), bundles.len() as usize)
}

/// Whether some event of `events` dispatches a tool call.
pub open spec fn some_call_dispatched(events: Seq<TraceEvent>) -> bool {
    exists|i: int, name: Seq<char>| 0 <= i < events.len() && #[trigger] dispatched_name(events[i], name)
}

proof fn lemma_events_work_append(a: Seq<TraceEvent>, b: Seq<TraceEvent>)
    ensures
        events_work(a + b) == events_work(a) + events_work(b),
    decreases b.len(),
{
    if b.len() == 0 {
        assert(a + b == a);
    } else {
        lemma_events_work_append(a, b.drop_last());
        assert((a + b).drop_last() == a + b.drop_last());
        assert((a + b).last() == b.last());
    }
}

proof fn lemma_flatten_work(bundles: Seq<Vec<TraceEvent>>)
    ensures
        events_work(flatten_events(bundles)) == bundles_work(bundles),
    decreases bundles.len(),
{
    if bundles.len() > 0 {
        lemma_flatten_work(bundles.drop_last());
        lemma_events_work_append(flatten_events(bundles.drop_last()), bundles.last()@);
    }
}

proof fn lemma_no_dispatch_keeps_calls(v: AccumulatorView, event: TraceEvent)
    requires
        forall|name: Seq<char>| !dispatched_name(event, name),
    ensures
        after_event(v, event).called_tools == v.called_tools,
{
    match event {
        TraceEvent::Other { kind, snapshots } => {
            crate::report_properties::lemma_after_snapshots_keep_calls(v, snapshots@);
        },
        TraceEvent::ToolCallStarted { kind, invocation } => {
            match invocation {
                Some(inv) => {
                    match inv.tool_name {
                        Some(n) => {
                            assert(dispatched_name(event, n@));
                        },
                        None => {
                            assert(!dispatched_name(event, "tool_search"@));
                        },
                    }
                },
                None => {
                    match kind {
                        ToolCallKind::Mcp { server, tool } => {
                            assert(dispatched_name(event, tool@));
                        },
                        ToolCallKind::Other { name } => {
                            assert(dispatched_name(event, name@));
                        },
                        ToolCallKind::Unknown => {},
                        ToolCallKind::ExecCommand => {
                            assert(dispatched_name(event, "local_shell"@));
                        },
                        ToolCallKind::WriteStdin => {
                            assert(dispatched_name(event, "write_stdin"@));
                        },
                        ToolCallKind::ApplyPatch => {
                            assert(dispatched_name(event, "apply_patch"@));
                        },
                        ToolCallKind::Web => {
                            assert(dispatched_name(event, "web_search"@));
                        },
                        ToolCallKind::ImageGeneration => {
                            assert(dispatched_name(event, "image_generation"@));
                        },
                        ToolCallKind::SpawnAgent => {
                            assert(dispatched_name(event, "spawn_agent"@));
                        },
                        ToolCallKind::AssignAgentTask => {
                            assert(dispatched_name(event, "assign_agent_task"@));
                        },
                        ToolCallKind::SendMessage => {
                            assert(dispatched_name(event, "send_message"@));
                        },
                        ToolCallKind::WaitAgent => {
                            assert(dispatched_name(event, "wait_agent"@));
                        },
                        ToolCallKind::CloseAgent => {
                            assert(dispatched_name(event, "close_agent"@));
                        },
                    }
                },
            }
        },
        TraceEvent::ToolCallEnded { result } => {},
        TraceEvent::Ignored => {},
    }
}

proof fn lemma_calls_iff_dispatched(events: Seq<TraceEvent>)
    requires
        events_work(events) <= usize::MAX,
    ensures
        (after_events(empty_accumulator(), events).called_tools.len() > 0) == some_call_dispatched(events),
    decreases events.len(),
{
    let e = empty_accumulator();
    if some_call_dispatched(events) {
        let (i, name) = choose|i: int, name: Seq<char>|
            0 <= i < events.len() && #[trigger] dispatched_name(events[i], name);
        crate::report_properties::lemma_events_calls(e, events, name);
        let calls = after_events(e, events).called_tools;
        lemma_find_key(calls, key_fn::<crate::analyze::CallCount>(), name);
    } else if events.len() > 0 {
        let dl = events.drop_last();
        assert(!some_call_dispatched(dl)) by {
            if some_call_dispatched(dl) {
                let (i, name) = choose|i: int, name: Seq<char>|
                    0 <= i < dl.len() && #[trigger] dispatched_name(dl[i], name);
                assert(events[i] == dl[i]);
            }
        }
        lemma_calls_iff_dispatched(dl);
        assert forall|name: Seq<char>| !dispatched_name(events.last(), name) by {
            if dispatched_name(events.last(), name) {
                assert(dispatched_name(events[events.len() - 1], name));
            }
        }
        lemma_no_dispatch_keeps_calls(after_events(e, dl), events.last());
    }
}

/// Over any trace the report lists each recorded segment id exactly once, in
/// its order; each line holds the category and criticality of the id's first
/// occurrence, the saturating sum of its token estimates, its number of
/// occurrences, and the evidence of its category given whether any tool call
/// was dispatched in the trace.
pub proof fn report_segments_follow_history(bundles: Seq<Vec<TraceEvent>>)
    requires
        bundles_work(bundles) <= usize::MAX,
    ensures
        forall|id: Seq<char>|
            #[trigger] segment_recorded(recorded_segments(flatten_events(bundles)), id) <==> exists|j: int|
                0 <= j < trace_report(bundles).top_token_heavy_segments.len()
                    && trace_report(bundles).top_token_heavy_segments[j].segment_id == id,
        forall|j: int|
            0 <= j < trace_report(bundles).top_token_heavy_segments.len() ==> #[trigger] trace_report(
                bundles,
            ).top_token_heavy_segments[j] == segment_summary_of(
                expected_segment(
                    recorded_segments(flatten_events(bundles)),
                    trace_report(bundles).top_token_heavy_segments[j].segment_id,
                ),
                some_call_dispatched(flatten_events(bundles)),
            ),
        forall|i: int, j: int|
            0 <= i < j < trace_report(bundles).top_token_heavy_segments.len() ==> (
            #[trigger] trace_report(bundles).top_token_heavy_segments[i]).segment_id != (
            #[trigger] trace_report(bundles).top_token_heavy_segments[j]).segment_id,
{
    broadcast use vstd::seq_lib::group_to_multiset_ensures;

    let e = empty_accumulator();
    let f = flatten_events(bundles);
    let v = after_bundles(e, bundles);
    crate::report_properties::bundle_boundaries_do_not_matter(e, bundles);
    lemma_flatten_work(bundles);
    events_record_their_segments(e, f);
    let segs = recorded_segments(f);
    assert(add_segments(e.segments, segs) == add_segments(Seq::empty(), segs));
    lemma_add_segments_summarize(segs);
    lemma_calls_iff_dispatched(f);
    let called = v.called_tools.len() > 0;
    let unsorted = v.segments.map_values(
        |x: SegmentAggregateView| segment_summary_of(x, called),
    );
    crate::report_properties::lemma_report_orders_strict();
    lemma_sort_stable_by_props(unsorted, segment_summary_lt_fn());
    let r = trace_report(bundles);
    let top = r.top_token_heavy_segments;
    assert forall|j: int| 0 <= j < top.len() implies #[trigger] top[j] == segment_summary_of(
        expected_segment(segs, top[j].segment_id),
        some_call_dispatched(f),
    ) && segment_recorded(segs, top[j].segment_id) by {
        assert(top.contains(top[j]));
        assert(top.to_multiset().count(top[j]) > 0);
        assert(unsorted.to_multiset().count(top[j]) > 0);
        let k = choose|k: int| 0 <= k < unsorted.len() && unsorted[k] == top[j];
        assert(v.segments[k] == expected_segment(segs, v.segments[k].segment_id));
    }
    assert forall|id: Seq<char>| #[trigger] segment_recorded(segs, id) implies exists|j: int|
        0 <= j < top.len() && top[j].segment_id == id by {
        let k = choose|k: int| 0 <= k < v.segments.len() && v.segments[k].segment_id == id;
        assert(unsorted.contains(unsorted[k]));
        assert(unsorted.to_multiset().count(unsorted[k]) > 0);
        assert(top.to_multiset().count(unsorted[k]) > 0);
        let j = choose|j: int| 0 <= j < top.len() && top[j] == unsorted[k];
        assert(top[j].segment_id == id);
    }
    assert forall|id: Seq<char>| (exists|j: int| 0 <= j < top.len() && top[j].segment_id == id)
        implies #[trigger] segment_recorded(segs, id) by {
        let j = choose|j: int| 0 <= j < top.len() && top[j].segment_id == id;
        assert(top[j] == top[j]);
    }
    let seg_key = |s: SegmentSummaryView| s.segment_id;
    assert(keys_distinct(unsorted, seg_key)) by {
        assert forall|i: int, j: int| 0 <= i < j < unsorted.len() implies seg_key(#[trigger] unsorted[i])
            != seg_key(#[trigger] unsorted[j]) by {
            assert(key_fn::<SegmentAggregate>()(v.segments[i]) != key_fn::<SegmentAggregate>()(
                v.segments[j],
            ));
        }
    }
    crate::report_properties::lemma_sort_keeps_keys_distinct(unsorted, segment_summary_lt_fn(), seg_key);
    assert forall|i: int, j: int| 0 <= i < j < top.len() implies (#[trigger] top[i]).segment_id != (
    #[trigger] top[j]).segment_id by {
        assert(seg_key(top[i]) != seg_key(top[j]));
    }
}

// ---------------------------------------------------------------------------
// Chains over a history.
// ---------------------------------------------------------------------------
/// How often a chain id was recorded with a status.
#[verifier::opaque]
pub open spec fn chain_status_count(chains: Seq<ChainView>, id: Seq<char>, status: ChainStatus) -> nat
    decreases chains.len(),
{
    if chains.len() == 0 {
        0
    } else {
        chain_status_count(chains.drop_last(), id, status) + if chains.last().chain_id == id
            && chains.last().status == status {
            1nat
        } else {
            0
        }
    }
}

/// Whether a chain id was recorded.
pub open spec fn chain_recorded(chains: Seq<ChainView>, id: Seq<char>) -> bool {
    chain_status_count(chains, id, ChainStatus::Entered) + chain_status_count(
        chains,
        id,
        ChainStatus::Skipped,
    ) + chain_status_count(chains, id, ChainStatus::Fallback) > 0
}

/// The aggregate that a history gives a chain id: how often it was entered,
/// skipped and fell back.
pub open spec fn expected_chain(chains: Seq<ChainView>, id: Seq<char>) -> ChainAggregateView {
    ChainAggregateView {
        chain_id: id,
        entered: chain_status_count(chains, id, ChainStatus::Entered) as usize,
        skipped: chain_status_count(chains, id, ChainStatus::Skipped) as usize,
        fallback: chain_status_count(chains, id, ChainStatus::Fallback) as usize,
    }
}

/// Chain aggregates that hold exactly the chain ids of `chains`, once each,
/// with what `expected_chain` gives them.
pub open spec fn chains_summarize(entries: Seq<ChainAggregateView>, chains: Seq<ChainView>) -> bool {
    &&& keys_distinct(entries, key_fn::<ChainAggregate>())
    &&& forall|i: int|
        0 <= i < entries.len() ==> chain_recorded(chains, (#[trigger] entries[i]).chain_id)
            && entries[i] == expected_chain(chains, entries[i].chain_id)
    &&& forall|id: Seq<char>|
        #[trigger] chain_recorded(chains, id) ==> exists|i: int|
            0 <= i < entries.len() && entries[i].chain_id == id
}

proof fn lemma_chain_count_bound(chains: Seq<ChainView>, id: Seq<char>, status: ChainStatus)
    ensures
        chain_status_count(chains, id, status) <= chains.len(),
    decreases chains.len(),
{
    reveal(chain_status_count);
    if chains.len() > 0 {
        lemma_chain_count_bound(chains.drop_last(), id, status);
    }
}

proof fn lemma_chain_push(dl: Seq<ChainView>, x: ChainView, id: Seq<char>, status: ChainStatus)
    ensures
        chain_status_count(dl.push(x), id, status) == chain_status_count(dl, id, status) + if id
            == x.chain_id && status == x.status {
            1nat
        } else {
            0
        },
{
    reveal(chain_status_count);
    assert(dl.push(x).drop_last() == dl);
}

proof fn lemma_chain_push_all(dl: Seq<ChainView>, x: ChainView, id: Seq<char>)
    ensures
        id != x.chain_id ==> expected_chain(dl.push(x), id) == expected_chain(dl, id) && chain_recorded(
            dl.push(x),
            id,
        ) == chain_recorded(dl, id),
        id == x.chain_id ==> chain_recorded(dl.push(x), id),
{
    lemma_chain_push(dl, x, id, ChainStatus::Entered);
    lemma_chain_push(dl, x, id, ChainStatus::Skipped);
    lemma_chain_push(dl, x, id, ChainStatus::Fallback);
}

#[verifier::rlimit(30)]
proof fn lemma_add_chain_step(prev: Seq<ChainAggregateView>, dl: Seq<ChainView>, x: ChainView)
    requires
        chains_summarize(prev, dl),
        dl.len() < usize::MAX,
    ensures
        chains_summarize(add_chain(prev, x), dl.push(x)),
{
    let chains = dl.push(x);
    let kf = key_fn::<ChainAggregate>();
    let next = add_chain(prev, x);
    lemma_find_key(prev, kf, x.chain_id);
    lemma_chain_push_all(dl, x, x.chain_id);
    lemma_chain_push(dl, x, x.chain_id, x.status);
    lemma_chain_count_bound(dl, x.chain_id, x.status);
    match find_key(prev, kf, x.chain_id) {
        Some(j) => {
            crate::analyze::lemma_keys_distinct_update(prev, kf, j, next[j]);
            lemma_chain_push(dl, x, x.chain_id, ChainStatus::Entered);
            lemma_chain_push(dl, x, x.chain_id, ChainStatus::Skipped);
            lemma_chain_push(dl, x, x.chain_id, ChainStatus::Fallback);
            assert forall|i: int| 0 <= i < next.len() implies chain_recorded(
                chains,
                (#[trigger] next[i]).chain_id,
            ) && next[i] == expected_chain(chains, next[i].chain_id) by {
                lemma_chain_push_all(dl, x, next[i].chain_id);
                if i != j {
                    assert(next[i] == prev[i]);
                    assert(kf(prev[i]) != kf(prev[j]));
                }
            }
            assert forall|id: Seq<char>| #[trigger] chain_recorded(chains, id) implies exists|i: int|
                0 <= i < next.len() && next[i].chain_id == id by {
                lemma_chain_push_all(dl, x, id);
                if id == x.chain_id {
                    assert(next[j].chain_id == id);
                } else {
                    assert(chain_recorded(dl, id));
                    let i = choose|i: int| 0 <= i < prev.len() && prev[i].chain_id == id;
                    assert(next[i].chain_id == id);
                }
            }
        },
        None => {
            assert(!chain_recorded(dl, x.chain_id)) by {
                if chain_recorded(dl, x.chain_id) {
                    let i = choose|i: int| 0 <= i < prev.len() && prev[i].chain_id == x.chain_id;
                    assert(kf(prev[i]) == x.chain_id);
                }
            }
            lemma_chain_push(dl, x, x.chain_id, ChainStatus::Entered);
            lemma_chain_push(dl, x, x.chain_id, ChainStatus::Skipped);
            lemma_chain_push(dl, x, x.chain_id, ChainStatus::Fallback);
            let added = next[prev.len() as int];
            crate::analyze::lemma_keys_distinct_push(prev, kf, added);
            assert forall|i: int| 0 <= i < next.len() implies chain_recorded(
                chains,
                (#[trigger] next[i]).chain_id,
            ) && next[i] == expected_chain(chains, next[i].chain_id) by {
                lemma_chain_push_all(dl, x, next[i].chain_id);
                if i < prev.len() {
                    assert(next[i] == prev[i]);
                    assert(kf(prev[i]) != x.chain_id);
                }
            }
            assert forall|id: Seq<char>| #[trigger] chain_recorded(chains, id) implies exists|i: int|
                0 <= i < next.len() && next[i].chain_id == id by {
                lemma_chain_push_all(dl, x, id);
                if id == x.chain_id {
                    assert(next[prev.len() as int].chain_id == id);
                } else {
                    assert(chain_recorded(dl, id));
                    let i = choose|i: int| 0 <= i < prev.len() && prev[i].chain_id == id;
                    assert(next[i].chain_id == id);
                }
            }
        },
    }
}

/// Counting chain traces one by one into no aggregates summarizes them.
pub proof fn lemma_add_chains_summarize(chains: Seq<ChainView>)
    requires
        chains.len() <= usize::MAX,
    ensures
        chains_summarize(add_chains(Seq::empty(), chains), chains),
    decreases chains.len(),
{
    if chains.len() == 0 {
        assert forall|id: Seq<char>| !#[trigger] chain_recorded(chains, id) by {
            reveal(chain_status_count);
        }
    } else {
        let dl = chains.drop_last();
        lemma_add_chains_summarize(dl);
        assert(dl.push(chains.last()) == chains);
        lemma_add_chain_step(add_chains(Seq::empty(), dl), dl, chains.last());
    }
}

/// The chain traces of snapshots, in order.
pub open spec fn snapshots_chains(snapshots: Seq<PromptObservabilitySnapshot>) -> Seq<ChainView>
    decreases snapshots.len(),
{
    if snapshots.len() == 0 {
        Seq::empty()
    } else {
        snapshots_chains(snapshots.drop_last()) + chain_views(snapshots.last().chains@)
    }
}

/// The chain traces recorded by events, in order.
pub open spec fn recorded_chains(events: Seq<TraceEvent>) -> Seq<ChainView>
    decreases events.len(),
{
    if events.len() == 0 {
        Seq::empty()
    } else {
        recorded_chains(events.drop_last()) + snapshots_chains(event_snapshots(events.last()))
    }
}

proof fn lemma_add_chains_append(e: Seq<ChainAggregateView>, a: Seq<ChainView>, b: Seq<ChainView>)
    ensures
        add_chains(e, a + b) == add_chains(add_chains(e, a), b),
    decreases b.len(),
{
    if b.len() == 0 {
        assert(a + b == a);
    } else {
        lemma_add_chains_append(e, a, b.drop_last());
        assert((a + b).drop_last() == a + b.drop_last());
        assert((a + b).last() == b.last());
    }
}

proof fn lemma_after_snapshots_chains(v: AccumulatorView, snapshots: Seq<PromptObservabilitySnapshot>)
    ensures
        after_snapshots(v, snapshots).chains == add_chains(v.chains, snapshots_chains(snapshots)),
        snapshots_chains(snapshots).len() <= crate::analyze::snapshots_work(snapshots),
    decreases snapshots.len(),
{
    if snapshots.len() > 0 {
        let dl = snapshots.drop_last();
        lemma_after_snapshots_chains(v, dl);
        lemma_add_chains_append(v.chains, snapshots_chains(dl), chain_views(snapshots.last().chains@));
    } else {
        assert(add_chains(v.chains, Seq::empty()) == v.chains);
    }
}

proof fn lemma_after_event_chains(v: AccumulatorView, event: TraceEvent)
    ensures
        after_event(v, event).chains == add_chains(v.chains, snapshots_chains(event_snapshots(event))),
        snapshots_chains(event_snapshots(event)).len() <= crate::analyze::event_work(event),
{
    match event {
        TraceEvent::Other { kind, snapshots } => {
            lemma_after_snapshots_chains(v, snapshots@);
            if kind@ != PROMPT_OBSERVABILITY_SNAPSHOT_EVENT_KIND@ {
                assert(snapshots_chains(Seq::<PromptObservabilitySnapshot>::empty()) == Seq::<ChainView>::empty());
            }
        },
        _ => {
            assert(snapshots_chains(Seq::<PromptObservabilitySnapshot>::empty()) == Seq::<ChainView>::empty());
        },
    }
}

/// Recording events counts, in order, the chain traces of the snapshots that
/// they record.
pub proof fn events_record_their_chains(v: AccumulatorView, events: Seq<TraceEvent>)
    ensures
        after_events(v, events).chains == add_chains(v.chains, recorded_chains(events)),
        recorded_chains(events).len() <= crate::analyze::events_work(events),
    decreases events.len(),
{
    if events.len() > 0 {
        let dl = events.drop_last();
        events_record_their_chains(v, dl);
        lemma_after_event_chains(after_events(v, dl), events.last());
        lemma_add_chains_append(v.chains, recorded_chains(dl), snapshots_chains(event_snapshots(events.last())));
    }
}

/// The chain coverage line that a history gives a chain id.
pub open spec fn expected_chain_line(chains: Seq<ChainView>, id: Seq<char>) -> ChainSummaryView {
    ChainSummaryView {
        chain_id: id,
        entered: chain_status_count(chains, id, ChainStatus::Entered) as usize,
        skipped: chain_status_count(chains, id, ChainStatus::Skipped) as usize,
        fallback: chain_status_count(chains, id, ChainStatus::Fallback) as usize,
    }
}

/// Over any trace the chain coverage lists each recorded chain id exactly
/// once, ordered by id, with how often it was recorded as entered, skipped and
/// fallen back.
pub proof fn report_chains_follow_history(bundles: Seq<Vec<TraceEvent>>)
    requires
        bundles_work(bundles) <= usize::MAX,
    ensures
        forall|id: Seq<char>|
            #[trigger] chain_recorded(recorded_chains(flatten_events(bundles)), id) <==> exists|j: int|
                0 <= j < trace_report(bundles).chain_coverage.len()
                    && trace_report(bundles).chain_coverage[j].chain_id == id,
        forall|j: int|
            0 <= j < trace_report(bundles).chain_coverage.len() ==> #[trigger] trace_report(
                bundles,
            ).chain_coverage[j] == expected_chain_line(
                recorded_chains(flatten_events(bundles)),
                trace_report(bundles).chain_coverage[j].chain_id,
            ),
        forall|i: int, j: int|
            0 <= i < j < trace_report(bundles).chain_coverage.len() ==> (
            #[trigger] trace_report(bundles).chain_coverage[i]).chain_id != (
            #[trigger] trace_report(bundles).chain_coverage[j]).chain_id,
        crate::sorting::is_sorted_by(trace_report(bundles).chain_coverage, chain_summary_lt_fn()),
{
    broadcast use vstd::seq_lib::group_to_multiset_ensures;

    let e = empty_accumulator();
    let f = flatten_events(bundles);
    let v = after_bundles(e, bundles);
    crate::report_properties::bundle_boundaries_do_not_matter(e, bundles);
    lemma_flatten_work(bundles);
    events_record_their_chains(e, f);
    let chains = recorded_chains(f);
    assert(add_chains(e.chains, chains) == add_chains(Seq::empty(), chains));
    lemma_add_chains_summarize(chains);
    let unsorted = v.chains.map_values(
        |x: ChainAggregateView|
            ChainSummaryView {
                chain_id: x.chain_id,
                entered: x.entered,
                skipped: x.skipped,
                fallback: x.fallback,
            },
    );
    crate::report_properties::lemma_report_orders_strict();
    crate::report_properties::report_lists_are_ordered(v, bundles.len() as usize);
    lemma_sort_stable_by_props(unsorted, chain_summary_lt_fn());
    let r = trace_report(bundles);
    let cov = r.chain_coverage;
    assert forall|j: int| 0 <= j < cov.len() implies #[trigger] cov[j] == expected_chain_line(
        chains,
        cov[j].chain_id,
    ) && chain_recorded(chains, cov[j].chain_id) by {
        assert(cov.contains(cov[j]));
        assert(cov.to_multiset().count(cov[j]) > 0);
        assert(unsorted.to_multiset().count(cov[j]) > 0);
        let k = choose|k: int| 0 <= k < unsorted.len() && unsorted[k] == cov[j];
        assert(v.chains[k] == expected_chain(chains, v.chains[k].chain_id));
    }
    assert forall|id: Seq<char>| #[trigger] chain_recorded(chains, id) implies exists|j: int|
        0 <= j < cov.len() && cov[j].chain_id == id by {
        let k = choose|k: int| 0 <= k < v.chains.len() && v.chains[k].chain_id == id;
        assert(unsorted.contains(unsorted[k]));
        assert(unsorted.to_multiset().count(unsorted[k]) > 0);
        assert(cov.to_multiset().count(unsorted[k]) > 0);
        let j = choose|j: int| 0 <= j < cov.len() && cov[j] == unsorted[k];
        assert(cov[j].chain_id == id);
    }
    assert forall|id: Seq<char>| (exists|j: int| 0 <= j < cov.len() && cov[j].chain_id == id)
        implies #[trigger] chain_recorded(chains, id) by {
        let j = choose|j: int| 0 <= j < cov.len() && cov[j].chain_id == id;
        assert(cov[j] == cov[j]);
    }
    let chain_key = |c: ChainSummaryView| c.chain_id;
    assert(keys_distinct(unsorted, chain_key)) by {
        assert forall|i: int, j: int| 0 <= i < j < unsorted.len() implies chain_key(
            #[trigger] unsorted[i],
        ) != chain_key(#[trigger] unsorted[j]) by {
            assert(key_fn::<ChainAggregate>()(v.chains[i]) != key_fn::<ChainAggregate>()(v.chains[j]));
        }
    }
    crate::report_properties::lemma_sort_keeps_keys_distinct(unsorted, chain_summary_lt_fn(), chain_key);
    assert forall|i: int, j: int| 0 <= i < j < cov.len() implies (#[trigger] cov[i]).chain_id != (
    #[trigger] cov[j]).chain_id by {
        assert(chain_key(cov[i]) != chain_key(cov[j]));
    }
}

proof fn lemma_filter_keys_distinct<A>(s: Seq<A>, p: spec_fn(A) -> bool, kf: spec_fn(A) -> Seq<char>)
    requires
        keys_distinct(s, kf),
    ensures
        keys_distinct(s.filter(p), kf),
    decreases s.len(),
{
    reveal(Seq::filter);
    if s.len() > 0 {
        let rest = s.drop_last();
        assert(keys_distinct(rest, kf)) by {
            assert forall|i: int, j: int| 0 <= i < j < rest.len() implies kf(#[trigger] rest[i]) != kf(
                #[trigger] rest[j],
            ) by {
                assert(rest[i] == s[i] && rest[j] == s[j]);
            }
        }
        lemma_filter_keys_distinct(rest, p, kf);
        if p(s.last()) {
            let f = rest.filter(p);
            let r = f.push(s.last());
            assert(s.filter(p) == r);
            assert forall|i: int, j: int| 0 <= i < j < r.len() implies kf(#[trigger] r[i]) != kf(
                #[trigger] r[j],
            ) by {
                if j == r.len() - 1 {
                    assert(r[i] == f[i]);
                    assert(f.contains(f[i]));
                    rest.lemma_filter_contains_rev(p, f[i]);
                    let k = choose|k: int| 0 <= k < rest.len() && rest[k] == f[i];
                    assert(s[k] == f[i]);
                    assert(s[s.len() - 1] == s.last());
                } else {
                    assert(r[i] == f[i] && r[j] == f[j]);
                }
            }
        }
    }
}

/// Whether a tool id was exposed in `tools` and its first exposure's name
/// (in its namespace) was never called according to `calls`.
pub open spec fn tool_never_called(
    tools: Seq<ToolView>,
    calls: Seq<crate::analyze::CallCountView>,
    id: Seq<char>,
) -> bool {
    &&& tool_recorded(tools, id)
    &&& crate::analyze::called_count_for(calls, tool_first(tools, id).namespace, tool_first(tools, id).name) == 0
}

/// Over any trace the never-called tools are, once each, exactly the recorded
/// tool ids whose first exposure's name (in its namespace) no counted call
/// matches; each line holds that first exposure's name, namespace and
/// exposure, the saturating sum of the tool's token estimates and its number
/// of exposures; they are ordered by token count, then id.
pub proof fn report_unused_tools_follow_history(bundles: Seq<Vec<TraceEvent>>)
    requires
        bundles_work(bundles) <= usize::MAX,
    ensures
        forall|id: Seq<char>|
            #[trigger] tool_never_called(
                recorded_tools(flatten_events(bundles)),
                after_bundles(empty_accumulator(), bundles).called_tools,
                id,
            ) <==> exists|j: int|
                0 <= j < trace_report(bundles).exposed_but_never_called_tools.len()
                    && trace_report(bundles).exposed_but_never_called_tools[j].tool_id == id,
        forall|j: int|
            0 <= j < trace_report(bundles).exposed_but_never_called_tools.len() ==> #[trigger] trace_report(
                bundles,
            ).exposed_but_never_called_tools[j] == crate::analyze::tool_summary_of(
                expected_tool(
                    recorded_tools(flatten_events(bundles)),
                    trace_report(bundles).exposed_but_never_called_tools[j].tool_id,
                ),
                after_bundles(empty_accumulator(), bundles).called_tools,
            ),
        forall|i: int, j: int|
            0 <= i < j < trace_report(bundles).exposed_but_never_called_tools.len() ==> (
            #[trigger] trace_report(bundles).exposed_but_never_called_tools[i]).tool_id != (
            #[trigger] trace_report(bundles).exposed_but_never_called_tools[j]).tool_id,
        crate::sorting::is_sorted_by(
            trace_report(bundles).exposed_but_never_called_tools,
            crate::report::tool_summary_lt_fn(),
        ),
{
    broadcast use vstd::seq_lib::group_to_multiset_ensures;
    broadcast use vstd::seq_lib::group_filter_ensures;

    let e = empty_accumulator();
    let f = flatten_events(bundles);
    let v = after_bundles(e, bundles);
    crate::report_properties::bundle_boundaries_do_not_matter(e, bundles);
    lemma_flatten_work(bundles);
    events_record_their_tools(e, f);
    let tools = recorded_tools(f);
    assert(add_tools(e.tools, tools) == add_tools(Seq::empty(), tools));
    lemma_add_tools_summarize(tools);
    let calls = v.called_tools;
    let unsorted = v.tools.map_values(
        |x: ToolAggregateView| crate::analyze::tool_summary_of(x, calls),
    );
    crate::report_properties::lemma_report_orders_strict();
    crate::report_properties::report_lists_are_ordered(v, bundles.len() as usize);
    lemma_sort_stable_by_props(unsorted, crate::report::tool_summary_lt_fn());
    let sorted = crate::analyze::sorted_tool_summaries(v);
    let r = trace_report(bundles);
    let never = r.exposed_but_never_called_tools;
    let p = crate::analyze::never_called_fn();
    assert(never == sorted.filter(p));
    assert forall|j: int| 0 <= j < never.len() implies #[trigger] never[j]
        == crate::analyze::tool_summary_of(expected_tool(tools, never[j].tool_id), calls)
        && tool_never_called(tools, calls, never[j].tool_id) by {
        assert(never.contains(never[j]));
        sorted.lemma_filter_contains_rev(p, never[j]);
        assert(sorted.to_multiset().count(never[j]) > 0);
        assert(unsorted.to_multiset().count(never[j]) > 0);
        let k = choose|k: int| 0 <= k < unsorted.len() && unsorted[k] == never[j];
        assert(v.tools[k] == expected_tool(tools, v.tools[k].tool_id));
        assert(p(never[j]));
    }
    assert forall|id: Seq<char>| #[trigger] tool_never_called(tools, calls, id) implies exists|j: int|
        0 <= j < never.len() && never[j].tool_id == id by {
        let k = choose|k: int| 0 <= k < v.tools.len() && v.tools[k].tool_id == id;
        assert(unsorted.contains(unsorted[k]));
        assert(unsorted.to_multiset().count(unsorted[k]) > 0);
        assert(sorted.to_multiset().count(unsorted[k]) > 0);
        let m = choose|m: int| 0 <= m < sorted.len() && sorted[m] == unsorted[k];
        assert(p(sorted[m]));
        assert(never.contains(sorted[m]));
        let j = choose|j: int| 0 <= j < never.len() && never[j] == sorted[m];
        assert(never[j].tool_id == id);
    }
    assert forall|id: Seq<char>| (exists|j: int| 0 <= j < never.len() && never[j].tool_id == id)
        implies #[trigger] tool_never_called(tools, calls, id) by {
        let j = choose|j: int| 0 <= j < never.len() && never[j].tool_id == id;
        assert(never[j] == never[j]);
    }
    let tool_key_of = |t: ToolSummaryView| t.tool_id;
    assert(keys_distinct(unsorted, tool_key_of)) by {
        assert forall|i: int, j: int| 0 <= i < j < unsorted.len() implies tool_key_of(
            #[trigger] unsorted[i],
        ) != tool_key_of(#[trigger] unsorted[j]) by {
            assert(key_fn::<ToolAggregate>()(v.tools[i]) != key_fn::<ToolAggregate>()(v.tools[j]));
        }
    }
    crate::report_properties::lemma_sort_keeps_keys_distinct(
        unsorted,
        crate::report::tool_summary_lt_fn(),
        tool_key_of,
    );
    lemma_filter_keys_distinct(sorted, p, tool_key_of);
    assert forall|i: int, j: int| 0 <= i < j < never.len() implies (#[trigger] never[i]).tool_id != (
    #[trigger] never[j]).tool_id by {
        assert(tool_key_of(never[i]) != tool_key_of(never[j]));
    }
}

// ---------------------------------------------------------------------------
// Search results of whole traces.
// ---------------------------------------------------------------------------
proof fn lemma_search_first_key(names: Seq<LoadableNameView>, id: Seq<char>)
    requires
        search_count(names, id) > 0,
    ensures
        skey(search_first(names, id)) == id,
    decreases names.len(),
{
    reveal(search_count);
    reveal(search_first);
    if search_count(names.drop_last(), id) > 0 {
        lemma_search_first_key(names.drop_last(), id);
    }
}

/// The loadable tools that an event's search result reports.
pub open spec fn event_search_names(event: TraceEvent) -> Seq<LoadableNameView> {
    match event {
        TraceEvent::ToolCallEnded { result } => match result {
            Some(r) => crate::analyze::result_names(r),
            None => Seq::empty(),
        },
        _ => Seq::empty(),
    }
}

/// The loadable tools reported by the search results of events, in order.
pub open spec fn recorded_search_names(events: Seq<TraceEvent>) -> Seq<LoadableNameView>
    decreases events.len(),
{
    if events.len() == 0 {
        Seq::empty()
    } else {
        recorded_search_names(events.drop_last()) + event_search_names(events.last())
    }
}

proof fn lemma_add_searches_append(
    e: Seq<DeferredSearchAggregateView>,
    a: Seq<LoadableNameView>,
    b: Seq<LoadableNameView>,
)
    ensures
        add_searches(e, a + b) == add_searches(add_searches(e, a), b),
    decreases b.len(),
{
    if b.len() == 0 {
        assert(a + b == a);
    } else {
        lemma_add_searches_append(e, a, b.drop_last());
        assert((a + b).drop_last() == a + b.drop_last());
        assert((a + b).last() == b.last());
    }
}

proof fn lemma_after_snapshots_keep_searches(v: AccumulatorView, snapshots: Seq<PromptObservabilitySnapshot>)
    ensures
        after_snapshots(v, snapshots).deferred_search_results == v.deferred_search_results,
    decreases snapshots.len(),
{
    if snapshots.len() > 0 {
        lemma_after_snapshots_keep_searches(v, snapshots.drop_last());
    }
}

proof fn lemma_after_event_searches(v: AccumulatorView, event: TraceEvent)
    ensures
        after_event(v, event).deferred_search_results == add_searches(
            v.deferred_search_results,
            event_search_names(event),
        ),
        event_search_names(event).len() <= crate::analyze::event_work(event),
{
    assert(add_searches(v.deferred_search_results, Seq::empty()) == v.deferred_search_results);
    match event {
        TraceEvent::Other { kind, snapshots } => {
            lemma_after_snapshots_keep_searches(v, snapshots@);
        },
        _ => {},
    }
}

/// Recording events counts, in order, the loadable tools of the search
/// results that they carry.
pub proof fn events_record_their_searches(v: AccumulatorView, events: Seq<TraceEvent>)
    ensures
        after_events(v, events).deferred_search_results == add_searches(
            v.deferred_search_results,
            recorded_search_names(events),
        ),
        recorded_search_names(events).len() <= crate::analyze::events_work(events),
    decreases events.len(),
{
    if events.len() > 0 {
        let dl = events.drop_last();
        events_record_their_searches(v, dl);
        lemma_after_event_searches(after_events(v, dl), events.last());
        lemma_add_searches_append(
            v.deferred_search_results,
            recorded_search_names(dl),
            event_search_names(events.last()),
        );
    }
}

/// The line that a history gives a searched tool key: the name and namespace
/// of its first search result and its number of search results.
pub open spec fn expected_search_line(names: Seq<LoadableNameView>, id: Seq<char>) -> crate::report::DeferredSearchView {
    crate::report::DeferredSearchView {
        name: search_first(names, id).name,
        namespace: search_first(names, id).namespace,
        search_result_count: search_count(names, id) as usize,
    }
}

/// The tool key of a searched-tool line.
pub open spec fn line_key(d: crate::report::DeferredSearchView) -> Seq<char> {
    crate::report::tool_key(d.namespace, d.name)
}

/// Over any trace the searched tools are, once each, exactly the tool keys
/// that search results reported; each line holds the name and namespace of the
/// key's first result and how many results reported it (at least one); they
/// are ordered by that count, then name.
pub proof fn report_searches_follow_history(bundles: Seq<Vec<TraceEvent>>)
    requires
        bundles_work(bundles) <= usize::MAX,
    ensures
        forall|id: Seq<char>|
            #[trigger] search_recorded(recorded_search_names(flatten_events(bundles)), id) <==> exists|j: int|
                0 <= j < trace_report(bundles).deferred_but_searched_tools.len()
                    && line_key(trace_report(bundles).deferred_but_searched_tools[j]) == id,
        forall|j: int|
            0 <= j < trace_report(bundles).deferred_but_searched_tools.len() ==> #[trigger] trace_report(
                bundles,
            ).deferred_but_searched_tools[j] == expected_search_line(
                recorded_search_names(flatten_events(bundles)),
                line_key(trace_report(bundles).deferred_but_searched_tools[j]),
            ) && trace_report(bundles).deferred_but_searched_tools[j].search_result_count >= 1,
        forall|i: int, j: int|
            0 <= i < j < trace_report(bundles).deferred_but_searched_tools.len() ==> line_key(
                #[trigger] trace_report(bundles).deferred_but_searched_tools[i],
            ) != line_key(#[trigger] trace_report(bundles).deferred_but_searched_tools[j]),
        crate::sorting::is_sorted_by(
            trace_report(bundles).deferred_but_searched_tools,
            crate::report::deferred_lt_fn(),
        ),
{
    broadcast use vstd::seq_lib::group_to_multiset_ensures;

    let e = empty_accumulator();
    let f = flatten_events(bundles);
    let v = after_bundles(e, bundles);
    crate::report_properties::bundle_boundaries_do_not_matter(e, bundles);
    lemma_flatten_work(bundles);
    events_record_their_searches(e, f);
    let names = recorded_search_names(f);
    assert(add_searches(e.deferred_search_results, names) == add_searches(Seq::empty(), names));
    lemma_add_searches_summarize(names);
    let entries = v.deferred_search_results;
    let unsorted = entries.map_values(
        |x: DeferredSearchAggregateView|
            crate::report::DeferredSearchView {
                name: x.name,
                namespace: x.namespace,
                search_result_count: x.search_result_count,
            },
    );
    crate::report_properties::lemma_report_orders_strict();
    crate::report_properties::report_lists_are_ordered(v, bundles.len() as usize);
    lemma_sort_stable_by_props(unsorted, crate::report::deferred_lt_fn());
    let r = trace_report(bundles);
    let d = r.deferred_but_searched_tools;
    assert forall|k: int| 0 <= k < unsorted.len() implies line_key(#[trigger] unsorted[k])
        == entries[k].key && unsorted[k] == expected_search_line(names, entries[k].key)
        && unsorted[k].search_result_count >= 1 by {
        assert(entries[k] == expected_search(names, entries[k].key));
        lemma_search_first_key(names, entries[k].key);
        lemma_search_count_bound(names, entries[k].key);
    }
    assert forall|j: int| 0 <= j < d.len() implies #[trigger] d[j] == expected_search_line(
        names,
        line_key(d[j]),
    ) && d[j].search_result_count >= 1 && search_recorded(names, line_key(d[j])) by {
        assert(d.contains(d[j]));
        assert(d.to_multiset().count(d[j]) > 0);
        assert(unsorted.to_multiset().count(d[j]) > 0);
        let k = choose|k: int| 0 <= k < unsorted.len() && unsorted[k] == d[j];
        assert(line_key(unsorted[k]) == entries[k].key);
    }
    assert forall|id: Seq<char>| #[trigger] search_recorded(names, id) implies exists|j: int|
        0 <= j < d.len() && line_key(d[j]) == id by {
        let k = choose|k: int| 0 <= k < entries.len() && entries[k].key == id;
        assert(line_key(unsorted[k]) == entries[k].key);
        assert(unsorted.contains(unsorted[k]));
        assert(unsorted.to_multiset().count(unsorted[k]) > 0);
        assert(d.to_multiset().count(unsorted[k]) > 0);
        let j = choose|j: int| 0 <= j < d.len() && d[j] == unsorted[k];
        assert(line_key(d[j]) == id);
    }
    assert forall|id: Seq<char>| (exists|j: int| 0 <= j < d.len() && line_key(d[j]) == id)
        implies #[trigger] search_recorded(names, id) by {
        let j = choose|j: int| 0 <= j < d.len() && line_key(d[j]) == id;
        assert(d[j] == d[j]);
    }
    let lk = |x: crate::report::DeferredSearchView| line_key(x);
    assert(keys_distinct(unsorted, lk)) by {
        assert forall|i: int, j: int| 0 <= i < j < unsorted.len() implies lk(#[trigger] unsorted[i])
            != lk(#[trigger] unsorted[j]) by {
            assert(key_fn::<DeferredSearchAggregate>()(entries[i]) != key_fn::<DeferredSearchAggregate>()(
                entries[j],
            ));
        }
    }
    crate::report_properties::lemma_sort_keeps_keys_distinct(unsorted, crate::report::deferred_lt_fn(), lk);
    assert forall|i: int, j: int| 0 <= i < j < d.len() implies line_key(#[trigger] d[i]) != line_key(
        #[trigger] d[j],
    ) by {
        assert(lk(d[i]) != lk(d[j]));
    }
}

proof fn lemma_snapshot_count_bound(events: Seq<TraceEvent>)
    ensures
        crate::report_properties::snapshot_count(events) <= events_work(events),
    decreases events.len(),
{
    if events.len() > 0 {
        lemma_snapshot_count_bound(events.drop_last());
        match events.last() {
            TraceEvent::Other { kind, snapshots } => {
                lemma_snapshots_len_bound(snapshots@);
            },
            _ => {},
        }
    }
}

proof fn lemma_snapshots_len_bound(snapshots: Seq<PromptObservabilitySnapshot>)
    ensures
        snapshots.len() <= crate::analyze::snapshots_work(snapshots),
    decreases snapshots.len(),
{
    if snapshots.len() > 0 {
        lemma_snapshots_len_bound(snapshots.drop_last());
    }
}

/// The report of a trace counts its bundles, and counts every snapshot that
/// its events record under the snapshot event kind, once.
pub proof fn report_counts_bundles_and_snapshots(bundles: Seq<Vec<TraceEvent>>)
    requires
        bundles.len() <= usize::MAX,
        bundles_work(bundles) <= usize::MAX,
    ensures
        trace_report(bundles).bundles_analyzed == bundles.len(),
        trace_report(bundles).snapshots_analyzed == crate::report_properties::snapshot_count(
            flatten_events(bundles),
        ),
{
    let e = empty_accumulator();
    let f = flatten_events(bundles);
    crate::report_properties::bundle_boundaries_do_not_matter(e, bundles);
    lemma_flatten_work(bundles);
    lemma_snapshot_count_bound(f);
    crate::report_properties::snapshots_are_counted(e, f);
}

/// Events that analysis does not read change nothing: ignored events,
/// events of other kinds than the snapshot kind, and ended tool calls without
/// a result payload.
pub proof fn unread_events_change_nothing(v: AccumulatorView, event: TraceEvent)
    requires
        event is Ignored || (event is Other && !is_snapshot_event(event))
            || event == (TraceEvent::ToolCallEnded { result: None }),
    ensures
        after_event(v, event) == v,
{
}

} // verus!
