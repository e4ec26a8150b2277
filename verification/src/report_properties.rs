//! Properties that every report has, whatever traces it was made from.
use vstd::prelude::*;

use crate::analyze::accumulator_wf;
use crate::analyze::after_bundles;
use crate::analyze::after_events;
use crate::analyze::after_event;
use crate::analyze::after_invocation;
use crate::analyze::after_kind;
use crate::analyze::after_snapshot;
use crate::analyze::after_snapshots;
use crate::analyze::bump;
use crate::analyze::bump_all;
use crate::analyze::call_keys;
use crate::analyze::call_recorded;
use crate::analyze::called_count_for;
use crate::analyze::counts_bounded;
use crate::analyze::dedup;
use crate::analyze::lemma_dedup_distinct;
use crate::analyze::event_work;
use crate::analyze::find_key;
use crate::analyze::lemma_find_key;
use crate::analyze::lemma_keys_distinct_push;
use crate::analyze::lemma_keys_distinct_update;
use crate::analyze::lookup_count;
use crate::analyze::CallCount;
use crate::analyze::CallCountView;
use crate::analyze::ToolCallKind;
use crate::analyze::TraceEvent;
use crate::analyze::PROMPT_OBSERVABILITY_SNAPSHOT_EVENT_KIND;
use crate::analyze::is_low_evidence;
use crate::analyze::key_fn;
use crate::analyze::keys_distinct;
use crate::analyze::report_of;
use crate::analyze::segment_findings;
use crate::analyze::sorted_segment_summaries;
use crate::analyze::sorted_tool_summaries;
use crate::analyze::tool_findings;
use crate::analyze::AccumulatorView;
use crate::analyze::ChainAggregate;
use crate::analyze::SegmentAggregate;
use crate::report::FindingView;
use crate::report::SegmentSummaryView;
use crate::report::ToolSummaryView;
use crate::report::chain_summary_lt_fn;
use crate::report::count_then_id_lt;
use crate::report::deferred_lt_fn;
use crate::report::finding_lt_fn;
use crate::report::row_lt_fn;
use crate::report::segment_summary_lt_fn;
use crate::report::tool_key;
use crate::report::tool_summary_lt_fn;
use crate::sorting::insert_by;
use crate::sorting::is_sorted_by;
use crate::sorting::is_strict_order;
use crate::sorting::lemma_sort_stable_by_props;
use crate::sorting::sort_stable_by;
use crate::text::lemma_text_lt_strict;
use crate::text::text_lt;

verus! {

proof fn lemma_count_then_id_strict()
    ensures
        forall|n: usize, id: Seq<char>| !#[trigger] count_then_id_lt(n, id, n, id),
        forall|n1: usize, id1: Seq<char>, n2: usize, id2: Seq<char>, n3: usize, id3: Seq<char>|
            #[trigger] count_then_id_lt(n1, id1, n2, id2) && #[trigger] count_then_id_lt(
                n2,
                id2,
                n3,
                id3,
            ) ==> count_then_id_lt(n1, id1, n3, id3),
{
    lemma_text_lt_strict();
}

/// Each order of the report is a strict order.
pub proof fn lemma_report_orders_strict()
    ensures
        is_strict_order(row_lt_fn()),
        is_strict_order(segment_summary_lt_fn()),
        is_strict_order(tool_summary_lt_fn()),
        is_strict_order(finding_lt_fn()),
        is_strict_order(deferred_lt_fn()),
        is_strict_order(chain_summary_lt_fn()),
{
    lemma_count_then_id_strict();
    lemma_text_lt_strict();
    assert forall|a, b, c| #[trigger]
        deferred_lt_fn()(a, b) && #[trigger] deferred_lt_fn()(b, c) implies deferred_lt_fn()(
        a,
        c,
    ) by {
        if a.search_result_count == c.search_result_count {
            assert(a.search_result_count == b.search_result_count);
            if !text_lt(a.name, c.name) {
                if text_lt(a.name, b.name) {
                    assert(b.name == c.name ==> text_lt(a.name, c.name));
                    assert(text_lt(b.name, c.name) ==> text_lt(a.name, c.name));
                } else {
                    assert(a.name == b.name);
                    assert(text_lt(
                        tool_key(a.namespace, a.name),
                        tool_key(b.namespace, b.name),
                    ));
                }
            }
        }
    }
}

/// Dropping elements from a sequence in order keeps it in order.
proof fn lemma_filter_sorted<A>(s: Seq<A>, p: spec_fn(A) -> bool, lt: spec_fn(A, A) -> bool)
    requires
        is_sorted_by(s, lt),
    ensures
        is_sorted_by(s.filter(p), lt),
    decreases s.len(),
{
    reveal(Seq::filter);
    if s.len() > 0 {
        let rest = s.drop_last();
        assert(is_sorted_by(rest, lt)) by {
            assert forall|i: int, j: int| 0 <= i < j < rest.len() implies !lt(
                #[trigger] rest[j],
                #[trigger] rest[i],
            ) by {
                assert(rest[j] == s[j] && rest[i] == s[i]);
            }
        }
        lemma_filter_sorted(rest, p, lt);
        if p(s.last()) {
            let f = rest.filter(p);
            let r = f.push(s.last());
            assert(s.filter(p) == r);
            assert forall|i: int, j: int| 0 <= i < j < r.len() implies !lt(
                #[trigger] r[j],
                #[trigger] r[i],
            ) by {
                if j == r.len() - 1 {
                    assert(r[i] == f[i]);
                    assert(f.contains(f[i]));
                    rest.lemma_filter_contains_rev(p, f[i]);
                    let k = choose|k: int| 0 <= k < rest.len() && rest[k] == f[i];
                    assert(s[k] == f[i]);
                    assert(s[s.len() - 1] == s.last());
                } else {
                    assert(r[i] == f[i] && r[j] == f[j]);
                }
            }
        }
    }
}

/// Every list of a report is in its order: the waterfall, the segments and
/// the never-called tools by token count (largest first, ties by id), the
/// low-evidence segments likewise, the findings by savings (largest first,
/// ties by target), the searched tools by result count (most first, then by
/// name), and the chains by id.
pub proof fn report_lists_are_ordered(v: AccumulatorView, bundles_analyzed: usize)
    ensures
        is_sorted_by(report_of(v, bundles_analyzed).token_waterfall, row_lt_fn()),
        is_sorted_by(
            report_of(v, bundles_analyzed).top_token_heavy_segments,
            segment_summary_lt_fn(),
        ),
        is_sorted_by(
            report_of(v, bundles_analyzed).low_evidence_segments,
            segment_summary_lt_fn(),
        ),
        is_sorted_by(
            report_of(v, bundles_analyzed).exposed_but_never_called_tools,
            tool_summary_lt_fn(),
        ),
        is_sorted_by(report_of(v, bundles_analyzed).findings, finding_lt_fn()),
        is_sorted_by(report_of(v, bundles_analyzed).deferred_but_searched_tools, deferred_lt_fn()),
        is_sorted_by(report_of(v, bundles_analyzed).chain_coverage, chain_summary_lt_fn()),
{
    lemma_report_orders_strict();
    let r = report_of(v, bundles_analyzed);
    let any_tools_called = v.called_tools.len() > 0;
    lemma_sort_stable_by_props(
        v.segments.map_values(
            |e: crate::analyze::SegmentAggregateView|
                crate::analyze::segment_summary_of(e, any_tools_called),
        ),
        segment_summary_lt_fn(),
    );
    lemma_sort_stable_by_props(
        v.tools.map_values(
            |e: crate::analyze::ToolAggregateView|
                crate::analyze::tool_summary_of(e, v.called_tools),
        ),
        tool_summary_lt_fn(),
    );
    let segs = r.top_token_heavy_segments;
    let tools = crate::analyze::sorted_tool_summaries(v);
    lemma_filter_sorted(segs, crate::analyze::low_evidence_fn(), segment_summary_lt_fn());
    lemma_filter_sorted(tools, crate::analyze::never_called_fn(), tool_summary_lt_fn());
    lemma_sort_stable_by_props(
        segs.map_values(|s: crate::report::SegmentSummaryView| crate::analyze::segment_row(s))
            + tools.map_values(|t: crate::report::ToolSummaryView| crate::analyze::tool_row(t)),
        row_lt_fn(),
    );
    lemma_sort_stable_by_props(
        crate::analyze::segment_findings(segs) + crate::analyze::tool_findings(tools),
        finding_lt_fn(),
    );
    lemma_sort_stable_by_props(
        v.deferred_search_results.map_values(
            |e: crate::analyze::DeferredSearchAggregateView|
                crate::report::DeferredSearchView {
                    name: e.name,
                    namespace: e.namespace,
                    search_result_count: e.search_result_count,
                },
        ),
        deferred_lt_fn(),
    );
    lemma_sort_stable_by_props(
        v.chains.map_values(
            |e: crate::analyze::ChainAggregateView|
                crate::report::ChainSummaryView {
                    chain_id: e.chain_id,
                    entered: e.entered,
                    skipped: e.skipped,
                    fallback: e.fallback,
                },
        ),
        chain_summary_lt_fn(),
    );
}

/// The low-evidence segments are exactly the listed segments that are
/// low-evidence (see `is_low_evidence`), and the never-called tools exactly
/// the summarized tools with no matching call.
pub proof fn report_selections_are_exact(v: AccumulatorView, bundles_analyzed: usize)
    ensures
        forall|i: int|
            0 <= i < report_of(v, bundles_analyzed).low_evidence_segments.len() ==> {
                let s = #[trigger] report_of(v, bundles_analyzed).low_evidence_segments[i];
                is_low_evidence(s) && report_of(v, bundles_analyzed).top_token_heavy_segments.contains(s)
            },
        forall|i: int|
            0 <= i < report_of(v, bundles_analyzed).top_token_heavy_segments.len() && is_low_evidence(
                #[trigger] report_of(v, bundles_analyzed).top_token_heavy_segments[i],
            ) ==> report_of(v, bundles_analyzed).low_evidence_segments.contains(
                report_of(v, bundles_analyzed).top_token_heavy_segments[i],
            ),
        forall|i: int|
            0 <= i < report_of(v, bundles_analyzed).exposed_but_never_called_tools.len() ==> {
                let t = #[trigger] report_of(v, bundles_analyzed).exposed_but_never_called_tools[i];
                t.called_count == 0 && sorted_tool_summaries(v).contains(t)
            },
        forall|i: int|
            0 <= i < sorted_tool_summaries(v).len() && (#[trigger] sorted_tool_summaries(v)[i]).called_count
                == 0 ==> report_of(v, bundles_analyzed).exposed_but_never_called_tools.contains(
                sorted_tool_summaries(v)[i],
            ),
{
    broadcast use vstd::seq_lib::group_filter_ensures;

    let r = report_of(v, bundles_analyzed);
    let segs = r.top_token_heavy_segments;
    let tools = sorted_tool_summaries(v);
    assert forall|i: int| 0 <= i < r.low_evidence_segments.len() implies {
        let s = #[trigger] r.low_evidence_segments[i];
        is_low_evidence(s) && segs.contains(s)
    } by {
        let s = r.low_evidence_segments[i];
        assert(r.low_evidence_segments.contains(s));
        segs.lemma_filter_contains_rev(crate::analyze::low_evidence_fn(), s);
    }
    assert forall|i: int| 0 <= i < r.exposed_but_never_called_tools.len() implies {
        let t = #[trigger] r.exposed_but_never_called_tools[i];
        t.called_count == 0 && tools.contains(t)
    } by {
        let t = r.exposed_but_never_called_tools[i];
        assert(r.exposed_but_never_called_tools.contains(t));
        tools.lemma_filter_contains_rev(crate::analyze::never_called_fn(), t);
    }
}

proof fn lemma_segment_findings_len(segs: Seq<SegmentSummaryView>)
    ensures
        segment_findings(segs).len() <= segs.len(),
    decreases segs.len(),
{
    if segs.len() > 0 {
        lemma_segment_findings_len(segs.drop_last());
    }
}

proof fn lemma_tool_findings_len(tools: Seq<ToolSummaryView>)
    ensures
        tool_findings(tools).len() <= tools.len(),
    decreases tools.len(),
{
    if tools.len() > 0 {
        lemma_tool_findings_len(tools.drop_last());
    }
}

/// A report has one summary per segment, one waterfall row per segment and
/// per tool, one line per searched tool and per chain, and at most one finding
/// per segment and per tool.
pub proof fn report_sizes(v: AccumulatorView, bundles_analyzed: usize)
    ensures
        report_of(v, bundles_analyzed).top_token_heavy_segments.len() == v.segments.len(),
        report_of(v, bundles_analyzed).token_waterfall.len() == v.segments.len() + v.tools.len(),
        report_of(v, bundles_analyzed).deferred_but_searched_tools.len()
            == v.deferred_search_results.len(),
        report_of(v, bundles_analyzed).chain_coverage.len() == v.chains.len(),
        report_of(v, bundles_analyzed).low_evidence_segments.len() <= v.segments.len(),
        report_of(v, bundles_analyzed).exposed_but_never_called_tools.len() <= v.tools.len(),
        report_of(v, bundles_analyzed).findings.len() <= v.segments.len() + v.tools.len(),
{
    broadcast use vstd::seq_lib::group_filter_ensures;

    report_lists_are_ordered(v, bundles_analyzed);
    lemma_report_orders_strict();
    let segs = sorted_segment_summaries(v);
    let tools = sorted_tool_summaries(v);
    let any_tools_called = v.called_tools.len() > 0;
    lemma_sort_stable_by_props(
        v.segments.map_values(
            |e: crate::analyze::SegmentAggregateView|
                crate::analyze::segment_summary_of(e, any_tools_called),
        ),
        segment_summary_lt_fn(),
    );
    lemma_sort_stable_by_props(
        v.tools.map_values(
            |e: crate::analyze::ToolAggregateView|
                crate::analyze::tool_summary_of(e, v.called_tools),
        ),
        tool_summary_lt_fn(),
    );
    lemma_sort_stable_by_props(
        segs.map_values(|s: crate::report::SegmentSummaryView| crate::analyze::segment_row(s))
            + tools.map_values(|t: crate::report::ToolSummaryView| crate::analyze::tool_row(t)),
        row_lt_fn(),
    );
    lemma_segment_findings_len(segs);
    lemma_tool_findings_len(tools);
    lemma_sort_stable_by_props(segment_findings(segs) + tool_findings(tools), finding_lt_fn());
    lemma_sort_stable_by_props(
        v.deferred_search_results.map_values(
            |e: crate::analyze::DeferredSearchAggregateView|
                crate::report::DeferredSearchView {
                    name: e.name,
                    namespace: e.namespace,
                    search_result_count: e.search_result_count,
                },
        ),
        deferred_lt_fn(),
    );
    lemma_sort_stable_by_props(
        v.chains.map_values(
            |e: crate::analyze::ChainAggregateView|
                crate::report::ChainSummaryView {
                    chain_id: e.chain_id,
                    entered: e.entered,
                    skipped: e.skipped,
                    fallback: e.fallback,
                },
        ),
        chain_summary_lt_fn(),
    );
}

proof fn lemma_segment_finding_source(segs: Seq<SegmentSummaryView>, f: FindingView)
    requires
        segment_findings(segs).contains(f),
    ensures
        f.target_kind == "prompt_segment"@,
        exists|j: int|
            0 <= j < segs.len() && (#[trigger] segs[j]).segment_id == f.target_id
                && f.token_savings_estimate <= segs[j].token_count_estimate,
    decreases segs.len(),
{
    let rest = segs.drop_last();
    let head = segment_findings(rest);
    let k = choose|k: int| 0 <= k < segment_findings(segs).len() && segment_findings(segs)[k] == f;
    if k < head.len() {
        assert(head[k] == f);
        lemma_segment_finding_source(rest, f);
        let j = choose|j: int|
            0 <= j < rest.len() && (#[trigger] rest[j]).segment_id == f.target_id
                && f.token_savings_estimate <= rest[j].token_count_estimate;
        assert(segs[j] == rest[j]);
    } else {
        let last = segs[segs.len() - 1];
        assert(segs.last() == last);
        assert(f == crate::analyze::segment_finding(last)[k - head.len()]);
    }
}

proof fn lemma_tool_finding_source(tools: Seq<ToolSummaryView>, f: FindingView)
    requires
        tool_findings(tools).contains(f),
    ensures
        f.target_kind == "tool_schema"@,
        exists|j: int|
            0 <= j < tools.len() && (#[trigger] tools[j]).tool_id == f.target_id
                && tools[j].called_count == 0 && f.token_savings_estimate
                == tools[j].token_count_estimate,
    decreases tools.len(),
{
    let rest = tools.drop_last();
    let head = tool_findings(rest);
    let k = choose|k: int| 0 <= k < tool_findings(tools).len() && tool_findings(tools)[k] == f;
    if k < head.len() {
        assert(head[k] == f);
        lemma_tool_finding_source(rest, f);
        let j = choose|j: int|
            0 <= j < rest.len() && (#[trigger] rest[j]).tool_id == f.target_id
                && rest[j].called_count == 0 && f.token_savings_estimate
                == rest[j].token_count_estimate;
        assert(tools[j] == rest[j]);
    } else {
        let last = tools[tools.len() - 1];
        assert(tools.last() == last);
        assert(f == crate::analyze::tool_finding(last)[k - head.len()]);
    }
}

/// Every finding targets a listed segment and promises at most the tokens
/// that segment costs, or targets a tool that was never called and promises
/// exactly the tokens of its schema.
pub proof fn findings_never_exceed_cost(v: AccumulatorView, bundles_analyzed: usize)
    ensures
        forall|i: int|
            0 <= i < report_of(v, bundles_analyzed).findings.len() ==> {
                let f = #[trigger] report_of(v, bundles_analyzed).findings[i];
                let segs = report_of(v, bundles_analyzed).top_token_heavy_segments;
                let tools = report_of(v, bundles_analyzed).exposed_but_never_called_tools;
                ||| f.target_kind == "prompt_segment"@ && exists|j: int|
                    0 <= j < segs.len() && (#[trigger] segs[j]).segment_id == f.target_id
                        && f.token_savings_estimate <= segs[j].token_count_estimate
                ||| f.target_kind == "tool_schema"@ && exists|j: int|
                    0 <= j < tools.len() && (#[trigger] tools[j]).tool_id == f.target_id
                        && f.token_savings_estimate == tools[j].token_count_estimate
            },
{
    broadcast use vstd::seq_lib::group_to_multiset_ensures;
    broadcast use vstd::seq_lib::group_filter_ensures;

    lemma_report_orders_strict();
    let r = report_of(v, bundles_analyzed);
    let segs = sorted_segment_summaries(v);
    let tools = sorted_tool_summaries(v);
    let a = segment_findings(segs);
    let b = tool_findings(tools);
    lemma_sort_stable_by_props(a + b, finding_lt_fn());
    assert forall|i: int| 0 <= i < r.findings.len() implies {
        let f = #[trigger] r.findings[i];
        ||| f.target_kind == "prompt_segment"@ && exists|j: int|
            0 <= j < r.top_token_heavy_segments.len()
                && (#[trigger] r.top_token_heavy_segments[j]).segment_id == f.target_id
                && f.token_savings_estimate <= r.top_token_heavy_segments[j].token_count_estimate
        ||| f.target_kind == "tool_schema"@ && exists|j: int|
            0 <= j < r.exposed_but_never_called_tools.len()
                && (#[trigger] r.exposed_but_never_called_tools[j]).tool_id == f.target_id
                && f.token_savings_estimate
                == r.exposed_but_never_called_tools[j].token_count_estimate
    } by {
        let f = r.findings[i];
        assert(r.findings.contains(f));
        assert(r.findings.to_multiset().count(f) > 0);
        assert((a + b).to_multiset().count(f) > 0);
        assert((a + b).contains(f));
        let k = choose|k: int| 0 <= k < (a + b).len() && (a + b)[k] == f;
        if k < a.len() {
            assert(a[k] == f);
            lemma_segment_finding_source(segs, f);
            let j = choose|j: int|
                0 <= j < segs.len() && (#[trigger] segs[j]).segment_id == f.target_id
                    && f.token_savings_estimate <= segs[j].token_count_estimate;
            assert(r.top_token_heavy_segments[j] == segs[j]);
        } else {
            assert(b[k - a.len()] == f);
            lemma_tool_finding_source(tools, f);
            let j = choose|j: int|
                0 <= j < tools.len() && (#[trigger] tools[j]).tool_id == f.target_id
                    && tools[j].called_count == 0 && f.token_savings_estimate
                    == tools[j].token_count_estimate;
            let never = r.exposed_but_never_called_tools;
            assert(never.contains(tools[j]));
            let m = choose|m: int| 0 <= m < never.len() && never[m] == tools[j];
            assert(never[m].tool_id == f.target_id);
        }
    }
}

proof fn lemma_insert_by_is_insert<A>(s: Seq<A>, x: A, lt: spec_fn(A, A) -> bool) -> (k: int)
    ensures
        0 <= k <= s.len(),
        insert_by(s, x, lt) == s.insert(k, x),
    decreases s.len(),
{
    if s.len() == 0 {
        assert(s.insert(0, x) =~= seq![x]);
        0
    } else if lt(x, s[0]) {
        assert(s.insert(0, x) =~= seq![x] + s);
        0
    } else {
        let t = s.drop_first();
        let k = lemma_insert_by_is_insert(t, x, lt);
        assert(s.insert(k + 1, x) =~= seq![s[0]] + t.insert(k, x));
        k + 1
    }
}

/// Sorting keeps keys distinct.
pub proof fn lemma_sort_keeps_keys_distinct<A>(
    s: Seq<A>,
    lt: spec_fn(A, A) -> bool,
    kf: spec_fn(A) -> Seq<char>,
)
    requires
        is_strict_order(lt),
        keys_distinct(s, kf),
    ensures
        keys_distinct(sort_stable_by(s, lt), kf),
    decreases s.len(),
{
    broadcast use vstd::seq_lib::group_to_multiset_ensures;

    if s.len() > 0 {
        let dl = s.drop_last();
        let x = s.last();
        assert(keys_distinct(dl, kf)) by {
            assert forall|i: int, j: int| 0 <= i < j < dl.len() implies kf(#[trigger] dl[i]) != kf(
                #[trigger] dl[j],
            ) by {
                assert(dl[i] == s[i] && dl[j] == s[j]);
            }
        }
        lemma_sort_keeps_keys_distinct(dl, lt, kf);
        lemma_sort_stable_by_props(dl, lt);
        let t = sort_stable_by(dl, lt);
        let k = lemma_insert_by_is_insert(t, x, lt);
        let r = t.insert(k, x);
        t.insert_ensures(k, x);
        assert forall|m: int| 0 <= m < t.len() implies kf(#[trigger] t[m]) != kf(x) by {
            assert(t.contains(t[m]));
            assert(t.to_multiset().count(t[m]) > 0);
            assert(dl.to_multiset().count(t[m]) > 0);
            assert(dl.contains(t[m]));
            let q = choose|q: int| 0 <= q < dl.len() && dl[q] == t[m];
            assert(s[q] == t[m]);
            assert(s[s.len() - 1] == x);
        }
        assert forall|a: int, b: int| 0 <= a < b < r.len() implies kf(#[trigger] r[a]) != kf(
            #[trigger] r[b],
        ) by {
            if a < k {
                assert(r[a] == t[a]);
                if b < k {
                    assert(r[b] == t[b]);
                } else if b == k {
                    assert(r[b] == x);
                } else {
                    assert(r[b] == t[b - 1]);
                }
            } else if a == k {
                assert(r[a] == x);
                assert(r[b] == t[b - 1]);
            } else {
                assert(r[a] == t[a - 1]);
                assert(r[b] == t[b - 1]);
            }
        }
    }
}

/// Each segment and each chain appears once in a report of a well-formed
/// accumulator: its occurrences are summed under one line.
pub proof fn report_lines_are_unique(v: AccumulatorView, bundles_analyzed: usize)
    requires
        accumulator_wf(v),
    ensures
        forall|i: int, j: int|
            0 <= i < j < report_of(v, bundles_analyzed).top_token_heavy_segments.len() ==> (
            #[trigger] report_of(v, bundles_analyzed).top_token_heavy_segments[i]).segment_id != (
            #[trigger] report_of(v, bundles_analyzed).top_token_heavy_segments[j]).segment_id,
        forall|i: int, j: int|
            0 <= i < j < report_of(v, bundles_analyzed).chain_coverage.len() ==> (
            #[trigger] report_of(v, bundles_analyzed).chain_coverage[i]).chain_id != (
            #[trigger] report_of(v, bundles_analyzed).chain_coverage[j]).chain_id,
{
    lemma_report_orders_strict();
    let any_tools_called = v.called_tools.len() > 0;
    let segs = v.segments.map_values(
        |e: crate::analyze::SegmentAggregateView|
            crate::analyze::segment_summary_of(e, any_tools_called),
    );
    let seg_key = |s: SegmentSummaryView| s.segment_id;
    assert(keys_distinct(segs, seg_key)) by {
        assert forall|i: int, j: int| 0 <= i < j < segs.len() implies seg_key(#[trigger] segs[i])
            != seg_key(#[trigger] segs[j]) by {
            assert(key_fn::<SegmentAggregate>()(v.segments[i]) != key_fn::<SegmentAggregate>()(
                v.segments[j],
            ));
        }
    }
    lemma_sort_keeps_keys_distinct(segs, segment_summary_lt_fn(), seg_key);
    let chains = v.chains.map_values(
        |e: crate::analyze::ChainAggregateView|
            crate::report::ChainSummaryView {
                chain_id: e.chain_id,
                entered: e.entered,
                skipped: e.skipped,
                fallback: e.fallback,
            },
    );
    let chain_key = |c: crate::report::ChainSummaryView| c.chain_id;
    assert(keys_distinct(chains, chain_key)) by {
        assert forall|i: int, j: int| 0 <= i < j < chains.len() implies chain_key(
            #[trigger] chains[i],
        ) != chain_key(#[trigger] chains[j]) by {
            assert(key_fn::<ChainAggregate>()(v.chains[i]) != key_fn::<ChainAggregate>()(
                v.chains[j],
            ));
        }
    }
    lemma_sort_keeps_keys_distinct(chains, chain_summary_lt_fn(), chain_key);
    let r = report_of(v, bundles_analyzed);
    assert forall|i: int, j: int| 0 <= i < j < r.top_token_heavy_segments.len() implies (
    #[trigger] r.top_token_heavy_segments[i]).segment_id != (
    #[trigger] r.top_token_heavy_segments[j]).segment_id by {
        assert(seg_key(r.top_token_heavy_segments[i]) != seg_key(r.top_token_heavy_segments[j]));
    }
    assert forall|i: int, j: int| 0 <= i < j < r.chain_coverage.len() implies (
    #[trigger] r.chain_coverage[i]).chain_id != (#[trigger] r.chain_coverage[j]).chain_id by {
        assert(chain_key(r.chain_coverage[i]) != chain_key(r.chain_coverage[j]));
    }
}

/// The events of bundles, one bundle after another.
pub open spec fn flatten_events(bundles: Seq<Vec<TraceEvent>>) -> Seq<TraceEvent>
    decreases bundles.len(),
{
    if bundles.len() == 0 {
        Seq::empty()
    } else {
        flatten_events(bundles.drop_last()) + bundles.last()@
    }
}

proof fn lemma_after_events_append(v: AccumulatorView, a: Seq<TraceEvent>, b: Seq<TraceEvent>)
    ensures
        after_events(v, a + b) == after_events(after_events(v, a), b),
    decreases b.len(),
{
    if b.len() == 0 {
        assert(a + b =~= a);
    } else {
        lemma_after_events_append(v, a, b.drop_last());
        assert((a + b).drop_last() =~= a + b.drop_last());
        assert((a + b).last() == b.last());
    }
}

/// How events are split into bundles does not change what is accumulated:
/// recording the bundles one after another is recording all their events in
/// order.
pub proof fn bundle_boundaries_do_not_matter(v: AccumulatorView, bundles: Seq<Vec<TraceEvent>>)
    ensures
        after_bundles(v, bundles) == after_events(v, flatten_events(bundles)),
    decreases bundles.len(),
{
    if bundles.len() > 0 {
        bundle_boundaries_do_not_matter(v, bundles.drop_last());
        lemma_after_events_append(v, flatten_events(bundles.drop_last()), bundles.last()@);
    }
}

/// The number of snapshots that events carry under the snapshot event kind.
pub open spec fn snapshot_count(events: Seq<TraceEvent>) -> nat
    decreases events.len(),
{
    if events.len() == 0 {
        0
    } else {
        snapshot_count(events.drop_last()) + match events.last() {
            TraceEvent::Other { kind, snapshots } => if kind@
                == PROMPT_OBSERVABILITY_SNAPSHOT_EVENT_KIND@ {
                snapshots@.len()
            } else {
                0
            },
            _ => 0,
        }
    }
}

proof fn lemma_after_snapshots_count(
    v: AccumulatorView,
    snapshots: Seq<crate::snapshot::PromptObservabilitySnapshot>,
)
    requires
        v.snapshots_analyzed + snapshots.len() <= usize::MAX,
    ensures
        after_snapshots(v, snapshots).snapshots_analyzed == v.snapshots_analyzed + snapshots.len(),
    decreases snapshots.len(),
{
    if snapshots.len() > 0 {
        lemma_after_snapshots_count(v, snapshots.drop_last());
    }
}

/// Every snapshot under the snapshot event kind is counted once, and nothing
/// else is counted (as long as the count fits in a `usize`).
pub proof fn snapshots_are_counted(v: AccumulatorView, events: Seq<TraceEvent>)
    requires
        v.snapshots_analyzed + snapshot_count(events) <= usize::MAX,
    ensures
        after_events(v, events).snapshots_analyzed == v.snapshots_analyzed + snapshot_count(events),
    decreases events.len(),
{
    if events.len() > 0 {
        snapshots_are_counted(v, events.drop_last());
        let w = after_events(v, events.drop_last());
        match events.last() {
            TraceEvent::Other { kind, snapshots } => {
                if kind@ == PROMPT_OBSERVABILITY_SNAPSHOT_EVENT_KIND@ {
                    lemma_after_snapshots_count(w, snapshots@);
                }
            },
            _ => {},
        }
    }
}

proof fn lemma_find_unique<V>(s: Seq<V>, kf: spec_fn(V) -> Seq<char>, j: int)
    requires
        keys_distinct(s, kf),
        0 <= j < s.len(),
    ensures
        find_key(s, kf, kf(s[j])) == Some(j),
{
    lemma_find_key(s, kf, kf(s[j]));
}

/// Counting one call under `k` adds one to the count under `k` and leaves the
/// other counts alone.
proof fn lemma_bump_lookup(e: Seq<CallCountView>, k: Seq<char>, q: Seq<char>)
    requires
        keys_distinct(e, key_fn::<CallCount>()),
        lookup_count(e, k) < usize::MAX,
    ensures
        keys_distinct(bump(e, k), key_fn::<CallCount>()),
        lookup_count(bump(e, k), q) == lookup_count(e, q) + (if q == k {
            1int
        } else {
            0
        }),
{
    let kf = key_fn::<CallCount>();
    lemma_find_key(e, kf, k);
    lemma_find_key(e, kf, q);
    let b = bump(e, k);
    match find_key(e, kf, k) {
        Some(i) => {
            let updated = CallCountView { key: e[i].key, count: (e[i].count + 1) as usize };
            lemma_keys_distinct_update(e, kf, i, updated);
            lemma_find_key(b, kf, q);
            if q == k {
                lemma_find_unique(b, kf, i);
            } else {
                match find_key(e, kf, q) {
                    Some(j) => {
                        assert(b[j] == e[j]);
                        lemma_find_unique(b, kf, j);
                    },
                    None => {
                        match find_key(b, kf, q) {
                            Some(j) => {
                                assert(b[j] == e[j]);
                            },
                            None => {},
                        }
                    },
                }
            }
        },
        None => {
            let added = CallCountView { key: k, count: 1 };
            lemma_keys_distinct_push(e, kf, added);
            assert(b.drop_last() == e);
        },
    }
}

/// Counting calls under distinct keys adds one to the count under each of
/// them and leaves the other counts alone.
proof fn lemma_bump_all_lookup(e: Seq<CallCountView>, ks: Seq<Seq<char>>, q: Seq<char>)
    requires
        keys_distinct(e, key_fn::<CallCount>()),
        ks.no_duplicates(),
        forall|k: Seq<char>| ks.contains(k) ==> lookup_count(e, k) < usize::MAX,
    ensures
        keys_distinct(bump_all(e, ks), key_fn::<CallCount>()),
        lookup_count(bump_all(e, ks), q) == lookup_count(e, q) + (if ks.contains(q) {
            1int
        } else {
            0
        }),
    decreases ks.len(),
{
    if ks.len() > 0 {
        let dl = ks.drop_last();
        let last = ks.last();
        assert(dl.no_duplicates()) by {
            assert forall|i: int, j: int| 0 <= i < dl.len() && 0 <= j < dl.len() && i != j implies dl[i]
                != dl[j] by {
                assert(dl[i] == ks[i] && dl[j] == ks[j]);
            }
        }
        assert forall|k: Seq<char>| dl.contains(k) implies lookup_count(e, k) < usize::MAX by {
            let i = choose|i: int| 0 <= i < dl.len() && dl[i] == k;
            assert(ks[i] == k);
            assert(ks.contains(k));
        }
        assert(!dl.contains(last)) by {
            if dl.contains(last) {
                let i = choose|i: int| 0 <= i < dl.len() && dl[i] == last;
                assert(ks[i] == ks[ks.len() - 1]);
            }
        }
        assert(ks.contains(last)) by {
            assert(ks[ks.len() - 1] == last);
        }
        lemma_bump_all_lookup(e, dl, last);
        lemma_bump_all_lookup(e, dl, q);
        lemma_bump_lookup(bump_all(e, dl), last, q);
        assert(ks.contains(q) <==> (dl.contains(q) || q == last)) by {
            if ks.contains(q) && q != last {
                let i = choose|i: int| 0 <= i < ks.len() && ks[i] == q;
                assert(i < ks.len() - 1);
                assert(dl[i] == q);
            }
            if dl.contains(q) {
                let i = choose|i: int| 0 <= i < dl.len() && dl[i] == q;
                assert(ks[i] == q);
            }
        }
    }
}

proof fn lemma_lookup_bounded(e: Seq<CallCountView>, c: nat, k: Seq<char>)
    requires
        forall|i: int| 0 <= i < e.len() ==> #[trigger] e[i].count <= c,
    ensures
        lookup_count(e, k) <= c,
{
    lemma_find_key(e, key_fn::<CallCount>(), k);
}

/// The call counts of an accumulator: one entry per key, each count at most
/// the increments made.
pub open spec fn calls_wf(v: AccumulatorView) -> bool {
    &&& keys_distinct(v.called_tools, key_fn::<CallCount>())
    &&& forall|i: int| 0 <= i < v.called_tools.len() ==> #[trigger] v.called_tools[i].count <= v.work
}

proof fn lemma_call_recorded(v: AccumulatorView, namespace: Option<Seq<char>>, name: Seq<char>)
    requires
        calls_wf(v),
        v.work < usize::MAX,
    ensures
        calls_wf(call_recorded(v, namespace, name)),
        forall|k: Seq<char>|
            #[trigger] lookup_count(call_recorded(v, namespace, name).called_tools, k)
                == lookup_count(v.called_tools, k) + (if call_keys(namespace, name).contains(k) {
                1int
            } else {
                0
            }),
        lookup_count(call_recorded(v, namespace, name).called_tools, name) >= 1,
        lookup_count(
            call_recorded(v, namespace, name).called_tools,
            crate::report::tool_key(namespace, name),
        ) >= 1,
{
    let keys = dedup(call_keys(namespace, name));
    lemma_dedup_distinct(call_keys(namespace, name));
    assert forall|k: Seq<char>| keys.contains(k) implies lookup_count(v.called_tools, k)
        < usize::MAX by {
        lemma_lookup_bounded(v.called_tools, v.work, k);
    }
    let w = call_recorded(v, namespace, name);
    assert forall|k: Seq<char>|
        #[trigger] lookup_count(w.called_tools, k) == lookup_count(v.called_tools, k) + (if call_keys(
            namespace,
            name,
        ).contains(k) {
            1int
        } else {
            0
        }) by {
        lemma_bump_all_lookup(v.called_tools, keys, k);
    }
    lemma_bump_all_lookup(v.called_tools, keys, name);
    assert(call_keys(namespace, name).contains(name)) by {
        assert(call_keys(namespace, name)[1] == name);
    }
    assert(call_keys(namespace, name).contains(crate::report::tool_key(namespace, name))) by {
        assert(call_keys(namespace, name)[0] == crate::report::tool_key(namespace, name));
    }
    assert(lookup_count(w.called_tools, crate::report::tool_key(namespace, name)) >= 1);
    let kf = key_fn::<CallCount>();
    assert forall|i: int| 0 <= i < w.called_tools.len() implies #[trigger] w.called_tools[i].count
        <= w.work by {
        let k = w.called_tools[i].key;
        lemma_find_unique(w.called_tools, kf, i);
        lemma_lookup_bounded(v.called_tools, v.work, k);
        assert(lookup_count(w.called_tools, k) == w.called_tools[i].count);
    }
}

/// Counting one call of a tool adds exactly one to the count under each
/// distinct key of the call (its tool key, its bare name, and with a
/// namespace `namespace.name` and `namespacename`) and leaves every other
/// count alone; so a tool of that name, in that namespace or in any other, is
/// then seen as called.
pub proof fn counted_calls_are_seen(
    v: AccumulatorView,
    namespace: Option<Seq<char>>,
    name: Seq<char>,
    tool_namespace: Option<Seq<char>>,
)
    requires
        accumulator_wf(v),
        v.work < usize::MAX,
    ensures
        accumulator_wf(call_recorded(v, namespace, name)),
        forall|k: Seq<char>|
            #[trigger] lookup_count(call_recorded(v, namespace, name).called_tools, k)
                == lookup_count(v.called_tools, k) + (if call_keys(namespace, name).contains(k) {
                1int
            } else {
                0
            }),
        called_count_for(call_recorded(v, namespace, name).called_tools, tool_namespace, name) >= 1,
{
    lemma_call_recorded(v, namespace, name);
}

/// A tool name that an event dispatches: the name (or `tool_search`) of an
/// invocation payload, or the tool that the kind of a call without payload
/// stands for.
pub open spec fn dispatched_name(event: TraceEvent, name: Seq<char>) -> bool {
    match event {
        TraceEvent::ToolCallStarted { kind, invocation } => match invocation {
            Some(inv) => (inv.tool_name matches Some(n) && n@ == name) || (
            crate::text::opt_text_is(inv.payload_type, "tool_search"@) && name == "tool_search"@),
            None => match kind {
                ToolCallKind::ExecCommand => name == "local_shell"@,
                ToolCallKind::WriteStdin => name == "write_stdin"@,
                ToolCallKind::ApplyPatch => name == "apply_patch"@,
                ToolCallKind::Mcp { server, tool } => name == tool@,
                ToolCallKind::Web => name == "web_search"@,
                ToolCallKind::ImageGeneration => name == "image_generation"@,
                ToolCallKind::SpawnAgent => name == "spawn_agent"@,
                ToolCallKind::AssignAgentTask => name == "assign_agent_task"@,
                ToolCallKind::SendMessage => name == "send_message"@,
                ToolCallKind::WaitAgent => name == "wait_agent"@,
                ToolCallKind::CloseAgent => name == "close_agent"@,
                ToolCallKind::Other { name: n } => name == n@,
                ToolCallKind::Unknown => false,
            },
        },
        _ => false,
    }
}

pub proof fn lemma_after_snapshots_keep_calls(
    v: AccumulatorView,
    snapshots: Seq<crate::snapshot::PromptObservabilitySnapshot>,
)
    ensures
        after_snapshots(v, snapshots).called_tools == v.called_tools,
        after_snapshots(v, snapshots).work == v.work + crate::analyze::snapshots_work(snapshots),
    decreases snapshots.len(),
{
    if snapshots.len() > 0 {
        lemma_after_snapshots_keep_calls(v, snapshots.drop_last());
    }
}

proof fn lemma_kind_calls(v: AccumulatorView, kind: ToolCallKind, name: Seq<char>)
    requires
        calls_wf(v),
        v.work + 2 <= usize::MAX,
    ensures
        calls_wf(after_kind(v, kind)),
        after_kind(v, kind).work <= v.work + 2,
        forall|k: Seq<char>|
            #[trigger] lookup_count(after_kind(v, kind).called_tools, k) >= lookup_count(
                v.called_tools,
                k,
            ),
        dispatched_name(
            TraceEvent::ToolCallStarted { kind, invocation: None },
            name,
        ) ==> lookup_count(after_kind(v, kind).called_tools, name) >= 1,
{
    match kind {
        ToolCallKind::Mcp { server, tool } => {
            lemma_call_recorded(v, Some(server@), tool@);
            lemma_call_recorded(call_recorded(v, Some(server@), tool@), None, tool@);
        },
        ToolCallKind::Other { name: n } => {
            lemma_call_recorded(v, None, n@);
        },
        ToolCallKind::Unknown => {},
        ToolCallKind::ExecCommand => {
            lemma_call_recorded(v, None, "local_shell"@);
        },
        ToolCallKind::WriteStdin => {
            lemma_call_recorded(v, None, "write_stdin"@);
        },
        ToolCallKind::ApplyPatch => {
            lemma_call_recorded(v, None, "apply_patch"@);
        },
        ToolCallKind::Web => {
            lemma_call_recorded(v, None, "web_search"@);
        },
        ToolCallKind::ImageGeneration => {
            lemma_call_recorded(v, None, "image_generation"@);
        },
        ToolCallKind::SpawnAgent => {
            lemma_call_recorded(v, None, "spawn_agent"@);
        },
        ToolCallKind::AssignAgentTask => {
            lemma_call_recorded(v, None, "assign_agent_task"@);
        },
        ToolCallKind::SendMessage => {
            lemma_call_recorded(v, None, "send_message"@);
        },
        ToolCallKind::WaitAgent => {
            lemma_call_recorded(v, None, "wait_agent"@);
        },
        ToolCallKind::CloseAgent => {
            lemma_call_recorded(v, None, "close_agent"@);
        },
    }
}

proof fn lemma_event_calls(v: AccumulatorView, event: TraceEvent, name: Seq<char>)
    requires
        calls_wf(v),
        v.work + event_work(event) <= usize::MAX,
    ensures
        calls_wf(after_event(v, event)),
        after_event(v, event).work <= v.work + event_work(event),
        forall|k: Seq<char>|
            #[trigger] lookup_count(after_event(v, event).called_tools, k) >= lookup_count(
                v.called_tools,
                k,
            ),
        dispatched_name(event, name) ==> lookup_count(after_event(v, event).called_tools, name)
            >= 1,
{
    match event {
        TraceEvent::Other { kind, snapshots } => {
            lemma_after_snapshots_keep_calls(v, snapshots@);
        },
        TraceEvent::ToolCallStarted { kind, invocation } => {
            match invocation {
                Some(inv) => {
                    let named = match inv.tool_name {
                        Some(n) => {
                            lemma_call_recorded(v, crate::snapshot::opt_view(inv.tool_namespace), n@);
                            call_recorded(v, crate::snapshot::opt_view(inv.tool_namespace), n@)
                        },
                        None => v,
                    };
                    assert(named.work <= v.work + 1);
                    if crate::text::opt_text_is(inv.payload_type, "tool_search"@) {
                        lemma_call_recorded(named, None, "tool_search"@);
                    }
                },
                None => {
                    lemma_kind_calls(v, kind, name);
                },
            }
        },
        TraceEvent::ToolCallEnded { result } => {},
        TraceEvent::Ignored => {},
    }
}

/// Recording an event never lowers the number of calls counted under any key:
/// once a tool is seen as called, it stays so.
pub proof fn call_counts_never_decrease(v: AccumulatorView, event: TraceEvent, k: Seq<char>)
    requires
        accumulator_wf(v),
        v.work + event_work(event) <= usize::MAX,
    ensures
        lookup_count(after_event(v, event).called_tools, k) >= lookup_count(v.called_tools, k),
{
    lemma_event_calls(v, event, k);
}

pub proof fn lemma_events_calls(v: AccumulatorView, events: Seq<TraceEvent>, name: Seq<char>)
    requires
        calls_wf(v),
        v.work + crate::analyze::events_work(events) <= usize::MAX,
    ensures
        calls_wf(after_events(v, events)),
        after_events(v, events).work <= v.work + crate::analyze::events_work(events),
        forall|k: Seq<char>|
            #[trigger] lookup_count(after_events(v, events).called_tools, k) >= lookup_count(
                v.called_tools,
                k,
            ),
        (exists|i: int| 0 <= i < events.len() && dispatched_name(#[trigger] events[i], name))
            ==> lookup_count(after_events(v, events).called_tools, name) >= 1,
    decreases events.len(),
{
    if events.len() > 0 {
        let dl = events.drop_last();
        lemma_events_calls(v, dl, name);
        let w = after_events(v, dl);
        lemma_event_calls(w, events.last(), name);
        if exists|i: int| 0 <= i < events.len() && dispatched_name(#[trigger] events[i], name) {
            let i = choose|i: int| 0 <= i < events.len() && dispatched_name(#[trigger] events[i], name);
            if i < events.len() - 1 {
                assert(dl[i] == events[i]);
            }
        }
    }
}

proof fn lemma_bundles_calls(v: AccumulatorView, bundles: Seq<Vec<TraceEvent>>, name: Seq<char>)
    requires
        calls_wf(v),
        v.work + crate::analyze::bundles_work(bundles) <= usize::MAX,
    ensures
        calls_wf(after_bundles(v, bundles)),
        after_bundles(v, bundles).work <= v.work + crate::analyze::bundles_work(bundles),
        (exists|b: int, i: int|
            0 <= b < bundles.len() && 0 <= i < bundles[b]@.len() && dispatched_name(
                #[trigger] bundles[b]@[i],
                name,
            )) ==> lookup_count(after_bundles(v, bundles).called_tools, name) >= 1,
    decreases bundles.len(),
{
    if bundles.len() > 0 {
        let dl = bundles.drop_last();
        lemma_bundles_calls(v, dl, name);
        let w = after_bundles(v, dl);
        lemma_events_calls(w, bundles.last()@, name);
        if exists|b: int, i: int|
            0 <= b < bundles.len() && 0 <= i < bundles[b]@.len() && dispatched_name(
                #[trigger] bundles[b]@[i],
                name,
            ) {
            let (b, i) = choose|b: int, i: int|
                0 <= b < bundles.len() && 0 <= i < bundles[b]@.len() && dispatched_name(
                    #[trigger] bundles[b]@[i],
                    name,
                );
            if b < bundles.len() - 1 {
                assert(dl[b] == bundles[b]);
                assert(lookup_count(after_events(w, bundles.last()@).called_tools, name)
                    >= lookup_count(w.called_tools, name));
            } else {
                assert(bundles.last()@[i] == bundles[b]@[i]);
            }
        }
    }
}

/// A tool whose name some analyzed event dispatched (in any namespace) is
/// never reported as exposed but never called.
pub proof fn dispatched_tools_are_not_reported_unused(
    bundles: Seq<Vec<TraceEvent>>,
    b: int,
    i: int,
    name: Seq<char>,
)
    requires
        crate::analyze::bundles_work(bundles) <= usize::MAX,
        0 <= b < bundles.len(),
        0 <= i < bundles[b]@.len(),
        dispatched_name(bundles[b]@[i], name),
    ensures
        forall|j: int|
            0 <= j < report_of(
                after_bundles(crate::analyze::empty_accumulator(), bundles),
                bundles.len() as usize,
            ).exposed_but_never_called_tools.len() ==> (#[trigger] report_of(
                after_bundles(crate::analyze::empty_accumulator(), bundles),
                bundles.len() as usize,
            ).exposed_but_never_called_tools[j]).name != name,
{
    broadcast use vstd::seq_lib::group_to_multiset_ensures;

    let v = after_bundles(crate::analyze::empty_accumulator(), bundles);
    let e = crate::analyze::empty_accumulator();
    assert(calls_wf(e));
    lemma_bundles_calls(e, bundles, name);
    assert(bundles[b]@[i] == bundles[b]@[i]);
    let r = report_of(v, bundles.len() as usize);
    report_selections_are_exact(v, bundles.len() as usize);
    lemma_report_orders_strict();
    let unsorted = v.tools.map_values(
        |e: crate::analyze::ToolAggregateView| crate::analyze::tool_summary_of(e, v.called_tools),
    );
    lemma_sort_stable_by_props(unsorted, tool_summary_lt_fn());
    assert forall|j: int| 0 <= j < r.exposed_but_never_called_tools.len() implies (
    #[trigger] r.exposed_but_never_called_tools[j]).name != name by {
        let t = r.exposed_but_never_called_tools[j];
        let tools = sorted_tool_summaries(v);
        assert(tools.contains(t));
        assert(tools.to_multiset().count(t) > 0);
        assert(unsorted.to_multiset().count(t) > 0);
        assert(unsorted.contains(t));
        let m = choose|m: int| 0 <= m < unsorted.len() && unsorted[m] == t;
        assert(t.called_count == called_count_for(v.called_tools, v.tools[m].namespace, v.tools[m].name));
        if t.name == name {
            assert(called_count_for(v.called_tools, t.namespace, name) >= lookup_count(
                v.called_tools,
                name,
            ));
        }
    }
}

// ---------------------------------------------------------------------------
// The waterfall and the findings of any summaries.
// ---------------------------------------------------------------------------
/// The waterfall of summaries holds one row per segment and one per tool,
/// exactly the rows of the segments and tools, ordered by token count (largest
/// first, ties by id).
pub proof fn waterfall_is_ordered_rows(segs: Seq<SegmentSummaryView>, tools: Seq<ToolSummaryView>)
    ensures
        crate::analyze::waterfall_of(segs, tools).len() == segs.len() + tools.len(),
        crate::analyze::waterfall_of(segs, tools).to_multiset() == (segs.map_values(
            |s: SegmentSummaryView| crate::analyze::segment_row(s),
        ) + tools.map_values(|t: ToolSummaryView| crate::analyze::tool_row(t))).to_multiset(),
        is_sorted_by(crate::analyze::waterfall_of(segs, tools), row_lt_fn()),
{
    lemma_report_orders_strict();
    lemma_sort_stable_by_props(
        segs.map_values(|s: SegmentSummaryView| crate::analyze::segment_row(s)) + tools.map_values(
            |t: ToolSummaryView| crate::analyze::tool_row(t),
        ),
        row_lt_fn(),
    );
}

/// Whether a segment summary gets a finding: an expensive critical or high
/// segment, or a low-evidence one.
pub open spec fn segment_gets_finding(s: SegmentSummaryView) -> bool {
    ((s.criticality == crate::snapshot::PromptCriticality::Critical || s.criticality
        == crate::snapshot::PromptCriticality::High) && s.token_count_estimate >= 500)
        || crate::analyze::is_low_evidence(s)
}

/// Whether a tool summary gets a finding: it costs tokens and was never called.
pub open spec fn tool_gets_finding(t: ToolSummaryView) -> bool {
    t.called_count == 0 && t.token_count_estimate > 0
}

/// The finding of a segment summary that gets one.
pub open spec fn finding_for_segment(s: SegmentSummaryView) -> FindingView {
    crate::analyze::segment_finding(s)[0]
}

/// The finding of a tool summary that gets one.
pub open spec fn finding_for_tool(t: ToolSummaryView) -> FindingView {
    crate::analyze::tool_finding(t)[0]
}

proof fn lemma_segment_findings_filter(segs: Seq<SegmentSummaryView>)
    ensures
        segment_findings(segs) == segs.filter(|s: SegmentSummaryView| segment_gets_finding(s)).map_values(
            |s: SegmentSummaryView| finding_for_segment(s),
        ),
    decreases segs.len(),
{
    reveal(Seq::filter);
    let p = |s: SegmentSummaryView| segment_gets_finding(s);
    let f = |s: SegmentSummaryView| finding_for_segment(s);
    if segs.len() == 0 {
        assert(segs.filter(p) == Seq::<SegmentSummaryView>::empty());
        assert(segs.filter(p).map_values(f) =~= Seq::<FindingView>::empty());
    } else {
        lemma_segment_findings_filter(segs.drop_last());
        let x = segs.last();
        if p(x) {
            assert(segs.filter(p) == segs.drop_last().filter(p).push(x));
            assert(segs.filter(p).map_values(f) =~= segs.drop_last().filter(p).map_values(f).push(f(x)));
            assert(crate::analyze::segment_finding(x) =~= seq![f(x)]);
        } else {
            assert(segs.filter(p) == segs.drop_last().filter(p));
            assert(crate::analyze::segment_finding(x) =~= Seq::<FindingView>::empty());
        }
    }
}

proof fn lemma_tool_findings_filter(tools: Seq<ToolSummaryView>)
    ensures
        tool_findings(tools) == tools.filter(|t: ToolSummaryView| tool_gets_finding(t)).map_values(
            |t: ToolSummaryView| finding_for_tool(t),
        ),
    decreases tools.len(),
{
    reveal(Seq::filter);
    let p = |t: ToolSummaryView| tool_gets_finding(t);
    let f = |t: ToolSummaryView| finding_for_tool(t);
    if tools.len() == 0 {
        assert(tools.filter(p) == Seq::<ToolSummaryView>::empty());
        assert(tools.filter(p).map_values(f) =~= Seq::<FindingView>::empty());
    } else {
        lemma_tool_findings_filter(tools.drop_last());
        let x = tools.last();
        if p(x) {
            assert(tools.filter(p) == tools.drop_last().filter(p).push(x));
            assert(tools.filter(p).map_values(f) =~= tools.drop_last().filter(p).map_values(f).push(f(x)));
            assert(crate::analyze::tool_finding(x) =~= seq![f(x)]);
        } else {
            assert(tools.filter(p) == tools.drop_last().filter(p));
            assert(crate::analyze::tool_finding(x) =~= Seq::<FindingView>::empty());
        }
    }
}

/// The findings of summaries are exactly one finding per segment and per tool
/// that gets one (see `segment_gets_finding`, `tool_gets_finding`) and no
/// other, ordered by savings (largest first, ties by target). A segment's
/// finding targets the segment with its evidence: compression saving a third
/// of its tokens when it is critical or high, else deletion (low criticality)
/// or compression saving half. A tool's finding targets the tool with strong
/// evidence and saves all its tokens: lazy loading when direct, keeping when
/// deferred, conditional routing when hosted or a search.
pub proof fn findings_are_one_per_qualifying_summary(
    segs: Seq<SegmentSummaryView>,
    tools: Seq<ToolSummaryView>,
)
    ensures
        crate::analyze::findings_of(segs, tools).to_multiset() == (segs.filter(
            |s: SegmentSummaryView| segment_gets_finding(s),
        ).map_values(|s: SegmentSummaryView| finding_for_segment(s)) + tools.filter(
            |t: ToolSummaryView| tool_gets_finding(t),
        ).map_values(|t: ToolSummaryView| finding_for_tool(t))).to_multiset(),
        is_sorted_by(crate::analyze::findings_of(segs, tools), finding_lt_fn()),
        forall|s: SegmentSummaryView|
            segment_gets_finding(s) ==> {
                let f = #[trigger] finding_for_segment(s);
                &&& f.target_id == s.segment_id
                &&& f.target_kind == "prompt_segment"@
                &&& f.evidence == s.evidence
                &&& if (s.criticality == crate::snapshot::PromptCriticality::Critical
                    || s.criticality == crate::snapshot::PromptCriticality::High)
                    && s.token_count_estimate >= 500 {
                    f.action == crate::snapshot::OptimizationAction::Compress
                        && f.token_savings_estimate == s.token_count_estimate / 3
                } else {
                    f.action == (if s.criticality == crate::snapshot::PromptCriticality::Low {
                        crate::snapshot::OptimizationAction::DeleteCandidate
                    } else {
                        crate::snapshot::OptimizationAction::Compress
                    }) && f.token_savings_estimate == s.token_count_estimate / 2
                }
            },
        forall|t: ToolSummaryView|
            tool_gets_finding(t) ==> {
                let f = #[trigger] finding_for_tool(t);
                &&& f.target_id == t.tool_id
                &&& f.target_kind == "tool_schema"@
                &&& f.evidence == crate::snapshot::EvidenceStrength::Strong
                &&& f.token_savings_estimate == t.token_count_estimate
                &&& f.action == match t.exposure {
                    crate::snapshot::ToolExposure::Direct => crate::snapshot::OptimizationAction::LazyLoad,
                    crate::snapshot::ToolExposure::Deferred => crate::snapshot::OptimizationAction::Keep,
                    _ => crate::snapshot::OptimizationAction::RouteConditionally,
                }
            },
{
    lemma_report_orders_strict();
    lemma_segment_findings_filter(segs);
    lemma_tool_findings_filter(tools);
    lemma_sort_stable_by_props(segment_findings(segs) + tool_findings(tools), finding_lt_fn());
}

// ---------------------------------------------------------------------------
// Evidence and call matching.
// ---------------------------------------------------------------------------
proof fn lemma_category_literals_differ()
    ensures
        "tool_result"@ != "tools"@ && "tool_result"@ != "capabilities"@ && "tool_result"@
            != "output_format"@,
        "output_format"@ != "tools"@ && "output_format"@ != "capabilities"@,
        "user_input"@ != "tool_result"@ && "user_input"@ != "tools"@ && "user_input"@
            != "capabilities"@ && "user_input"@ != "output_format"@,
        "permissions"@ != "tool_result"@ && "permissions"@ != "tools"@ && "permissions"@
            != "capabilities"@ && "permissions"@ != "output_format"@ && "permissions"@
            != "user_input"@,
{
    reveal_strlit("tool_result");
    reveal_strlit("tools");
    reveal_strlit("capabilities");
    reveal_strlit("output_format");
    reveal_strlit("user_input");
    reveal_strlit("permissions");
    assert("tool_result"@.len() != "tools"@.len());
    assert("tool_result"@.len() != "capabilities"@.len());
    assert("tool_result"@.len() != "output_format"@.len());
    assert("output_format"@.len() != "tools"@.len());
    assert("output_format"@.len() != "capabilities"@.len());
    assert("user_input"@.len() != "tool_result"@.len());
    assert("user_input"@.len() != "tools"@.len());
    assert("user_input"@.len() != "capabilities"@.len());
    assert("user_input"@.len() != "output_format"@.len());
    assert("permissions"@[0] != "tool_result"@[0]);
    assert("permissions"@.len() != "tools"@.len());
    assert("permissions"@.len() != "capabilities"@.len());
    assert("permissions"@.len() != "output_format"@.len());
    assert("permissions"@.len() != "user_input"@.len());
}

/// How much behavioral evidence a category has: tool results strong whether
/// or not tools were called; tool and capability instructions medium when some
/// tool was called and weak otherwise; output formats medium; user input and
/// permissions weak.
pub proof fn evidence_follows_category(b: bool)
    ensures
        crate::analyze::segment_evidence("tool_result"@, b) == crate::snapshot::EvidenceStrength::Strong,
        crate::analyze::segment_evidence("tools"@, b) == (if b {
            crate::snapshot::EvidenceStrength::Medium
        } else {
            crate::snapshot::EvidenceStrength::Weak
        }),
        crate::analyze::segment_evidence("capabilities"@, b) == (if b {
            crate::snapshot::EvidenceStrength::Medium
        } else {
            crate::snapshot::EvidenceStrength::Weak
        }),
        crate::analyze::segment_evidence("output_format"@, b) == crate::snapshot::EvidenceStrength::Medium,
        crate::analyze::segment_evidence("user_input"@, b) == crate::snapshot::EvidenceStrength::Weak,
        crate::analyze::segment_evidence("permissions"@, b) == crate::snapshot::EvidenceStrength::Weak,
{
    lemma_category_literals_differ();
}

/// In every report a tool-result segment has strong evidence, so it is never a
/// low-evidence segment, and a finding for it can only be the compression of
/// an expensive critical or high segment.
pub proof fn tool_results_are_never_low_evidence(v: AccumulatorView, bundles_analyzed: usize)
    ensures
        forall|j: int|
            0 <= j < report_of(v, bundles_analyzed).top_token_heavy_segments.len() && (#[trigger] report_of(
                v,
                bundles_analyzed,
            ).top_token_heavy_segments[j]).category == "tool_result"@ ==> {
                let s = report_of(v, bundles_analyzed).top_token_heavy_segments[j];
                &&& s.evidence == crate::snapshot::EvidenceStrength::Strong
                &&& !crate::analyze::is_low_evidence(s)
                &&& !report_of(v, bundles_analyzed).low_evidence_segments.contains(s)
                &&& segment_gets_finding(s) ==> (s.criticality
                    == crate::snapshot::PromptCriticality::Critical || s.criticality
                    == crate::snapshot::PromptCriticality::High) && s.token_count_estimate >= 500
            },
{
    broadcast use vstd::seq_lib::group_to_multiset_ensures;
    broadcast use vstd::seq_lib::group_filter_ensures;

    lemma_report_orders_strict();
    let any_tools_called = v.called_tools.len() > 0;
    let unsorted = v.segments.map_values(
        |e: crate::analyze::SegmentAggregateView|
            crate::analyze::segment_summary_of(e, any_tools_called),
    );
    lemma_sort_stable_by_props(unsorted, segment_summary_lt_fn());
    let r = report_of(v, bundles_analyzed);
    let top = r.top_token_heavy_segments;
    evidence_follows_category(any_tools_called);
    assert forall|j: int| 0 <= j < top.len() && (#[trigger] top[j]).category == "tool_result"@ implies {
        let s = top[j];
        &&& s.evidence == crate::snapshot::EvidenceStrength::Strong
        &&& !crate::analyze::is_low_evidence(s)
        &&& !r.low_evidence_segments.contains(s)
        &&& segment_gets_finding(s) ==> (s.criticality == crate::snapshot::PromptCriticality::Critical
            || s.criticality == crate::snapshot::PromptCriticality::High) && s.token_count_estimate
            >= 500
    } by {
        let s = top[j];
        assert(top.contains(s));
        assert(top.to_multiset().count(s) > 0);
        assert(unsorted.to_multiset().count(s) > 0);
        let k = choose|k: int| 0 <= k < unsorted.len() && unsorted[k] == s;
        assert(s == crate::analyze::segment_summary_of(v.segments[k], any_tools_called));
        if r.low_evidence_segments.contains(s) {
            top.lemma_filter_contains_rev(crate::analyze::low_evidence_fn(), s);
            let m = choose|m: int| 0 <= m < r.low_evidence_segments.len() && r.low_evidence_segments[m] == s;
            assert(crate::analyze::low_evidence_fn()(r.low_evidence_segments[m]));
        }
    }
}

/// How often a tool counts as called: at least the calls counted under its
/// bare name, and with a namespace `n` and name `m` at least those under
/// `n/m`, `n.m` and `nm`; it is exactly the largest of the counts under these
/// keys (under the bare name, and the empty key, without a namespace).
pub proof fn called_counts_cover_every_key(
    calls: Seq<CallCountView>,
    namespace: Option<Seq<char>>,
    name: Seq<char>,
)
    ensures
        called_count_for(calls, namespace, name) >= lookup_count(calls, name),
        forall|n: Seq<char>|
            namespace == Some(n) ==> {
                &&& called_count_for(calls, namespace, name) >= lookup_count(calls, n + "/"@ + name)
                &&& called_count_for(calls, namespace, name) >= lookup_count(calls, n + "."@ + name)
                &&& #[trigger] called_count_for(calls, namespace, name) >= lookup_count(calls, n + name)
                &&& {
                    ||| called_count_for(calls, namespace, name) == lookup_count(calls, name)
                    ||| called_count_for(calls, namespace, name) == lookup_count(calls, n + "/"@ + name)
                    ||| called_count_for(calls, namespace, name) == lookup_count(calls, n + "."@ + name)
                    ||| called_count_for(calls, namespace, name) == lookup_count(calls, n + name)
                }
            },
        namespace is None ==> called_count_for(calls, namespace, name) == (if lookup_count(calls, name)
            >= lookup_count(calls, Seq::empty()) {
            lookup_count(calls, name)
        } else {
            lookup_count(calls, Seq::empty())
        }),
{
}

/// Every tool listed as never called has no call counted under any of its
/// keys: not under its bare name, and with a namespace `n` and name `m` not
/// under `n/m`, `n.m` or `nm`.
pub proof fn never_called_tools_match_no_key(v: AccumulatorView, bundles_analyzed: usize)
    ensures
        forall|i: int|
            0 <= i < report_of(v, bundles_analyzed).exposed_but_never_called_tools.len() ==> lookup_count(
                v.called_tools,
                (#[trigger] report_of(v, bundles_analyzed).exposed_but_never_called_tools[i]).name,
            ) == 0 && called_count_for(
                v.called_tools,
                report_of(v, bundles_analyzed).exposed_but_never_called_tools[i].namespace,
                report_of(v, bundles_analyzed).exposed_but_never_called_tools[i].name,
            ) == 0,
        forall|i: int, n: Seq<char>|
            #![trigger report_of(v, bundles_analyzed).exposed_but_never_called_tools[i], lookup_count(v.called_tools, n + report_of(v, bundles_analyzed).exposed_but_never_called_tools[i].name)]
            0 <= i < report_of(v, bundles_analyzed).exposed_but_never_called_tools.len() && report_of(v, bundles_analyzed).exposed_but_never_called_tools[i].namespace
                == Some(n) ==> lookup_count(
                v.called_tools,
                n + "/"@ + report_of(v, bundles_analyzed).exposed_but_never_called_tools[i].name,
            ) == 0 && lookup_count(
                v.called_tools,
                n + "."@ + report_of(v, bundles_analyzed).exposed_but_never_called_tools[i].name,
            ) == 0 && lookup_count(
                v.called_tools,
                n + report_of(v, bundles_analyzed).exposed_but_never_called_tools[i].name,
            ) == 0,
{
    broadcast use vstd::seq_lib::group_to_multiset_ensures;

    report_selections_are_exact(v, bundles_analyzed);
    lemma_report_orders_strict();
    let unsorted = v.tools.map_values(
        |e: crate::analyze::ToolAggregateView| crate::analyze::tool_summary_of(e, v.called_tools),
    );
    lemma_sort_stable_by_props(unsorted, tool_summary_lt_fn());
    let r = report_of(v, bundles_analyzed);
    let tools = sorted_tool_summaries(v);
    let never = r.exposed_but_never_called_tools;
    assert forall|i: int| 0 <= i < never.len() implies called_count_for(
        v.called_tools,
        (#[trigger] never[i]).namespace,
        never[i].name,
    ) == 0 by {
        let t = never[i];
        assert(tools.contains(t));
        assert(tools.to_multiset().count(t) > 0);
        assert(unsorted.to_multiset().count(t) > 0);
        let k = choose|k: int| 0 <= k < unsorted.len() && unsorted[k] == t;
        assert(t.called_count == called_count_for(v.called_tools, t.namespace, t.name));
    }
    assert forall|i: int| 0 <= i < never.len() implies lookup_count(
        v.called_tools,
        (#[trigger] never[i]).name,
    ) == 0 by {
        called_counts_cover_every_key(v.called_tools, never[i].namespace, never[i].name);
    }
    assert forall|i: int, n: Seq<char>|
        #![trigger never[i], lookup_count(v.called_tools, n + never[i].name)]
        0 <= i < never.len() && never[i].namespace == Some(n)
        implies lookup_count(v.called_tools, n + "/"@ + never[i].name) == 0 && lookup_count(
        v.called_tools,
        n + "."@ + never[i].name,
    ) == 0 && lookup_count(v.called_tools, n + never[i].name) == 0 by {
        called_counts_cover_every_key(v.called_tools, never[i].namespace, never[i].name);
        assert(called_count_for(v.called_tools, never[i].namespace, never[i].name) == 0);
    }
}

/// A segment has low evidence exactly when its evidence is none or weak, its
/// criticality medium or low, and it costs at least 64 tokens; report lists
/// order larger counts first and equal counts by identifier.
pub proof fn low_evidence_and_order_thresholds(
    s: SegmentSummaryView,
    a: crate::report::RowView,
    b: crate::report::RowView,
)
    ensures
        crate::analyze::is_low_evidence(s) <==> (s.evidence == crate::snapshot::EvidenceStrength::NoEvidence
            || s.evidence == crate::snapshot::EvidenceStrength::Weak) && (s.criticality
            == crate::snapshot::PromptCriticality::Medium || s.criticality
            == crate::snapshot::PromptCriticality::Low) && s.token_count_estimate >= 64,
        crate::report::row_lt(a, b) <==> a.token_count_estimate > b.token_count_estimate || (
        a.token_count_estimate == b.token_count_estimate && crate::text::text_lt(a.id, b.id)),
{
}

} // verus!
