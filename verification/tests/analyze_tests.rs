use prompt_observability::analyze::analysis_work;
use prompt_observability::analyze::analyze_trace_path;
use prompt_observability::analyze::is_snapshot_event_kind;
use prompt_observability::analyze::tool_key_string;
use prompt_observability::analyze::AnalysisAccumulator;
use prompt_observability::analyze::SearchOutputJson;
use prompt_observability::analyze::ToolCallKind;
use prompt_observability::analyze::ToolInvocationJson;
use prompt_observability::analyze::ToolResultJson;
use prompt_observability::analyze::TraceEvent;
use prompt_observability::analyze::PROMPT_OBSERVABILITY_SNAPSHOT_EVENT_KIND;
use prompt_observability::snapshot::ChainCoverageTrace;
use prompt_observability::snapshot::ChainStatus;
use prompt_observability::snapshot::EvidenceStrength;
use prompt_observability::snapshot::OptimizationAction;
use prompt_observability::snapshot::PromptCriticality;
use prompt_observability::snapshot::PromptObservabilitySnapshot;
use prompt_observability::snapshot::PromptSegmentTrace;
use prompt_observability::snapshot::ToolExposure;
use prompt_observability::snapshot::ToolExposureTrace;
use prompt_observability::snapshot::ToolJson;
use prompt_observability::snapshot::ToolJsonEntry;

fn segment(
    id: &str,
    category: &str,
    criticality: PromptCriticality,
    tokens: usize,
) -> PromptSegmentTrace {
    PromptSegmentTrace {
        segment_id: id.to_string(),
        category: category.to_string(),
        role: "developer".to_string(),
        source: "message.text".to_string(),
        version: "v1".to_string(),
        token_count_estimate: tokens,
        byte_count: tokens * 4,
        criticality,
        trigger_condition: "test".to_string(),
        expected_behavior: None,
        dependencies: Vec::new(),
        content_hash: "hash".to_string(),
    }
}

fn tool(
    id: &str,
    name: &str,
    namespace: Option<&str>,
    exposure: ToolExposure,
    tokens: usize,
) -> ToolExposureTrace {
    ToolExposureTrace {
        tool_id: id.to_string(),
        name: name.to_string(),
        namespace: namespace.map(str::to_string),
        schema_hash: "hash".to_string(),
        token_count_estimate: tokens,
        byte_count: tokens * 4,
        exposure,
        source: "responses.tools".to_string(),
        called: None,
    }
}

fn chain(id: &str, status: ChainStatus) -> ChainCoverageTrace {
    ChainCoverageTrace {
        chain_id: id.to_string(),
        status,
        evidence: EvidenceStrength::Strong,
        reason: None,
    }
}

fn snapshot(
    segments: Vec<PromptSegmentTrace>,
    tools: Vec<ToolExposureTrace>,
    chains: Vec<ChainCoverageTrace>,
) -> PromptObservabilitySnapshot {
    PromptObservabilitySnapshot {
        schema_version: 1,
        thread_id: Some("thread".to_string()),
        turn_id: Some("turn".to_string()),
        inference_call_id: Some("inference".to_string()),
        model: "model".to_string(),
        prompt_segments: segments,
        tools,
        chains,
        input_token_count_estimate: 0,
        prompt_token_count_estimate: 0,
        tool_token_count_estimate: 0,
        total_token_count_estimate: 0,
        output_schema_present: false,
        output_schema_strict: true,
        parallel_tool_calls: false,
        notes: Vec::new(),
    }
}

fn snapshot_event(snapshots: Vec<PromptObservabilitySnapshot>) -> TraceEvent {
    TraceEvent::Other {
        kind: PROMPT_OBSERVABILITY_SNAPSHOT_EVENT_KIND.to_string(),
        snapshots,
    }
}

fn started(kind: ToolCallKind) -> TraceEvent {
    TraceEvent::ToolCallStarted {
        kind,
        invocation: None,
    }
}

#[test]
fn report_sorts_token_waterfall_and_findings() {
    let mut accumulator = AnalysisAccumulator::default();
    let mut first = segment(
        "context:skills:v1",
        "capabilities",
        PromptCriticality::Medium,
        200,
    );
    first.byte_count = 800;
    let mut second = segment(
        "base:model:gpt:hash",
        "base_instructions",
        PromptCriticality::High,
        100,
    );
    second.role = "instructions".to_string();
    second.source = "responses.instructions".to_string();
    second.trigger_condition = "always".to_string();
    second.byte_count = 400;
    let mut snap = snapshot(
        vec![first, second],
        vec![tool(
            "tool:global:run_tests:hash",
            "run_tests",
            None,
            ToolExposure::Direct,
            300,
        )],
        vec![chain("chain:responses_request:v1", ChainStatus::Entered)],
    );
    snap.prompt_token_count_estimate = 300;
    snap.tool_token_count_estimate = 300;
    snap.total_token_count_estimate = 600;
    accumulator.record_snapshot(snap);

    let report = accumulator.into_report(1);

    assert_eq!(
        report
            .token_waterfall
            .iter()
            .map(|row| row.id.as_str())
            .collect::<Vec<_>>(),
        vec![
            "tool:global:run_tests:hash",
            "context:skills:v1",
            "base:model:gpt:hash"
        ]
    );
    assert_eq!(report.findings[0].target_id, "tool:global:run_tests:hash");
}

#[test]
fn analyze_reads_snapshot_from_other_payload() {
    let mut snap = snapshot(
        vec![segment(
            "context:skills:v1",
            "capabilities",
            PromptCriticality::Medium,
            80,
        )],
        Vec::new(),
        Vec::new(),
    );
    snap.thread_id = Some("thread-root".to_string());
    snap.turn_id = Some("turn-1".to_string());
    snap.inference_call_id = Some("inference-1".to_string());
    snap.model = "gpt-test".to_string();
    snap.prompt_segments[0].byte_count = 320;
    snap.prompt_token_count_estimate = 80;
    snap.total_token_count_estimate = 80;

    let report = analyze_trace_path(vec![vec![snapshot_event(vec![snap])]]);

    assert_eq!(report.bundles_analyzed, 1);
    assert_eq!(report.snapshots_analyzed, 1);
    assert_eq!(
        report.top_token_heavy_segments[0].segment_id,
        "context:skills:v1"
    );
}

#[test]
fn snapshots_under_other_event_kinds_are_not_counted() {
    let snap = snapshot(
        vec![segment("a", "capabilities", PromptCriticality::Low, 10)],
        Vec::new(),
        Vec::new(),
    );
    let report = analyze_trace_path(vec![vec![
        TraceEvent::Other {
            kind: "something_else".to_string(),
            snapshots: vec![snap],
        },
        TraceEvent::Ignored,
    ]]);
    assert_eq!(report.bundles_analyzed, 1);
    assert_eq!(report.snapshots_analyzed, 0);
    assert!(report.top_token_heavy_segments.is_empty());
    assert!(report.token_waterfall.is_empty());
    assert!(report.findings.is_empty());
}

#[test]
fn empty_trace_gives_empty_report() {
    let report = analyze_trace_path(Vec::new());
    assert_eq!(report.bundles_analyzed, 0);
    assert_eq!(report.snapshots_analyzed, 0);
    assert!(report.token_waterfall.is_empty());
    assert!(report.chain_coverage.is_empty());
}

#[test]
fn segments_are_summed_across_snapshots_and_bundles() {
    let first = snapshot(
        vec![segment("seg", "behavior", PromptCriticality::Low, 40)],
        Vec::new(),
        vec![chain("chain:a", ChainStatus::Entered)],
    );
    let second = snapshot(
        vec![segment("seg", "behavior", PromptCriticality::Low, 30)],
        Vec::new(),
        vec![
            chain("chain:a", ChainStatus::Skipped),
            chain("chain:b", ChainStatus::Fallback),
        ],
    );
    let report = analyze_trace_path(vec![
        vec![snapshot_event(vec![first])],
        vec![snapshot_event(vec![second])],
    ]);
    assert_eq!(report.bundles_analyzed, 2);
    assert_eq!(report.snapshots_analyzed, 2);
    assert_eq!(report.top_token_heavy_segments.len(), 1);
    let seg = &report.top_token_heavy_segments[0];
    assert_eq!(seg.token_count_estimate, 70);
    assert_eq!(seg.occurrences, 2);
    assert_eq!(seg.evidence, EvidenceStrength::NoEvidence);
    // 70 tokens, low criticality, no evidence: a delete candidate saving half.
    assert_eq!(report.low_evidence_segments.len(), 1);
    assert_eq!(report.findings.len(), 1);
    assert_eq!(report.findings[0].action, OptimizationAction::DeleteCandidate);
    assert_eq!(report.findings[0].token_savings_estimate, 35);
    assert_eq!(report.findings[0].target_kind, "prompt_segment");

    let chains = &report.chain_coverage;
    assert_eq!(chains.len(), 2);
    assert_eq!(chains[0].chain_id, "chain:a");
    assert_eq!((chains[0].entered, chains[0].skipped, chains[0].fallback), (1, 1, 0));
    assert_eq!(chains[1].chain_id, "chain:b");
    assert_eq!((chains[1].entered, chains[1].skipped, chains[1].fallback), (0, 0, 1));
}

#[test]
fn token_totals_saturate() {
    let first = snapshot(
        vec![segment("seg", "behavior", PromptCriticality::Low, usize::MAX - 1)],
        Vec::new(),
        Vec::new(),
    );
    let second = snapshot(
        vec![segment("seg", "behavior", PromptCriticality::Low, 5)],
        Vec::new(),
        Vec::new(),
    );
    let report = analyze_trace_path(vec![vec![snapshot_event(vec![first, second])]]);
    assert_eq!(report.top_token_heavy_segments[0].token_count_estimate, usize::MAX);
}

#[test]
fn expensive_high_criticality_segment_is_reported_for_compression() {
    let snap = snapshot(
        vec![
            segment("big", "base_instructions", PromptCriticality::Critical, 900),
            segment("small", "base_instructions", PromptCriticality::High, 499),
            segment("medium", "user_input", PromptCriticality::Medium, 64),
            segment("tiny", "user_input", PromptCriticality::Medium, 63),
            segment("format", "output_format", PromptCriticality::Medium, 200),
        ],
        Vec::new(),
        Vec::new(),
    );
    let report = analyze_trace_path(vec![vec![snapshot_event(vec![snap])]]);
    let ids = report
        .findings
        .iter()
        .map(|f| (f.target_id.as_str(), f.action, f.token_savings_estimate))
        .collect::<Vec<_>>();
    assert_eq!(
        ids,
        vec![
            ("big", OptimizationAction::Compress, 300),
            ("medium", OptimizationAction::Compress, 32),
        ]
    );
    assert_eq!(
        report.findings[0].reason,
        "High-criticality prompt segment is expensive; report compression only."
    );
    assert_eq!(
        report.findings[1].reason,
        "Segment has low behavioral evidence in analyzed traces."
    );
    assert_eq!(report.findings[1].evidence, EvidenceStrength::Weak);
    let low = report
        .low_evidence_segments
        .iter()
        .map(|s| s.segment_id.as_str())
        .collect::<Vec<_>>();
    assert_eq!(low, vec!["medium"]);
    let order = report
        .top_token_heavy_segments
        .iter()
        .map(|s| s.segment_id.as_str())
        .collect::<Vec<_>>();
    assert_eq!(order, vec!["big", "small", "format", "medium", "tiny"]);
}

#[test]
fn called_tools_are_matched_by_every_key_form() {
    let snap = snapshot(
        vec![segment("caps", "capabilities", PromptCriticality::Medium, 100)],
        vec![
            tool("t1", "search", Some("mcp__docs__"), ToolExposure::Direct, 50),
            tool("t2", "local_shell", None, ToolExposure::Direct, 40),
            tool("t3", "never", None, ToolExposure::Direct, 30),
            tool("t4", "hosted", None, ToolExposure::Hosted, 20),
            tool("t5", "deferred", None, ToolExposure::Deferred, 10),
            tool("t6", "free", None, ToolExposure::Search, 0),
        ],
        Vec::new(),
    );
    let events = vec![
        snapshot_event(vec![snap]),
        TraceEvent::ToolCallStarted {
            kind: ToolCallKind::Unknown,
            invocation: Some(ToolInvocationJson {
                tool_name: Some("search".to_string()),
                tool_namespace: Some("mcp__docs__".to_string()),
                payload_type: None,
            }),
        },
        started(ToolCallKind::ExecCommand),
        started(ToolCallKind::ExecCommand),
    ];
    let report = analyze_trace_path(vec![events]);

    let called = report
        .exposed_but_never_called_tools
        .iter()
        .map(|t| t.tool_id.as_str())
        .collect::<Vec<_>>();
    assert_eq!(called, vec!["t3", "t4", "t5", "t6"]);

    let waterfall = report
        .token_waterfall
        .iter()
        .map(|row| (row.id.as_str(), row.label.as_str(), row.category.as_str()))
        .collect::<Vec<_>>();
    assert_eq!(waterfall[0], ("caps", "caps", "capabilities"));
    assert_eq!(waterfall[1], ("t1", "mcp__docs__.search", "tool_schema"));

    // Tools were called, so capabilities have medium evidence: no finding.
    assert_eq!(report.top_token_heavy_segments[0].evidence, EvidenceStrength::Medium);
    assert!(report.low_evidence_segments.is_empty());

    let findings = report
        .findings
        .iter()
        .map(|f| (f.target_id.as_str(), f.action, f.token_savings_estimate))
        .collect::<Vec<_>>();
    assert_eq!(
        findings,
        vec![
            ("t3", OptimizationAction::LazyLoad, 30),
            ("t4", OptimizationAction::RouteConditionally, 20),
            ("t5", OptimizationAction::Keep, 10),
        ]
    );
    assert_eq!(report.findings[0].target_kind, "tool_schema");
    assert_eq!(report.findings[0].evidence, EvidenceStrength::Strong);
    assert_eq!(
        report.findings[0].reason,
        "Tool schema was exposed but no matching dispatch was observed."
    );
}

#[test]
fn called_count_takes_the_largest_matching_key() {
    let snap = snapshot(
        Vec::new(),
        vec![tool("t", "read", Some("srv"), ToolExposure::Direct, 10)],
        Vec::new(),
    );
    let mcp = started(ToolCallKind::Mcp {
        server: "srv".to_string(),
        tool: "read".to_string(),
    });
    let bare = started(ToolCallKind::Other {
        name: "read".to_string(),
    });
    let mut accumulator = AnalysisAccumulator::new();
    accumulator.record_event(&snapshot_event(vec![snap]));
    accumulator.record_event(&mcp);
    accumulator.record_event(&bare);
    let report = accumulator.into_report(1);
    assert!(report.exposed_but_never_called_tools.is_empty());
    assert!(report.findings.is_empty());
    assert_eq!(report.token_waterfall[0].label, "srv.read");
}

#[test]
fn tool_search_results_are_counted_per_loadable_tool() {
    let function = ToolJson {
        tool_type: Some("function".to_string()),
        name: Some("lookup".to_string()),
        defer_loading: None,
        tools: None,
        serialized: "{}".to_string(),
    };
    let namespace = ToolJson {
        tool_type: Some("namespace".to_string()),
        name: Some("docs".to_string()),
        defer_loading: None,
        tools: Some(vec![
            ToolJsonEntry {
                name: Some("fetch".to_string()),
                defer_loading: None,
                serialized: "{}".to_string(),
            },
            ToolJsonEntry {
                name: None,
                defer_loading: None,
                serialized: "{}".to_string(),
            },
        ]),
        serialized: "{}".to_string(),
    };
    let result = |tools: Vec<ToolJson>| TraceEvent::ToolCallEnded {
        result: Some(ToolResultJson {
            response_item: Some(SearchOutputJson {
                item_type: Some("tool_search_output".to_string()),
                tools: Some(tools),
            }),
        }),
    };
    let other_type = TraceEvent::ToolCallEnded {
        result: Some(ToolResultJson {
            response_item: Some(SearchOutputJson {
                item_type: Some("message".to_string()),
                tools: Some(vec![function.clone()]),
            }),
        }),
    };
    let report = analyze_trace_path(vec![vec![
        result(vec![function.clone(), namespace.clone()]),
        result(vec![function.clone()]),
        other_type,
        TraceEvent::ToolCallEnded { result: None },
    ]]);
    let searched = report
        .deferred_but_searched_tools
        .iter()
        .map(|t| (t.namespace.as_deref(), t.name.as_str(), t.search_result_count))
        .collect::<Vec<_>>();
    assert_eq!(searched, vec![(None, "lookup", 2), (Some("docs"), "fetch", 1)]);
}

#[test]
fn tool_search_invocation_counts_as_a_call() {
    let snap = snapshot(
        Vec::new(),
        vec![tool("search", "tool_search", None, ToolExposure::Search, 12)],
        Vec::new(),
    );
    let report = analyze_trace_path(vec![vec![
        snapshot_event(vec![snap]),
        TraceEvent::ToolCallStarted {
            kind: ToolCallKind::Unknown,
            invocation: Some(ToolInvocationJson {
                tool_name: None,
                tool_namespace: None,
                payload_type: Some("tool_search".to_string()),
            }),
        },
    ]]);
    assert!(report.exposed_but_never_called_tools.is_empty());
    assert_eq!(report.exposed_but_never_called_tools.len(), 0);
    assert_eq!(report.token_waterfall[0].occurrences, 1);
}

#[test]
fn tool_keys_join_namespace_and_name() {
    assert_eq!(tool_key_string(Some("ns"), "tool"), "ns/tool");
    assert_eq!(tool_key_string(None, "tool"), "tool");
}

#[test]
fn snapshot_event_kind_is_recognized() {
    assert!(is_snapshot_event_kind(PROMPT_OBSERVABILITY_SNAPSHOT_EVENT_KIND));
    assert!(!is_snapshot_event_kind("other"));
}

#[test]
fn splitting_events_into_bundles_only_changes_the_bundle_count() {
    let snap = snapshot(
        vec![segment("s", "tools", PromptCriticality::Medium, 90)],
        vec![tool("t", "run", None, ToolExposure::Direct, 40)],
        vec![chain("c", ChainStatus::Entered)],
    );
    let events = vec![
        snapshot_event(vec![snap.clone()]),
        started(ToolCallKind::Other {
            name: "run".to_string(),
        }),
        snapshot_event(vec![snap]),
    ];
    let merged = analyze_trace_path(vec![events.clone()]);
    let mut split = analyze_trace_path(vec![events[..1].to_vec(), events[1..].to_vec()]);
    assert_eq!(split.bundles_analyzed, 2);
    assert_eq!(merged.bundles_analyzed, 1);
    split.bundles_analyzed = 1;
    assert_eq!(split, merged);
    assert_eq!(merged.snapshots_analyzed, 2);
    assert_eq!(merged.top_token_heavy_segments[0].token_count_estimate, 180);
    assert_eq!(merged.top_token_heavy_segments[0].occurrences, 2);
}

#[test]
fn a_dispatched_tool_is_never_reported_unused() {
    let snap = snapshot(
        Vec::new(),
        vec![
            tool("a", "shared", Some("one"), ToolExposure::Direct, 10),
            tool("b", "shared", Some("two"), ToolExposure::Direct, 10),
            tool("c", "shared", None, ToolExposure::Direct, 10),
            tool("d", "other", None, ToolExposure::Direct, 10),
        ],
        Vec::new(),
    );
    let report = analyze_trace_path(vec![vec![
        snapshot_event(vec![snap]),
        TraceEvent::ToolCallStarted {
            kind: ToolCallKind::Unknown,
            invocation: Some(ToolInvocationJson {
                tool_name: Some("shared".to_string()),
                tool_namespace: Some("one".to_string()),
                payload_type: None,
            }),
        },
    ]]);
    let unused = report
        .exposed_but_never_called_tools
        .iter()
        .map(|t| t.tool_id.as_str())
        .collect::<Vec<_>>();
    assert_eq!(unused, vec!["d"]);
}

#[test]
fn each_segment_and_chain_gets_one_line() {
    let make = |tokens| {
        snapshot(
            vec![
                segment("x", "behavior", PromptCriticality::Low, tokens),
                segment("y", "behavior", PromptCriticality::Low, 1),
            ],
            Vec::new(),
            vec![chain("c", ChainStatus::Entered), chain("c", ChainStatus::Fallback)],
        )
    };
    let report = analyze_trace_path(vec![vec![snapshot_event(vec![make(5), make(7)])]]);
    let ids = report
        .top_token_heavy_segments
        .iter()
        .map(|s| (s.segment_id.as_str(), s.token_count_estimate, s.occurrences))
        .collect::<Vec<_>>();
    assert_eq!(ids, vec![("x", 12, 2), ("y", 2, 2)]);
    assert_eq!(report.chain_coverage.len(), 1);
    assert_eq!(report.chain_coverage[0].entered, 2);
    assert_eq!(report.chain_coverage[0].fallback, 2);
}

#[test]
fn analysis_work_counts_every_increment() {
    let snap = snapshot(
        vec![segment("s", "tools", PromptCriticality::Medium, 1)],
        vec![tool("t", "run", None, ToolExposure::Direct, 1)],
        vec![chain("c", ChainStatus::Entered), chain("d", ChainStatus::Skipped)],
    );
    let function = ToolJson {
        tool_type: Some("function".to_string()),
        name: Some("lookup".to_string()),
        defer_loading: None,
        tools: None,
        serialized: "{}".to_string(),
    };
    let events = vec![
        snapshot_event(vec![snap.clone(), snap]),
        started(ToolCallKind::ExecCommand),
        TraceEvent::ToolCallEnded {
            result: Some(ToolResultJson {
                response_item: Some(SearchOutputJson {
                    item_type: Some("tool_search_output".to_string()),
                    tools: Some(vec![function]),
                }),
            }),
        },
        TraceEvent::Ignored,
    ];
    // Two snapshots of 1 + 1 + 1 + 2, one started call, one search result.
    assert_eq!(analysis_work(&vec![events.clone(), Vec::new()]), Some(13));
    assert_eq!(analysis_work(&Vec::new()), Some(0));
}

#[test]
fn unused_tools_keep_their_first_exposure() {
    let first = snapshot(
        Vec::new(),
        vec![tool("t", "first_name", None, ToolExposure::Deferred, 5)],
        Vec::new(),
    );
    let second = snapshot(
        Vec::new(),
        vec![tool("t", "second_name", Some("ns"), ToolExposure::Direct, 7)],
        Vec::new(),
    );
    let report = analyze_trace_path(vec![vec![snapshot_event(vec![first, second])]]);
    assert_eq!(report.exposed_but_never_called_tools.len(), 1);
    let t = &report.exposed_but_never_called_tools[0];
    assert_eq!(t.name, "first_name");
    assert_eq!(t.namespace, None);
    assert_eq!(t.exposure, ToolExposure::Deferred);
    assert_eq!(t.token_count_estimate, 12);
    assert_eq!(t.exposed_count, 2);
    assert_eq!(report.findings[0].action, OptimizationAction::Keep);
}
