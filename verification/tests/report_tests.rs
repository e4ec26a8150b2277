use prompt_observability::report::display_action;
use prompt_observability::report::display_tool_name_string;
use prompt_observability::report::escape_markdown_table_cell;
use prompt_observability::report::render_markdown;
use prompt_observability::report::ChainCoverageSummary;
use prompt_observability::report::DeferredSearchSummary;
use prompt_observability::report::SegmentSummary;
use prompt_observability::report::TokenWaterfallRow;
use prompt_observability::report::ToolSummary;
use prompt_observability::report::TraceAnalysisReport;
use prompt_observability::snapshot::EvidenceStrength;
use prompt_observability::snapshot::OptimizationAction;
use prompt_observability::snapshot::OptimizationFinding;
use prompt_observability::snapshot::PromptCriticality;
use prompt_observability::snapshot::ToolExposure;

fn empty_report() -> TraceAnalysisReport {
    TraceAnalysisReport {
        bundles_analyzed: 1,
        snapshots_analyzed: 1,
        token_waterfall: Vec::new(),
        top_token_heavy_segments: Vec::new(),
        low_evidence_segments: Vec::new(),
        exposed_but_never_called_tools: Vec::new(),
        deferred_but_searched_tools: Vec::new(),
        chain_coverage: Vec::new(),
        findings: Vec::new(),
    }
}

#[test]
fn renders_markdown_report() {
    let mut report = empty_report();
    report.token_waterfall = vec![TokenWaterfallRow {
        id: "context:skills:v1".to_string(),
        label: "context:skills:v1".to_string(),
        category: "capabilities".to_string(),
        token_count_estimate: 80,
        occurrences: 1,
    }];

    let rendered = render_markdown(&report);

    assert_eq!(
        rendered.lines().take(8).collect::<Vec<_>>(),
        vec![
            "# Prompt Observability Trace Analysis",
            "",
            "- Bundles analyzed: 1",
            "- Snapshots analyzed: 1",
            "- Token counts: estimate",
            "",
            "## Token Waterfall",
            "",
        ]
    );
}

#[test]
fn renders_every_section_with_rows_or_none() {
    let mut report = empty_report();
    report.bundles_analyzed = 12;
    report.snapshots_analyzed = 305;
    report.token_waterfall = vec![TokenWaterfallRow {
        id: "a|b".to_string(),
        label: "a|b".to_string(),
        category: "line\nbreak".to_string(),
        token_count_estimate: 80,
        occurrences: 3,
    }];
    report.low_evidence_segments = vec![SegmentSummary {
        segment_id: "seg".to_string(),
        category: "behavior".to_string(),
        criticality: PromptCriticality::Low,
        token_count_estimate: 70,
        occurrences: 1,
        evidence: EvidenceStrength::NoEvidence,
    }];
    report.exposed_but_never_called_tools = vec![ToolSummary {
        tool_id: "t".to_string(),
        name: "read".to_string(),
        namespace: Some("srv".to_string()),
        exposure: ToolExposure::Hosted,
        token_count_estimate: 9,
        exposed_count: 2,
        called_count: 0,
    }];
    report.deferred_but_searched_tools = vec![DeferredSearchSummary {
        name: "fetch".to_string(),
        namespace: None,
        search_result_count: 4,
    }];
    report.chain_coverage = vec![ChainCoverageSummary {
        chain_id: "chain:x".to_string(),
        entered: 1,
        skipped: 2,
        fallback: 0,
    }];
    report.findings = vec![OptimizationFinding {
        target_id: "seg".to_string(),
        target_kind: "prompt_segment".to_string(),
        action: OptimizationAction::DeleteCandidate,
        evidence: EvidenceStrength::NoEvidence,
        reason: "why".to_string(),
        token_savings_estimate: 35,
    }];

    let expected = "# Prompt Observability Trace Analysis\n\n\
- Bundles analyzed: 12\n- Snapshots analyzed: 305\n- Token counts: estimate\n\n\
## Token Waterfall\n\n\
| ID | Category | Tokens | Occurrences |\n| --- | --- | --- | --- |\n\
| a\\|b | line break | 80 | 3 |\n\
\n## Low Evidence Segments\n\n\
| Segment | Category | Criticality | Tokens | Evidence |\n| --- | --- | --- | --- | --- |\n\
| seg | behavior | low | 70 | none |\n\
\n## Exposed But Never Called Tools\n\n\
| Tool | Exposure | Tokens | Exposed |\n| --- | --- | --- | --- |\n\
| srv.read | hosted | 9 | 2 |\n\
\n## Deferred But Searched Tools\n\n\
| Tool | Search Results |\n| --- | --- |\n\
| fetch | 4 |\n\
\n## Chain Coverage\n\n\
| Chain | Entered | Skipped | Fallback |\n| --- | --- | --- | --- |\n\
| chain:x | 1 | 2 | 0 |\n\
\n## Candidate Actions\n\n\
| Target | Action | Savings | Evidence | Reason |\n| --- | --- | --- | --- | --- |\n\
| seg | delete_candidate | 35 | none | why |\n";
    assert_eq!(render_markdown(&report), expected);
}

#[test]
fn empty_tables_get_a_none_row() {
    let rendered = render_markdown(&empty_report());
    assert!(rendered.contains(
        "## Chain Coverage\n\n| Chain | Entered | Skipped | Fallback |\n| --- | --- | --- | --- |\n| none | none | none | none |\n"
    ));
    assert!(rendered.ends_with("| none | none | none | none | none |\n"));
}

#[test]
fn tables_show_at_most_twenty_rows_but_all_chains() {
    let mut report = empty_report();
    for i in 0..25 {
        report.token_waterfall.push(TokenWaterfallRow {
            id: format!("row{i}"),
            label: format!("row{i}"),
            category: "c".to_string(),
            token_count_estimate: i,
            occurrences: 1,
        });
        report.chain_coverage.push(ChainCoverageSummary {
            chain_id: format!("chain{i}"),
            entered: i,
            skipped: 0,
            fallback: 0,
        });
    }
    let rendered = render_markdown(&report);
    assert!(rendered.contains("| row19 |"));
    assert!(!rendered.contains("| row20 |"));
    assert!(rendered.contains("| chain24 |"));
}

#[test]
fn table_cells_escape_pipes_and_line_breaks() {
    assert_eq!(escape_markdown_table_cell("a|b\nc"), "a\\|b c");
    assert_eq!(escape_markdown_table_cell("plain"), "plain");
    assert_eq!(escape_markdown_table_cell(""), "");
}

#[test]
fn tool_names_are_displayed_with_their_namespace() {
    assert_eq!(display_tool_name_string(&Some("ns".to_string()), "t"), "ns.t");
    assert_eq!(display_tool_name_string(&None, "t"), "t");
}

#[test]
fn actions_have_snake_case_names() {
    assert_eq!(display_action(OptimizationAction::Keep), "keep");
    assert_eq!(display_action(OptimizationAction::Compress), "compress");
    assert_eq!(display_action(OptimizationAction::LazyLoad), "lazy_load");
    assert_eq!(
        display_action(OptimizationAction::RouteConditionally),
        "route_conditionally"
    );
    assert_eq!(
        display_action(OptimizationAction::DeleteCandidate),
        "delete_candidate"
    );
}

#[test]
fn rendered_reports_have_one_line_per_shown_row() {
    let empty = render_markdown(&empty_report());
    assert_eq!(empty.matches('\n').count(), 41);
    let mut report = empty_report();
    for i in 0..25 {
        report.token_waterfall.push(TokenWaterfallRow {
            id: format!("row{i}"),
            label: format!("row{i}"),
            category: "multi\nline".to_string(),
            token_count_estimate: i,
            occurrences: 1,
        });
        report.chain_coverage.push(ChainCoverageSummary {
            chain_id: format!("chain{i}"),
            entered: i,
            skipped: 0,
            fallback: 0,
        });
    }
    let rendered = render_markdown(&report);
    assert_eq!(rendered.matches('\n').count(), 35 + 20 + 1 + 1 + 1 + 25 + 1);
}
