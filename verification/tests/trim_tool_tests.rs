use prompt_observability::trim_tool::create_trim_prompt_context_tool;
use prompt_observability::trim_tool::FieldSchema;
use prompt_observability::trim_tool::PruningApplyStats;
use prompt_observability::trim_tool::PruningPlanStats;
use prompt_observability::trim_tool::ToolSpec;
use prompt_observability::trim_tool::TrimPromptContextHandler;
use prompt_observability::trim_tool::TRIM_PROMPT_CONTEXT_TOOL_NAME;

#[test]
fn trim_prompt_context_tool_declares_expected_name() {
    let ToolSpec::Function(tool) = create_trim_prompt_context_tool();

    assert_eq!(tool.name, TRIM_PROMPT_CONTEXT_TOOL_NAME);
    assert!(tool
        .description
        .contains("Conditionally prune already-consumed large tool outputs"));
}

#[test]
fn trim_tool_parameters_are_a_closed_object() {
    let ToolSpec::Function(tool) = create_trim_prompt_context_tool();
    assert!(!tool.strict);
    assert_eq!(tool.defer_loading, None);
    assert_eq!(tool.output_schema, None);
    assert_eq!(tool.parameters.required, None);
    assert_eq!(tool.parameters.additional_properties, Some(false));
    let names = tool
        .parameters
        .properties
        .iter()
        .map(|p| p.name.as_str())
        .collect::<Vec<_>>();
    assert_eq!(
        names,
        vec!["drop_call_ids", "drop_commands", "keep_call_ids", "keep_commands", "reason"]
    );
    assert!(matches!(
        tool.parameters.properties[4].schema,
        FieldSchema::String { .. }
    ));
    assert!(matches!(
        tool.parameters.properties[0].schema,
        FieldSchema::StringArray { .. }
    ));
}

#[test]
fn handler_serves_the_trim_tool() {
    let handler = TrimPromptContextHandler;
    assert_eq!(handler.tool_name(), "trim_prompt_context");
    assert_eq!(handler.spec(), Some(create_trim_prompt_context_tool()));
}

#[test]
fn summary_reports_saved_tokens_when_outputs_were_rewritten() {
    let handler = TrimPromptContextHandler;
    let plan = PruningPlanStats {
        candidate_outputs: 3,
        original_token_estimate: 1000,
        replacement_token_estimate: 120,
    };
    let applied = PruningApplyStats {
        matched_hints: 2,
        rewritten_outputs: 2,
        skipped_hints: 1,
    };
    let outcome = handler.summarize(plan, applied, Some("done with logs".to_string()));
    assert_eq!(outcome.status, "ok");
    assert_eq!(outcome.candidate_outputs, 3);
    assert_eq!(outcome.matched_hints, 2);
    assert_eq!(outcome.rewritten_outputs, 2);
    assert_eq!(outcome.skipped_hints, 1);
    assert_eq!(outcome.saved_token_estimate, 880);
    assert_eq!(outcome.reason, "done with logs");
}

#[test]
fn summary_saves_nothing_without_rewrites() {
    let handler = TrimPromptContextHandler;
    let plan = PruningPlanStats {
        candidate_outputs: 3,
        original_token_estimate: 1000,
        replacement_token_estimate: 120,
    };
    let applied = PruningApplyStats {
        matched_hints: 0,
        rewritten_outputs: 0,
        skipped_hints: 4,
    };
    let outcome = handler.summarize(plan, applied, None);
    assert_eq!(outcome.saved_token_estimate, 0);
    assert_eq!(outcome.reason, "");
}

#[test]
fn summary_saving_never_goes_below_zero() {
    let handler = TrimPromptContextHandler;
    let plan = PruningPlanStats {
        candidate_outputs: 1,
        original_token_estimate: 10,
        replacement_token_estimate: 50,
    };
    let applied = PruningApplyStats {
        matched_hints: 1,
        rewritten_outputs: 1,
        skipped_hints: 0,
    };
    assert_eq!(handler.summarize(plan, applied, None).saved_token_estimate, 0);
}
