use prompt_observability::digest::stable_hash;
use prompt_observability::snapshot::build_prompt_observability_snapshot;
use prompt_observability::snapshot::estimate_json_tokens;
use prompt_observability::snapshot::slugify;
use prompt_observability::snapshot::try_build_prompt_observability_snapshot;
use prompt_observability::snapshot::ChainStatus;
use prompt_observability::snapshot::ContentItemJson;
use prompt_observability::snapshot::EvidenceStrength;
use prompt_observability::snapshot::OutputJson;
use prompt_observability::snapshot::PromptCriticality;
use prompt_observability::snapshot::PromptSnapshotInput;
use prompt_observability::snapshot::ResponseItemJson;
use prompt_observability::snapshot::ToolExposure;
use prompt_observability::snapshot::ToolJson;
use prompt_observability::snapshot::ToolJsonEntry;
use prompt_observability::tokens::approx_token_count;
use prompt_observability::tokens::approx_tokens_from_byte_count;

fn compact(json: &str) -> String {
    let value: serde_json::Value = serde_json::from_str(json).expect("valid json");
    serde_json::to_string(&value).expect("serializable")
}

fn text_content(text: &str) -> ContentItemJson {
    ContentItemJson {
        content_type: Some("input_text".to_string()),
        text: Some(text.to_string()),
        image_url: None,
    }
}

fn message(role: &str, contents: Vec<ContentItemJson>) -> ResponseItemJson {
    ResponseItemJson {
        item_type: Some("message".to_string()),
        role: Some(role.to_string()),
        content: Some(contents),
        output: OutputJson::Other,
        tools_text: "null".to_string(),
        serialized: "{}".to_string(),
    }
}

fn input<'a>(
    items: &'a [ResponseItemJson],
    tools: &'a [ToolJson],
    schema: Option<&'a str>,
) -> PromptSnapshotInput<'a> {
    PromptSnapshotInput {
        thread_id: None,
        turn_id: None,
        inference_call_id: None,
        model: "gpt-5.4",
        base_instructions: "base",
        input_json: items,
        tools_json: tools,
        output_schema_json: schema,
        output_schema_present: schema.is_some(),
        output_schema_strict: true,
        parallel_tool_calls: false,
    }
}

#[test]
fn stable_hash_is_short_and_stable() {
    assert_eq!(stable_hash("abc"), "a9993e36");
}

#[test]
fn segment_ids_use_expected_shapes() {
    let item_json = compact(
        r#"{"type":"message","role":"developer","content":[{"type":"input_text","text":"<permissions instructions>be careful</permissions instructions>"}]}"#,
    );
    let mut item = message(
        "developer",
        vec![text_content("<permissions instructions>be careful</permissions instructions>")],
    );
    item.serialized = item_json;
    let tool = ToolJson {
        tool_type: Some("function".to_string()),
        name: Some("run_tests".to_string()),
        defer_loading: None,
        tools: None,
        serialized: compact(
            r#"{"type":"function","name":"run_tests","description":"Run tests","parameters":{"type":"object"}}"#,
        ),
    };
    let items = [item];
    let tools = [tool];
    let snapshot = build_prompt_observability_snapshot(PromptSnapshotInput {
        thread_id: Some("thread-1"),
        turn_id: Some("turn-1"),
        inference_call_id: Some("call-1"),
        model: "gpt-5.4",
        base_instructions: "base",
        input_json: &items,
        tools_json: &tools,
        output_schema_json: None,
        output_schema_present: false,
        output_schema_strict: true,
        parallel_tool_calls: true,
    });

    assert_eq!(
        snapshot
            .prompt_segments
            .iter()
            .map(|segment| segment.segment_id.as_str())
            .collect::<Vec<_>>(),
        vec!["base:model:gpt_5_4:1405df66", "context:permissions:v1"]
    );
    assert_eq!(snapshot.tools[0].tool_id, "tool:global:run_tests:581ec80c");
}

#[test]
fn output_schema_is_tracked_as_a_prompt_segment() {
    let output_schema = compact(
        r#"{"type":"object","properties":{"answer":{"type":"string"}},"required":["answer"],"additionalProperties":false}"#,
    );
    let snapshot = build_prompt_observability_snapshot(PromptSnapshotInput {
        thread_id: None,
        turn_id: None,
        inference_call_id: None,
        model: "gpt-5.4",
        base_instructions: "base",
        input_json: &[],
        tools_json: &[],
        output_schema_json: Some(&output_schema),
        output_schema_present: true,
        output_schema_strict: true,
        parallel_tool_calls: false,
    });

    let output_schema_segment = snapshot
        .prompt_segments
        .iter()
        .find(|segment| segment.segment_id == "context:output_schema:v1")
        .expect("output schema segment");
    assert_eq!(output_schema_segment.category, "output_format");
    assert_eq!(
        output_schema_segment.token_count_estimate,
        estimate_json_tokens(&output_schema)
    );
}

#[test]
fn token_estimate_uses_existing_byte_based_counter() {
    assert_eq!(estimate_json_tokens(&compact(r#"{"abcd": "efgh"}"#)), 4);
}

#[test]
fn approx_token_count_rounds_up_bytes() {
    assert_eq!(approx_token_count(""), 0);
    assert_eq!(approx_token_count("a"), 1);
    assert_eq!(approx_token_count("abcd"), 1);
    assert_eq!(approx_token_count("abcde"), 2);
    // two bytes per character here
    assert_eq!(approx_token_count("éé"), 1);
    assert_eq!(approx_token_count("ééé"), 2);
    assert_eq!(approx_tokens_from_byte_count(15), 4);
    assert_eq!(approx_token_count_max(), usize::MAX / 4);
}

fn approx_token_count_max() -> usize {
    approx_tokens_from_byte_count(usize::MAX) as usize
}

#[test]
fn slugify_keeps_lowercase_alphanumerics() {
    assert_eq!(slugify("gpt-5.4"), "gpt_5_4");
    assert_eq!(slugify("__Run Tests!__"), "run_tests");
    assert_eq!(slugify("---"), "unknown");
    assert_eq!(slugify(""), "unknown");
    assert_eq!(slugify("ÄBC"), "bc");
}

#[test]
fn text_without_markers_is_one_fallback_segment() {
    let items = [message("user", vec![text_content("  fix the bug  ")])];
    let snapshot = build_prompt_observability_snapshot(input(&items, &[], None));
    let segment = &snapshot.prompt_segments[1];
    assert_eq!(segment.segment_id, "context:user_input_or_context:v1");
    assert_eq!(segment.category, "user_input");
    assert_eq!(segment.criticality, PromptCriticality::High);
    // the whole text, untrimmed
    assert_eq!(segment.byte_count, 15);
    assert_eq!(segment.content_hash, stable_hash("  fix the bug  "));
}

#[test]
fn markers_split_text_in_order_of_position() {
    let text = "intro\n<environment_context>cwd</environment_context>\n<permissions instructions>p</permissions instructions>";
    let items = [message("developer", vec![text_content(text)])];
    let snapshot = build_prompt_observability_snapshot(input(&items, &[], None));
    let ids = snapshot
        .prompt_segments
        .iter()
        .map(|s| s.segment_id.as_str())
        .collect::<Vec<_>>();
    assert_eq!(
        ids,
        vec![
            "base:model:gpt_5_4:1405df66",
            "context:developer_instructions:v1",
            "context:environment_context:v1",
            "context:permissions:v1",
        ]
    );
    let env = &snapshot.prompt_segments[2];
    assert_eq!(env.content_hash, stable_hash("<environment_context>cwd</environment_context>"));
    assert_eq!(env.category, "runtime_context");
    assert_eq!(snapshot.prompt_segments[1].content_hash, stable_hash("intro"));
}

#[test]
fn tool_outputs_join_texts_with_newlines() {
    let item = ResponseItemJson {
        item_type: Some("function_call_output".to_string()),
        role: None,
        content: None,
        output: OutputJson::Items(vec![Some("a".to_string()), None, Some("b".to_string())]),
        tools_text: "null".to_string(),
        serialized: "{}".to_string(),
    };
    let empty = ResponseItemJson {
        output: OutputJson::Items(vec![None]),
        ..item.clone()
    };
    let items = [item, empty];
    let snapshot = build_prompt_observability_snapshot(input(&items, &[], None));
    assert_eq!(snapshot.prompt_segments.len(), 2);
    assert_eq!(snapshot.prompt_segments[1].content_hash, stable_hash("a\nb"));
    assert_eq!(snapshot.prompt_segments[1].category, "tool_result");
}

#[test]
fn namespace_tools_are_traced_one_by_one() {
    let tool = ToolJson {
        tool_type: Some("namespace".to_string()),
        name: Some("Docs".to_string()),
        defer_loading: None,
        tools: Some(vec![
            ToolJsonEntry {
                name: Some("search".to_string()),
                defer_loading: Some(true),
                serialized: "{\"name\":\"search\"}".to_string(),
            },
            ToolJsonEntry { name: None, defer_loading: None, serialized: "{}".to_string() },
        ]),
        serialized: "{}".to_string(),
    };
    let hosted = ToolJson {
        tool_type: Some("web_search".to_string()),
        name: None,
        defer_loading: None,
        tools: None,
        serialized: "{\"type\":\"web_search\"}".to_string(),
    };
    let search = ToolJson {
        tool_type: Some("tool_search".to_string()),
        name: None,
        defer_loading: None,
        tools: None,
        serialized: "{\"type\":\"tool_search\"}".to_string(),
    };
    let tools = [tool, hosted, search];
    let snapshot = build_prompt_observability_snapshot(input(&[], &tools, None));
    assert_eq!(snapshot.tools.len(), 4);
    assert_eq!(snapshot.tools[0].exposure, ToolExposure::Deferred);
    assert_eq!(snapshot.tools[0].namespace.as_deref(), Some("Docs"));
    assert_eq!(
        snapshot.tools[0].tool_id,
        format!("tool:docs:search:{}", stable_hash("{\"name\":\"search\"}"))
    );
    assert_eq!(snapshot.tools[1].name, "namespace_tool");
    assert_eq!(snapshot.tools[2].exposure, ToolExposure::Hosted);
    assert_eq!(snapshot.tools[3].exposure, ToolExposure::Search);
    assert_eq!(snapshot.chains[1].status, ChainStatus::Entered);
    assert_eq!(snapshot.chains[1].evidence, EvidenceStrength::Medium);
    let total: usize = snapshot.tools.iter().map(|t| t.token_count_estimate).sum();
    assert_eq!(snapshot.tool_token_count_estimate, total);
    assert_eq!(
        snapshot.total_token_count_estimate,
        snapshot.prompt_token_count_estimate + snapshot.tool_token_count_estimate
    );
}

#[test]
fn chains_record_skipped_tool_search() {
    let snapshot = build_prompt_observability_snapshot(input(&[], &[], None));
    assert_eq!(snapshot.chains.len(), 2);
    assert_eq!(snapshot.chains[0].chain_id, "chain:responses_request:v1");
    assert_eq!(snapshot.chains[1].status, ChainStatus::Skipped);
    assert_eq!(snapshot.chains[1].evidence, EvidenceStrength::Weak);
    assert_eq!(snapshot.notes.len(), 2);
    assert_eq!(snapshot.schema_version, 1);
}

#[test]
fn try_build_gives_the_same_snapshot() {
    let items = [message("assistant", vec![text_content("done")])];
    let a = build_prompt_observability_snapshot(input(&items, &[], None));
    let b = try_build_prompt_observability_snapshot(input(&items, &[], None)).expect("fits");
    assert_eq!(a, b);
    assert_eq!(a.prompt_segments[1].category, "conversation_history");
}

#[test]
fn stable_hashes_are_eight_lowercase_hex_digits() {
    for text in ["", "abc", "Prompt Observability", "ééé"] {
        let hash = stable_hash(text);
        assert_eq!(hash.len(), 8);
        assert!(hash
            .chars()
            .all(|c| c.is_ascii_digit() || ('a'..='f').contains(&c)));
    }
    assert_eq!(stable_hash(""), "da39a3ee");
}
