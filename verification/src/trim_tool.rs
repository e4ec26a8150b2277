//! The `trim_prompt_context` tool: its declaration to the model, and the
//! summary it answers with after pruning consumed tool outputs.
use vstd::prelude::*;

use crate::snapshot::opt_view;
use crate::text::owned;

verus! {

/// The name under which the tool is offered to the model.
pub const TRIM_PROMPT_CONTEXT_TOOL_NAME: &'static str = "trim_prompt_context";

/// The schema of one tool argument.
#[derive(Debug, Clone, PartialEq, Eq)]
pub enum FieldSchema {
    /// A string, with its description.
    String { description: Option<String> },
    /// An array of strings, with the description of the items and of the array.
    StringArray { item_description: Option<String>, description: Option<String> },
}

/// A named argument of a tool.
#[derive(Debug, Clone, PartialEq, Eq)]
pub struct PropertySchema {
    pub name: String,
    pub schema: FieldSchema,
}

/// The object schema of a tool's arguments, properties in name order.
#[derive(Debug, Clone, PartialEq, Eq)]
pub struct ObjectSchema {
    pub properties: Vec<PropertySchema>,
    pub required: Option<Vec<String>>,
    pub additional_properties: Option<bool>,
}

/// A function tool of the Responses API.
#[derive(Debug, Clone, PartialEq, Eq)]
pub struct ResponsesApiTool {
    pub name: String,
    pub description: String,
    pub strict: bool,
    pub defer_loading: Option<bool>,
    pub parameters: ObjectSchema,
    pub output_schema: Option<ObjectSchema>,
}

/// A tool offered to the model.
#[derive(Debug, Clone, PartialEq, Eq)]
pub enum ToolSpec {
    Function(ResponsesApiTool),
}

/// A field schema as plain values.
pub enum FieldSchemaView {
    String { description: Option<Seq<char>> },
    StringArray { item_description: Option<Seq<char>>, description: Option<Seq<char>> },
}

/// The view of a field schema.
pub open spec fn field_view(f: FieldSchema) -> FieldSchemaView {
    match f {
        FieldSchema::String { description } => FieldSchemaView::String {
            description: opt_view(description),
        },
        FieldSchema::StringArray { item_description, description } => FieldSchemaView::StringArray {
            item_description: opt_view(item_description),
            description: opt_view(description),
        },
    }
}

/// The view of a property.
pub open spec fn property_view(p: PropertySchema) -> (Seq<char>, FieldSchemaView) {
    (p.name@, field_view(p.schema))
}

/// The arguments of `trim_prompt_context`, in name order.
pub open spec fn trim_tool_properties() -> Seq<(Seq<char>, FieldSchemaView)> {
    seq![
        (
            "drop_call_ids"@,
            FieldSchemaView::StringArray {
                item_description: Some(
                    "Tool call ids or visible Chunk IDs whose already-consumed outputs are no longer useful."@,
                ),
                description: Some(
                    "Exact call ids or visible Chunk IDs to prune from prompt history."@,
                ),
            },
        ),
        (
            "drop_commands"@,
            FieldSchemaView::StringArray {
                item_description: Some(
                    "Command substrings identifying already-consumed outputs to prune."@,
                ),
                description: Some(
                    "Command fragments to prune; fragments shorter than 6 characters are ignored."@,
                ),
            },
        ),
        (
            "keep_call_ids"@,
            FieldSchemaView::StringArray {
                item_description: Some(
                    "Tool call ids or visible Chunk IDs that must remain useful. If no drop selectors are provided, all other large prunable outputs become prune candidates."@,
                ),
                description: Some(
                    "Exact call ids or visible Chunk IDs to preserve; keep-only calls prune other large outputs."@,
                ),
            },
        ),
        (
            "keep_commands"@,
            FieldSchemaView::StringArray {
                item_description: Some(
                    "Command substrings that must remain useful. If no drop selectors are provided, all other large prunable outputs become prune candidates."@,
                ),
                description: Some(
                    "Command fragments to preserve; keep-only calls prune other large outputs."@,
                ),
            },
        ),
        (
            "reason"@,
            FieldSchemaView::String {
                description: Some(
                    "Short reason for the pruning decision; do not include hidden reasoning."@,
                ),
            },
        ),
    ]
}

/// The description of `trim_prompt_context`.
pub open spec fn trim_tool_description() -> Seq<char> {
    "Conditionally prune already-consumed large tool outputs from prompt history. Use only when at least one large output is no longer needed; provide keep selectors for evidence still needed."@
}

/// What the declaration of `trim_prompt_context` holds: its name and
/// description, a non-strict function with five optional arguments and no
/// further properties allowed.
pub open spec fn is_trim_tool(tool: ResponsesApiTool) -> bool {
    &&& tool.name@ == TRIM_PROMPT_CONTEXT_TOOL_NAME@
    &&& tool.description@ == trim_tool_description()
    &&& !tool.strict
    &&& tool.defer_loading is None
    &&& tool.parameters.properties@.map_values(|p: PropertySchema| property_view(p))
        == trim_tool_properties()
    &&& tool.parameters.required is None
    &&& tool.parameters.additional_properties == Some(false)
    &&& tool.output_schema is None
}

fn string_array(item_description: &str, description: &str) -> (f: FieldSchema)
    ensures
        field_view(f) == (FieldSchemaView::StringArray {
            item_description: Some(item_description@),
            description: Some(description@),
        }),
{
    FieldSchema::StringArray {
        item_description: Some(owned(item_description)),
        description: Some(owned(description)),
    }
}

/// The declaration of `trim_prompt_context`.
pub fn create_trim_prompt_context_tool() -> (spec: ToolSpec)
    ensures
        spec matches ToolSpec::Function(tool) && is_trim_tool(tool),
{
    let mut properties: Vec<PropertySchema> = Vec::new();
    properties.push(
        PropertySchema {
            name: owned("drop_call_ids"),
            schema: string_array(
                "Tool call ids or visible Chunk IDs whose already-consumed outputs are no longer useful.",
                "Exact call ids or visible Chunk IDs to prune from prompt history.",
            ),
        },
    );
    properties.push(
        PropertySchema {
            name: owned("drop_commands"),
            schema: string_array(
                "Command substrings identifying already-consumed outputs to prune.",
                "Command fragments to prune; fragments shorter than 6 characters are ignored.",
            ),
        },
    );
    properties.push(
        PropertySchema {
            name: owned("keep_call_ids"),
            schema: string_array(
                "Tool call ids or visible Chunk IDs that must remain useful. If no drop selectors are provided, all other large prunable outputs become prune candidates.",
                "Exact call ids or visible Chunk IDs to preserve; keep-only calls prune other large outputs.",
            ),
        },
    );
    properties.push(
        PropertySchema {
            name: owned("keep_commands"),
            schema: string_array(
                "Command substrings that must remain useful. If no drop selectors are provided, all other large prunable outputs become prune candidates.",
                "Command fragments to preserve; keep-only calls prune other large outputs.",
            ),
        },
    );
    properties.push(
        PropertySchema {
            name: owned("reason"),
            schema: FieldSchema::String {
                description: Some(
                    owned("Short reason for the pruning decision; do not include hidden reasoning."),
                ),
            },
        },
    );
    assert(properties@.map_values(|p: PropertySchema| property_view(p)) =~= trim_tool_properties());
    ToolSpec::Function(
        ResponsesApiTool {
            name: owned(TRIM_PROMPT_CONTEXT_TOOL_NAME),
            description: owned(
                "Conditionally prune already-consumed large tool outputs from prompt history. Use only when at least one large output is no longer needed; provide keep selectors for evidence still needed.",
            ),
            strict: false,
            defer_loading: None,
            parameters: ObjectSchema {
                properties,
                required: None,
                additional_properties: Some(false),
            },
            output_schema: None,
        },
    )
}

/// The arguments the model passes to `trim_prompt_context`.
#[derive(Debug, Clone, PartialEq, Eq)]
pub struct TrimPromptContextArgs {
    pub drop_call_ids: Vec<String>,
    pub drop_commands: Vec<String>,
    pub keep_call_ids: Vec<String>,
    pub keep_commands: Vec<String>,
    pub reason: Option<String>,
}

/// What the pruning plan estimated.
#[derive(Debug, Clone, Copy, PartialEq, Eq)]
pub struct PruningPlanStats {
    pub candidate_outputs: usize,
    pub original_token_estimate: usize,
    pub replacement_token_estimate: usize,
}

/// What applying the pruning plan to the history did.
#[derive(Debug, Clone, Copy, PartialEq, Eq)]
pub struct PruningApplyStats {
    pub matched_hints: usize,
    pub rewritten_outputs: usize,
    pub skipped_hints: usize,
}

/// The answer `trim_prompt_context` gives the model.
#[derive(Debug, Clone, PartialEq, Eq)]
pub struct TrimPromptContextOutcome {
    pub status: String,
    pub candidate_outputs: usize,
    pub matched_hints: usize,
    pub rewritten_outputs: usize,
    pub skipped_hints: usize,
    pub saved_token_estimate: usize,
    pub reason: String,
}

/// The tokens saved: none when nothing was rewritten, else the plan's
/// original estimate less its replacement estimate (never below zero).
pub open spec fn saved_tokens(plan: PruningPlanStats, applied: PruningApplyStats) -> usize {
    if applied.rewritten_outputs == 0 {
        0
    } else if plan.original_token_estimate >= plan.replacement_token_estimate {
        (plan.original_token_estimate - plan.replacement_token_estimate) as usize
    } else {
        0
    }
}

/// The saving reported is zero when no output was rewritten, never exceeds
/// the plan's original estimate, and with the replacement estimate covers the
/// original one when outputs were rewritten.
pub proof fn saved_tokens_are_bounded(plan: PruningPlanStats, applied: PruningApplyStats)
    ensures
        saved_tokens(plan, applied) <= plan.original_token_estimate,
        applied.rewritten_outputs == 0 ==> saved_tokens(plan, applied) == 0,
        applied.rewritten_outputs > 0 ==> saved_tokens(plan, applied)
            + plan.replacement_token_estimate >= plan.original_token_estimate,
{
}

/// The handler of `trim_prompt_context` calls.
pub struct TrimPromptContextHandler;

impl TrimPromptContextHandler {
    /// The name of the tool this handler serves.
    pub fn tool_name(&self) -> (name: String)
        ensures
            name@ == TRIM_PROMPT_CONTEXT_TOOL_NAME@,
    {
        owned(TRIM_PROMPT_CONTEXT_TOOL_NAME)
    }

    /// The declaration of the tool this handler serves.
    pub fn spec(&self) -> (spec: Option<ToolSpec>)
        ensures
            spec matches Some(ToolSpec::Function(tool)) && is_trim_tool(tool),
    {
        Some(create_trim_prompt_context_tool())
    }

    /// The answer to a call: status `ok`, the plan's candidate count, the
    /// counts of applying it, the saved tokens, and the model's reason (empty
    /// if it gave none).
    pub fn summarize(
        &self,
        plan: PruningPlanStats,
        applied: PruningApplyStats,
        reason: Option<String>,
    ) -> (outcome: TrimPromptContextOutcome)
        ensures
            outcome.status@ == "ok"@,
            outcome.candidate_outputs == plan.candidate_outputs,
            outcome.matched_hints == applied.matched_hints,
            outcome.rewritten_outputs == applied.rewritten_outputs,
            outcome.skipped_hints == applied.skipped_hints,
            outcome.saved_token_estimate == saved_tokens(plan, applied),
            outcome.reason@ == match reason {
                Some(r) => r@,
                None => Seq::<char>::empty(),
            },
    {
        let saved_token_estimate = if applied.rewritten_outputs == 0 {
            0
        } else {
            plan.original_token_estimate.saturating_sub(plan.replacement_token_estimate)
        };
        let reason = match reason {
            Some(r) => r,
            None => String::new(),
        };
        TrimPromptContextOutcome {
            status: owned("ok"),
            candidate_outputs: plan.candidate_outputs,
            matched_hints: applied.matched_hints,
            rewritten_outputs: applied.rewritten_outputs,
            skipped_hints: applied.skipped_hints,
            saved_token_estimate,
            reason,
        }
    }
}

} // verus!
