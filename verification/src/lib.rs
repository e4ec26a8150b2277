//! Prompt observability: snapshots of what each model request exposes,
//! analysis of recorded traces into a token report, and the declaration of the
//! tool with which the model prunes consumed tool outputs from its history.
pub mod analyze;
pub mod digest;
pub mod history_properties;
pub mod report;
pub mod report_properties;
pub mod snapshot;
pub mod sorting;
pub mod text;
pub mod tokens;
pub mod trim_tool;
