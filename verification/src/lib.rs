use vstd::prelude::*;

pub mod text;
pub mod numbers;
pub mod shells;
pub mod editing;
pub mod settings;
pub mod timeline;
pub mod agent;
pub mod progress;
pub mod memory;
pub mod memory_file;
pub mod search;
pub mod tools;
pub mod agents;
pub mod capabilities;
pub mod paths;
pub mod diagnostics;
pub mod messages;
pub mod prompt;
pub mod tool_calls;
pub mod conversation;
pub mod tasks;
pub mod provider;
pub mod ui;
pub mod json;
pub mod tool_args;
pub mod file_diffs;
pub mod wire;
pub mod requests;
pub mod task_rows;
pub mod schema;
pub mod scopes;
pub mod notes;
pub mod memory_store;
pub mod models;
pub mod probes;
pub mod history;
pub mod sending;

verus! {

} // verus!
