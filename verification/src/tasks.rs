use vstd::prelude::*;

use crate::agents::opt_view;
use crate::settings::optional_text;
use crate::text::{decimal, i64_to_string, push_str, signed_decimal, trim_str};

verus! {

broadcast use vstd::string::group_string_axioms;

/// Where a task's title came from.
#[derive(Debug, Clone, Copy, PartialEq, Eq, Structural)]
pub enum TaskTitleSource {
    Default,
    Auto,
    Manual,
}

/// A file a task keeps open for the model, within a scope.
#[derive(Debug, Clone, PartialEq, Eq)]
pub struct PersistedOpenFile {
    pub scope: String,
    pub path: String,
    pub locked: bool,
}

/// A task's model choice: trimmed, and none when blank.
pub fn normalize_model_id(model: Option<String>) -> (out: Option<String>)
    ensures
        opt_view(out) == match opt_view(model) {
            Some(m) => optional_text(m),
            None => None,
        },
{
    match model {
        Some(m) => {
            let trimmed = trim_str(m.as_str());
            if trimmed.as_str().is_empty() {
                None
            } else {
                Some(trimmed)
            }
        },
        None => None,
    }
}

/// Fails when an update touched no task row.
pub fn require_task_found(affected: usize, task_id: i64) -> (out: Result<(), String>)
    ensures
        match out {
            Ok(()) => affected != 0,
            Err(m) => affected == 0 && m@ == "task "@ + signed_decimal(task_id as int) + " not found"@,
        },
{
    if affected == 0 {
        let mut m = "task ".to_owned();
        let id = i64_to_string(task_id);
        push_str(&mut m, id.as_str());
        push_str(&mut m, " not found");
        return Err(m);
    }
    Ok(())
}

/// Checks a task's output token limit: it must be positive when set.
pub fn normalize_model_max_output_tokens(value: Option<u32>) -> (out: Result<Option<u32>, String>)
    ensures
        match out {
            Ok(v) => v == value && value != Some(0u32),
            Err(m) => value == Some(0u32) && m@ == "model_max_output_tokens must be greater than 0"@,
        },
{
    match value {
        Some(0) => Err("model_max_output_tokens must be greater than 0".to_owned()),
        Some(v) => Ok(Some(v)),
        None => Ok(None),
    }
}

} // verus!
