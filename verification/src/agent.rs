use vstd::prelude::*;

use crate::shells::CommandShell;

verus! {

broadcast use vstd::string::group_string_axioms;

/// Session settings: the system prompt core and how many recent turns the
/// context keeps.
pub struct AgentConfig {
    pub system_core: String,
    pub max_recent_turns: usize,
}

/// The context window assumed when a model's is unknown.
pub const DEFAULT_CONTEXT_WINDOW_TOKENS: usize = 128_000;

/// A command to run in a given shell.
pub struct CommandRequest {
    pub command: String,
    pub shell: CommandShell,
}

/// A finished command and what it printed. Times are milliseconds since the
/// Unix epoch.
pub struct CommandExecution {
    pub command: String,
    pub working_directory: String,
    pub shell: CommandShell,
    pub exit_code: i32,
    pub stdout: String,
    pub stderr: String,
    pub started_at: u64,
    pub finished_at: u64,
}

/// What a run of the agent loop produced.
pub struct AgentRunResult {
    pub final_messages: Vec<FinalAssistantMessage>,
    pub debug_rounds: Vec<DebugRound>,
}

#[derive(Debug, Clone, Copy, PartialEq, Eq, Structural)]
pub enum AgentStatusPhase {
    BuildingContext,
    WaitingModel,
    RunningTool,
    Streaming,
}

#[derive(Debug, Clone, Copy, PartialEq, Eq, Structural)]
pub enum AgentToolStatus {
    Success,
    Error,
}

#[derive(Debug, Clone, Copy, PartialEq, Eq, Structural)]
pub enum AssistantMessageCheckpointType {
    Intermediate,
    Final,
}

pub struct AssistantMessageCheckpoint {
    pub message_id: String,
    pub message: String,
    pub checkpoint_type: AssistantMessageCheckpointType,
}

pub struct FinalAssistantMessage {
    pub message_id: String,
    pub message: String,
}

pub struct DebugToolCall {
    pub id: String,
    pub name: String,
    pub arguments_json: String,
}

/// What one round of the agent loop sent and received.
pub struct DebugRound {
    pub iteration: usize,
    pub context_preview: String,
    pub provider_request_json: String,
    pub provider_raw_response: String,
    pub tool_calls: Vec<DebugToolCall>,
    pub tool_results: Vec<String>,
}

/// Progress reported while an agent turn runs.
pub enum AgentProgressEvent {
    Status { agent: String, phase: AgentStatusPhase, label: String },
    MessageStarted { message_id: String },
    ToolStarted { message_id: String, tool_call_id: String, tool_name: String, summary: String },
    ToolFinished {
        message_id: String,
        tool_call_id: String,
        status: AgentToolStatus,
        summary: String,
        preview: Option<String>,
    },
    AssistantTextPreview { message_id: String, delta: String },
    MessageFinished { message_id: String },
    AssistantMessageCheckpoint(AssistantMessageCheckpoint),
    FinalAssistantMessage(FinalAssistantMessage),
    RoundCompleted(DebugRound),
}

/// A rough token estimate: four ASCII characters per token, one token per
/// other character.
pub open spec fn token_estimate(text: Seq<char>) -> int {
    let ascii = text.filter(|c: char| (c as u32) < 128).len();
    let other = text.len() - ascii;
    (ascii + 3) / 4 + other
}

/// Estimates how many tokens a text takes.
pub fn estimate_token_count(text: &str) -> (out: usize)
    ensures
        out == token_estimate(text@),
{
    let chars = crate::text::chars_of(text);
    let mut ascii: usize = 0;
    let mut i: usize = 0;
    while i < chars.len()
        invariant
            i <= chars.len(),
            ascii == chars@.take(i as int).filter(|c: char| (c as u32) < 128).len(),
            ascii <= i,
        decreases chars.len() - i,
    {
        proof {
            let p = |c: char| (c as u32) < 128;
            assert(chars@.take(i + 1).drop_last() == chars@.take(i as int));
            chars@.take(i as int).lemma_filter_push(chars@[i as int], p);
            assert(chars@.take(i as int).push(chars@[i as int]) == chars@.take(i + 1));
        }
        if (chars[i] as u32) < 128 {
            ascii += 1;
        }
        i += 1;
    }
    assert(chars@.take(chars.len() as int) == chars@);
    let other = chars.len() - ascii;
    ascii / 4 + (if ascii % 4 == 0 { 0 } else { 1 }) + other
}

} // verus!
