use vstd::prelude::*;

use base64::Engine;

use crate::agent::AgentToolStatus;
use crate::agents::{opt_view, MARCH_AGENT_NAME};
use crate::memory::MemorizeRequest;
use crate::tasks::PersistedOpenFile;
use crate::settings::{
    capability_from_db_name, format_from_db_name, provider_from_db_name, ProviderType,
    ServerToolCapability, ServerToolConfig, ServerToolFormat,
};
use crate::text::{ascii_lower, push_str, str_eq, to_ascii_lowercase, trim, trim_str};

verus! {

broadcast use vstd::string::group_string_axioms;

/// How a tool call ended, as the UI shows it.
#[derive(Debug, Clone, Copy, PartialEq, Eq, Structural)]
pub enum UiAgentToolStatus {
    Success,
    Error,
}

pub fn ui_tool_status(status: AgentToolStatus) -> (out: UiAgentToolStatus)
    ensures
        (out == UiAgentToolStatus::Success) == (status == AgentToolStatus::Success),
{
    match status {
        AgentToolStatus::Success => UiAgentToolStatus::Success,
        AgentToolStatus::Error => UiAgentToolStatus::Error,
    }
}

/// Which part of an assistant message a streamed piece belongs to.
#[derive(Debug, Clone, Copy, PartialEq, Eq, Structural)]
pub enum UiAssistantStreamField {
    Reasoning,
    Content,
    ToolCallArguments,
}

/// Why a turn ended.
#[derive(Debug, Clone, Copy, PartialEq, Eq, Structural)]
pub enum UiTurnFinishedReason {
    Idle,
    Failed,
    Cancelled,
}

/// Why a turn that stopped on an error ended: it was cancelled, or it failed.
pub fn turn_finished_reason(cancelled: bool) -> (out: UiTurnFinishedReason)
    ensures
        out == (if cancelled {
            UiTurnFinishedReason::Cancelled
        } else {
            UiTurnFinishedReason::Failed
        }),
{
    if cancelled {
        UiTurnFinishedReason::Cancelled
    } else {
        UiTurnFinishedReason::Failed
    }
}

/// A server tool as the settings page names it.
#[derive(Debug, Clone)]
pub struct UiServerToolView {
    pub capability: String,
    pub format: String,
}

/// A request to create or change a provider.
#[derive(Debug, Clone)]
pub struct UiUpsertProviderRequest {
    pub id: Option<i64>,
    pub provider_type: String,
    pub name: String,
    pub api_key: String,
    pub base_url: String,
}

/// A request to create or change a model of a provider.
#[derive(Debug, Clone)]
pub struct UiUpsertProviderModelRequest {
    pub id: Option<i64>,
    pub provider_id: i64,
    pub model_id: String,
    pub display_name: String,
    pub context_window: usize,
    pub max_output_tokens: usize,
    pub supports_tool_use: bool,
    pub supports_vision: bool,
    pub supports_audio: bool,
    pub supports_pdf: bool,
    pub server_tools: Vec<UiServerToolView>,
}

#[derive(Debug, Clone)]
pub struct UiDeleteProviderRequest {
    pub provider_id: i64,
}

#[derive(Debug, Clone)]
pub struct UiDeleteProviderModelRequest {
    pub provider_model_id: i64,
}

#[derive(Debug, Clone)]
pub struct UiSetDefaultModelRequest {
    pub model_config_id: Option<i64>,
}

/// A request to create or change an agent.
#[derive(Debug, Clone)]
pub struct UiUpsertAgentRequest {
    pub name: String,
    pub display_name: String,
    pub description: String,
    pub system_prompt: String,
    pub avatar_color: Option<String>,
    pub provider_id: Option<i64>,
    pub model_id: Option<String>,
    pub use_custom_march_prompt: Option<bool>,
}

#[derive(Debug, Clone)]
pub struct UiDeleteAgentRequest {
    pub name: String,
}

#[derive(Debug, Clone)]
pub struct UiRestoreMarchPromptRequest;

/// What saving an agent does: for the built-in agent, store a custom prompt
/// (and whether to use it); for any other, store the profile.
#[derive(Debug, Clone)]
pub enum AgentUpsertPlan {
    CustomMarchPrompt { system_prompt: String, enabled: bool },
    Profile {
        name: String,
        display_name: String,
        description: String,
        system_prompt: String,
        avatar_color: String,
        provider_id: Option<i64>,
        model_id: Option<String>,
    },
}

/// An agent name as requests give it: trimmed and lowercased.
pub open spec fn request_agent_name(raw: Seq<char>) -> Seq<char> {
    ascii_lower(trim(raw))
}

fn request_agent_name_of(raw: &str) -> (out: String)
    ensures
        out@ == request_agent_name(raw@),
{
    let t = trim_str(raw);
    to_ascii_lowercase(t.as_str())
}

/// Decides what saving an agent stores.
pub fn agent_upsert_plan(request: UiUpsertAgentRequest) -> (out: AgentUpsertPlan)
    ensures
        request_agent_name(request.name@) == MARCH_AGENT_NAME@ ==> (match out {
            AgentUpsertPlan::CustomMarchPrompt { system_prompt, enabled } => system_prompt@
                == request.system_prompt@ && enabled == match request.use_custom_march_prompt {
                Some(b) => b,
                None => true,
            },
            _ => false,
        }),
        request_agent_name(request.name@) != MARCH_AGENT_NAME@ ==> (match out {
            AgentUpsertPlan::Profile {
                name,
                display_name,
                description,
                system_prompt,
                avatar_color,
                provider_id,
                model_id,
            } => name@ == request_agent_name(request.name@) && display_name@ == request.display_name@
                && description@ == request.description@ && system_prompt@ == request.system_prompt@
                && avatar_color@ == match opt_view(request.avatar_color) {
                Some(c) => c,
                None => Seq::empty(),
            } && provider_id == request.provider_id && opt_view(model_id) == opt_view(request.model_id),
            _ => false,
        }),
{
    let name = request_agent_name_of(request.name.as_str());
    if str_eq(name.as_str(), MARCH_AGENT_NAME) {
        AgentUpsertPlan::CustomMarchPrompt {
            system_prompt: request.system_prompt,
            enabled: match request.use_custom_march_prompt {
                Some(b) => b,
                None => true,
            },
        }
    } else {
        AgentUpsertPlan::Profile {
            name,
            display_name: request.display_name,
            description: request.description,
            system_prompt: request.system_prompt,
            avatar_color: match request.avatar_color {
                Some(c) => c,
                None => String::new(),
            },
            provider_id: request.provider_id,
            model_id: request.model_id,
        }
    }
}

/// The agent a delete request removes; the built-in agent cannot be removed.
pub fn agent_to_delete(request: &UiDeleteAgentRequest) -> (out: Result<String, String>)
    ensures
        match out {
            Ok(name) => name@ == request_agent_name(request.name@) && name@ != MARCH_AGENT_NAME@,
            Err(m) => request_agent_name(request.name@) == MARCH_AGENT_NAME@ && m@ == "cannot delete March"@,
        },
{
    let name = request_agent_name_of(request.name.as_str());
    if str_eq(name.as_str(), MARCH_AGENT_NAME) {
        return Err("cannot delete March".to_owned());
    }
    Ok(name)
}

/// The provider type a provider request names.
pub fn provider_type_for_request(request: &UiUpsertProviderRequest) -> (out: Result<ProviderType, String>)
    ensures
        match out {
            Ok(t) => provider_from_db_name(ascii_lower(trim(request.provider_type@))) == Some(t),
            Err(m) => provider_from_db_name(ascii_lower(trim(request.provider_type@))) is None && m@
                == "unsupported provider type "@ + request.provider_type@,
        },
{
    match ProviderType::from_db_value(request.provider_type.as_str()) {
        Some(t) => Ok(t),
        None => {
            let mut m = "unsupported provider type ".to_owned();
            push_str(&mut m, request.provider_type.as_str());
            Err(m)
        },
    }
}

/// The first reason a server tool of the list is unknown: its capability is
/// checked before its format.
pub open spec fn server_tools_error(tools: Seq<UiServerToolView>) -> Option<Seq<char>>
    decreases tools.len(),
{
    if tools.len() == 0 {
        None
    } else {
        match server_tools_error(tools.drop_last()) {
            Some(e) => Some(e),
            None => {
                let t = tools.last();
                if capability_from_db_name(ascii_lower(trim(t.capability@))) is None {
                    Some("unsupported server tool capability "@ + t.capability@)
                } else if format_from_db_name(ascii_lower(trim(t.format@))) is None {
                    Some("unsupported server tool format "@ + t.format@)
                } else {
                    None
                }
            },
        }
    }
}

/// The server tools a model request enables.
pub fn server_tools_for_request(request: &UiUpsertProviderModelRequest) -> (out: Result<
    Vec<ServerToolConfig>,
    String,
>)
    ensures
        match out {
            Ok(tools) => server_tools_error(request.server_tools@) is None && tools@.len()
                == request.server_tools@.len() && forall|i: int|
                0 <= i < tools@.len() ==> Some((#[trigger] tools@[i]).capability) == capability_from_db_name(
                    ascii_lower(trim(request.server_tools@[i].capability@)),
                ) && Some(tools@[i].format) == format_from_db_name(
                    ascii_lower(trim(request.server_tools@[i].format@)),
                ),
            Err(m) => server_tools_error(request.server_tools@) == Some(m@),
        },
{
    let mut tools: Vec<ServerToolConfig> = Vec::new();
    let mut i: usize = 0;
    while i < request.server_tools.len()
        invariant
            i <= request.server_tools.len(),
            server_tools_error(request.server_tools@.take(i as int)) is None,
            tools@.len() == i,
            forall|k: int|
                0 <= k < i ==> Some((#[trigger] tools@[k]).capability) == capability_from_db_name(
                    ascii_lower(trim(request.server_tools@[k].capability@)),
                ) && Some(tools@[k].format) == format_from_db_name(
                    ascii_lower(trim(request.server_tools@[k].format@)),
                ),
        decreases request.server_tools.len() - i,
    {
        let t = &request.server_tools[i];
        assert(request.server_tools@.take(i + 1).drop_last() =~= request.server_tools@.take(i as int));
        let capability = match ServerToolCapability::from_db_value(t.capability.as_str()) {
            Some(c) => c,
            None => {
                let mut m = "unsupported server tool capability ".to_owned();
                push_str(&mut m, t.capability.as_str());
                proof {
                    lemma_server_tools_error_prefix(request.server_tools@, i as int + 1);
                }
                return Err(m);
            },
        };
        let format = match ServerToolFormat::from_db_value(t.format.as_str()) {
            Some(f) => f,
            None => {
                let mut m = "unsupported server tool format ".to_owned();
                push_str(&mut m, t.format.as_str());
                proof {
                    lemma_server_tools_error_prefix(request.server_tools@, i as int + 1);
                }
                return Err(m);
            },
        };
        tools.push(ServerToolConfig { capability, format });
        i += 1;
    }
    assert(request.server_tools@.take(request.server_tools.len() as int) =~= request.server_tools@);
    Ok(tools)
}

/// Once some prefix of a list has an unknown server tool, the whole list
/// reports that first one.
proof fn lemma_server_tools_error_prefix(tools: Seq<UiServerToolView>, n: int)
    requires
        0 <= n <= tools.len(),
        server_tools_error(tools.take(n)) is Some,
    ensures
        server_tools_error(tools) == server_tools_error(tools.take(n)),
    decreases tools.len() - n,
{
    if n < tools.len() {
        assert(tools.take(n + 1).drop_last() =~= tools.take(n));
        lemma_server_tools_error_prefix(tools, n + 1);
    } else {
        assert(tools.take(n) =~= tools);
    }
}

/// The kinds of workspace entries the UI searches for.
#[derive(Debug, Clone, Copy, PartialEq, Eq, Structural)]
pub enum UiWorkspaceEntryKind {
    File,
    Directory,
}

/// A workspace entry found by a search.
#[derive(Debug, Clone)]
pub struct UiWorkspaceEntryView {
    pub path: String,
    pub kind: UiWorkspaceEntryKind,
}

/// A search of the workspace's entries.
#[derive(Debug, Clone)]
pub struct UiSearchWorkspaceEntriesRequest {
    pub task_id: Option<i64>,
    pub query: String,
    pub kind: Option<UiWorkspaceEntryKind>,
    pub limit: Option<usize>,
}

/// A search of the skills available to a task.
#[derive(Debug, Clone)]
pub struct UiSearchSkillsRequest {
    pub task_id: Option<i64>,
    pub query: String,
    pub limit: Option<usize>,
}

/// How many results a search returns: 12 unless asked, and from 1 to 50.
pub fn search_limit(limit: Option<usize>) -> (out: usize)
    ensures
        out == match limit {
            Some(l) => if l < 1 {
                1
            } else if l > 50 {
                50
            } else {
                l
            },
            None => 12,
        },
{
    match limit {
        Some(l) => if l < 1 {
            1
        } else if l > 50 {
            50
        } else {
            l
        },
        None => 12,
    }
}

/// A request to store a memory from the UI.
#[derive(Debug, Clone)]
pub struct UiUpsertMemoryRequest {
    pub task_id: Option<i64>,
    pub id: String,
    pub memory_type: String,
    pub topic: String,
    pub title: String,
    pub content: String,
    pub tags: Vec<String>,
    pub scope: Option<String>,
    pub level: Option<String>,
}

/// The memory a UI request asks to store.
pub fn memorize_request_from_ui(request: UiUpsertMemoryRequest) -> (out: MemorizeRequest)
    ensures
        out.id@ == request.id@,
        out.memory_type@ == request.memory_type@,
        out.topic@ == request.topic@,
        out.title@ == request.title@,
        out.content@ == request.content@,
        out.tags@ == request.tags@,
        opt_view(out.scope) == opt_view(request.scope),
        opt_view(out.level) == opt_view(request.level),
{
    MemorizeRequest {
        id: request.id,
        memory_type: request.memory_type,
        topic: request.topic,
        title: request.title,
        content: request.content,
        tags: request.tags,
        scope: request.scope,
        level: request.level,
    }
}

/// A request to show an image of the workspace.
#[derive(Debug, Clone)]
pub struct UiLoadWorkspaceImageRequest {
    pub task_id: Option<i64>,
    pub path: String,
}

/// An image of the workspace, ready to show.
#[derive(Debug, Clone)]
pub struct UiWorkspaceImageView {
    pub path: String,
    pub media_type: String,
    pub data_url: String,
    pub name: String,
}

/// The digit of the standard base64 alphabet for a six-bit value.
pub open spec fn base64_digit(n: int) -> char {
    if n < 26 {
        (65 + n) as char
    } else if n < 52 {
        (97 + n - 26) as char
    } else if n < 62 {
        (48 + n - 52) as char
    } else if n == 62 {
        '+'
    } else {
        '/'
    }
}

/// The standard base64 text of some bytes: each three bytes as four digits,
/// a last one or two bytes padded with `=` to four characters.
pub open spec fn base64_text(bytes: Seq<u8>) -> Seq<char>
    decreases bytes.len(),
{
    if bytes.len() == 0 {
        Seq::empty()
    } else if bytes.len() == 1 {
        let a = bytes[0] as int;
        seq![base64_digit(a / 4), base64_digit((a % 4) * 16), '=', '=']
    } else if bytes.len() == 2 {
        let a = bytes[0] as int;
        let b = bytes[1] as int;
        seq![base64_digit(a / 4), base64_digit((a % 4) * 16 + b / 16), base64_digit((b % 16) * 4), '=']
    } else {
        let a = bytes[0] as int;
        let b = bytes[1] as int;
        let c = bytes[2] as int;
        seq![base64_digit(a / 4), base64_digit((a % 4) * 16 + b / 16), base64_digit((b % 16) * 4 + c / 64), base64_digit(c % 64)]
            + base64_text(bytes.skip(3))
    }
}

/// The length of the base64 text of `n` bytes, which must fit in `usize`.
pub open spec fn base64_len(n: int) -> int {
    n / 3 * 4 + if n % 3 > 0 {
        4int
    } else {
        0int
    }
}

/// `base64::engine::general_purpose::STANDARD.encode`: the standard base64
/// text (with padding) of the bytes. It panics when the text's length does
/// not fit in `usize`.
#[verifier::external_body]
fn base64_encode(bytes: &[u8]) -> (out: String)
    requires
        base64_len(bytes@.len() as int) <= usize::MAX,
    ensures
        out@ == base64_text(bytes@),
{
    base64::engine::general_purpose::STANDARD.encode(bytes)
}

/// A `data:` URL holding an image.
pub open spec fn image_data_url(media_type: Seq<char>, bytes: Seq<u8>) -> Seq<char> {
    "data:"@ + media_type + ";base64,"@ + base64_text(bytes)
}

/// The view of a workspace image read from `path`, named `name`.
pub fn workspace_image_view(path: String, media_type: &str, bytes: &[u8], name: String) -> (out: UiWorkspaceImageView)
    requires
        base64_len(bytes@.len() as int) <= usize::MAX,
    ensures
        out.path@ == path@,
        out.media_type@ == media_type@,
        out.data_url@ == image_data_url(media_type@, bytes@),
        out.name@ == name@,
{
    let mut data_url = "data:".to_owned();
    push_str(&mut data_url, media_type);
    push_str(&mut data_url, ";base64,");
    let encoded = base64_encode(bytes);
    push_str(&mut data_url, encoded.as_str());
    UiWorkspaceImageView { path, media_type: media_type.to_owned(), data_url, name }
}

/// Who last changed an open file.
#[derive(Debug, Clone, Copy, PartialEq, Eq, Structural)]
pub enum UiModifiedByView {
    Agent,
    User,
    External,
    Unknown,
}

/// What the UI knows of an open file's content; times are in seconds since
/// the Unix epoch.
#[derive(Debug, Clone)]
pub enum UiFileSnapshotView {
    Available { path: String, content: String, last_modified_at: i64, modified_by: UiModifiedByView },
    Deleted { path: String, last_seen_at: i64, modified_by: UiModifiedByView },
    Moved { path: String, new_path: String, last_seen_at: i64, modified_by: UiModifiedByView },
}

/// The path a snapshot is of (for a moved file, where it was).
pub open spec fn snapshot_path(s: UiFileSnapshotView) -> Seq<char> {
    match s {
        UiFileSnapshotView::Available { path, .. } => path@,
        UiFileSnapshotView::Deleted { path, .. } => path@,
        UiFileSnapshotView::Moved { path, .. } => path@,
    }
}

impl UiFileSnapshotView {
    pub fn path(&self) -> (out: &str)
        ensures
            out@ == snapshot_path(*self),
    {
        match self {
            UiFileSnapshotView::Available { path, .. } => path.as_str(),
            UiFileSnapshotView::Deleted { path, .. } => path.as_str(),
            UiFileSnapshotView::Moved { path, .. } => path.as_str(),
        }
    }
}

/// An open file as the UI lists it.
#[derive(Debug, Clone)]
pub struct UiOpenFileView {
    pub scope: String,
    pub path: String,
    pub locked: bool,
    pub snapshot: Option<UiFileSnapshotView>,
}

impl UiOpenFileView {
    /// The view of a stored open file: its scope, path and lock, with no
    /// snapshot, which a stored open file does not carry.
    pub fn from_persisted(open_file: PersistedOpenFile) -> (out: UiOpenFileView)
        ensures
            out.scope@ == open_file.scope@,
            out.path@ == open_file.path@,
            out.locked == open_file.locked,
            out.snapshot is None,
    {
        UiOpenFileView { scope: open_file.scope, path: open_file.path, locked: open_file.locked, snapshot: None }
    }
}

} // verus!
