use vstd::prelude::*;

use crate::text::{
    ascii_lower, chars_of, is_ws, lines, lower_char, push_chars, str_eq, string_from_chars,
    to_ascii_lowercase, trim, trim_chars, trim_str, ws_prefix_end, ws_suffix_start,
};

verus! {

broadcast use vstd::string::group_string_axioms;

/// A name made of lowercase ASCII letters, digits and underscores.
pub open spec fn plain_name(name: Seq<char>) -> bool {
    name.len() > 0 && forall|i: int|
        0 <= i < name.len() ==> ('a' <= #[trigger] name[i] <= 'z' || '0' <= name[i] <= '9' || name[i]
            == '_')
}

/// Trimming and lowercasing leave a plain name unchanged.
pub proof fn lemma_plain_name(name: Seq<char>)
    requires
        plain_name(name),
    ensures
        ascii_lower(trim(name)) == name,
{
    assert(!is_ws(name[0]));
    assert(ws_prefix_end(name, 0) == 0);
    assert(name.skip(0) =~= name);
    assert(!is_ws(name[name.len() - 1]));
    assert(ws_suffix_start(name, name.len() as int) == name.len());
    assert(name.take(name.len() as int) =~= name);
    assert(ascii_lower(name) =~= name);
}

/// The kinds of model provider that settings and the runtime can use.
#[derive(Debug, Clone, Copy, PartialEq, Eq, Structural)]
pub enum ProviderType {
    OpenAiCompat,
    OpenAi,
    Anthropic,
    Gemini,
    Fireworks,
    Together,
    Groq,
    Mimo,
    Nebius,
    Xai,
    DeepSeek,
    Zai,
    BigModel,
    Cohere,
    Ollama,
}

/// The name under which a ProviderType value is stored in the settings database.
pub open spec fn provider_db_name(value: ProviderType) -> Seq<char> {
    match value {
        ProviderType::OpenAiCompat => "openai_compat"@,
        ProviderType::OpenAi => "openai"@,
        ProviderType::Anthropic => "anthropic"@,
        ProviderType::Gemini => "gemini"@,
        ProviderType::Fireworks => "fireworks"@,
        ProviderType::Together => "together"@,
        ProviderType::Groq => "groq"@,
        ProviderType::Mimo => "mimo"@,
        ProviderType::Nebius => "nebius"@,
        ProviderType::Xai => "xai"@,
        ProviderType::DeepSeek => "deepseek"@,
        ProviderType::Zai => "zai"@,
        ProviderType::BigModel => "bigmodel"@,
        ProviderType::Cohere => "cohere"@,
        ProviderType::Ollama => "ollama"@,
    }
}

/// The ProviderType value stored under `name`, if any.
pub open spec fn provider_from_db_name(name: Seq<char>) -> Option<ProviderType> {
    if name == "openai_compat"@ {
        Some(ProviderType::OpenAiCompat)
    } else if name == "openai"@ {
        Some(ProviderType::OpenAi)
    } else if name == "anthropic"@ {
        Some(ProviderType::Anthropic)
    } else if name == "gemini"@ {
        Some(ProviderType::Gemini)
    } else if name == "fireworks"@ {
        Some(ProviderType::Fireworks)
    } else if name == "together"@ {
        Some(ProviderType::Together)
    } else if name == "groq"@ {
        Some(ProviderType::Groq)
    } else if name == "mimo"@ {
        Some(ProviderType::Mimo)
    } else if name == "nebius"@ {
        Some(ProviderType::Nebius)
    } else if name == "xai"@ {
        Some(ProviderType::Xai)
    } else if name == "deepseek"@ {
        Some(ProviderType::DeepSeek)
    } else if name == "zai"@ {
        Some(ProviderType::Zai)
    } else if name == "bigmodel"@ {
        Some(ProviderType::BigModel)
    } else if name == "cohere"@ {
        Some(ProviderType::Cohere)
    } else if name == "ollama"@ {
        Some(ProviderType::Ollama)
    } else {
        None
    }
}

/// Reading back the stored name of a ProviderType value gives that value, and
/// its stored name is unchanged by trimming and ASCII lowercasing.
pub proof fn lemma_provider_db_roundtrip(value: ProviderType)
    ensures
        provider_from_db_name(provider_db_name(value)) == Some(value),
        ascii_lower(trim(provider_db_name(value))) == provider_db_name(value),
{
    reveal_strlit("openai_compat");
    reveal_strlit("openai");
    reveal_strlit("anthropic");
    reveal_strlit("gemini");
    reveal_strlit("fireworks");
    reveal_strlit("together");
    reveal_strlit("groq");
    reveal_strlit("mimo");
    reveal_strlit("nebius");
    reveal_strlit("xai");
    reveal_strlit("deepseek");
    reveal_strlit("zai");
    reveal_strlit("bigmodel");
    reveal_strlit("cohere");
    reveal_strlit("ollama");
    lemma_plain_name(provider_db_name(value));
}

/// Stored names of provider kinds: each value's name reads back as that value; a name
/// reads as it does once trimmed and ASCII-lowercased; and a text reads as a
/// value exactly when, trimmed and lowercased, it is that value's name.
pub proof fn lemma_provider_db_roundtrip_law(raw: Seq<char>, value: ProviderType)
    ensures
        provider_from_db_name(ascii_lower(trim(provider_db_name(value)))) == Some(value),
        provider_from_db_name(ascii_lower(trim(raw))) == provider_from_db_name(ascii_lower(trim(ascii_lower(trim(raw))))),
        provider_from_db_name(ascii_lower(trim(raw))) == Some(value) <==> ascii_lower(trim(raw)) == provider_db_name(value),
{
    lemma_provider_db_roundtrip(value);
    crate::text::lemma_key_normal_idempotent(raw);
    let k = ascii_lower(trim(raw));
    if provider_from_db_name(k) == Some(value) {
        assert(k == provider_db_name(value));
    }
}

/// The default API base URL of a provider kind.
pub open spec fn provider_default_base_url(value: ProviderType) -> Seq<char> {
    match value {
        ProviderType::OpenAiCompat => "https://api.openai.com/v1"@,
        ProviderType::OpenAi => "https://api.openai.com/v1"@,
        ProviderType::Anthropic => "https://api.anthropic.com/v1"@,
        ProviderType::Gemini => "https://generativelanguage.googleapis.com/v1beta"@,
        ProviderType::Fireworks => "https://api.fireworks.ai/inference/v1"@,
        ProviderType::Together => "https://api.together.xyz/v1"@,
        ProviderType::Groq => "https://api.groq.com/openai/v1"@,
        ProviderType::Mimo => "https://api.mimo.org/v1"@,
        ProviderType::Nebius => "https://api.studio.nebius.com/v1"@,
        ProviderType::Xai => "https://api.x.ai/v1"@,
        ProviderType::DeepSeek => "https://api.deepseek.com/v1"@,
        ProviderType::Zai => "https://api.z.ai/api/paas/v4"@,
        ProviderType::BigModel => "https://open.bigmodel.cn/api/paas/v4"@,
        ProviderType::Cohere => "https://api.cohere.com/v2"@,
        ProviderType::Ollama => "http://localhost:11434/v1"@,
    }
}

impl ProviderType {
    pub fn as_db_value(self) -> (out: &'static str)
        ensures
            out@ == provider_db_name(self),
    {
        match self {
            ProviderType::OpenAiCompat => "openai_compat",
            ProviderType::OpenAi => "openai",
            ProviderType::Anthropic => "anthropic",
            ProviderType::Gemini => "gemini",
            ProviderType::Fireworks => "fireworks",
            ProviderType::Together => "together",
            ProviderType::Groq => "groq",
            ProviderType::Mimo => "mimo",
            ProviderType::Nebius => "nebius",
            ProviderType::Xai => "xai",
            ProviderType::DeepSeek => "deepseek",
            ProviderType::Zai => "zai",
            ProviderType::BigModel => "bigmodel",
            ProviderType::Cohere => "cohere",
            ProviderType::Ollama => "ollama",
        }
    }

    pub fn from_db_value(raw: &str) -> (out: Option<Self>)
        ensures
            out == provider_from_db_name(ascii_lower(trim(raw@))),
    {
        let trimmed = trim_str(raw);
        let key = to_ascii_lowercase(trimmed.as_str());
        let k = key.as_str();
        if str_eq(k, "openai_compat") {
            Some(ProviderType::OpenAiCompat)
        } else if str_eq(k, "openai") {
            Some(ProviderType::OpenAi)
        } else if str_eq(k, "anthropic") {
            Some(ProviderType::Anthropic)
        } else if str_eq(k, "gemini") {
            Some(ProviderType::Gemini)
        } else if str_eq(k, "fireworks") {
            Some(ProviderType::Fireworks)
        } else if str_eq(k, "together") {
            Some(ProviderType::Together)
        } else if str_eq(k, "groq") {
            Some(ProviderType::Groq)
        } else if str_eq(k, "mimo") {
            Some(ProviderType::Mimo)
        } else if str_eq(k, "nebius") {
            Some(ProviderType::Nebius)
        } else if str_eq(k, "xai") {
            Some(ProviderType::Xai)
        } else if str_eq(k, "deepseek") {
            Some(ProviderType::DeepSeek)
        } else if str_eq(k, "zai") {
            Some(ProviderType::Zai)
        } else if str_eq(k, "bigmodel") {
            Some(ProviderType::BigModel)
        } else if str_eq(k, "cohere") {
            Some(ProviderType::Cohere)
        } else if str_eq(k, "ollama") {
            Some(ProviderType::Ollama)
        } else {
            None
        }
    }

    /// Whether the provider needs an API key (all but a local Ollama).
    pub fn requires_api_key(self) -> (out: bool)
        ensures
            out == (self != ProviderType::Ollama),
    {
        !matches!(self, ProviderType::Ollama)
    }

    /// Whether the provider has no usable default endpoint.
    pub fn base_url_required(self) -> (out: bool)
        ensures
            out == (self == ProviderType::OpenAiCompat),
    {
        matches!(self, ProviderType::OpenAiCompat)
    }

    pub fn default_base_url(self) -> (out: &'static str)
        ensures
            out@ == provider_default_base_url(self),
    {
        match self {
            ProviderType::OpenAiCompat => "https://api.openai.com/v1",
            ProviderType::OpenAi => "https://api.openai.com/v1",
            ProviderType::Anthropic => "https://api.anthropic.com/v1",
            ProviderType::Gemini => "https://generativelanguage.googleapis.com/v1beta",
            ProviderType::Fireworks => "https://api.fireworks.ai/inference/v1",
            ProviderType::Together => "https://api.together.xyz/v1",
            ProviderType::Groq => "https://api.groq.com/openai/v1",
            ProviderType::Mimo => "https://api.mimo.org/v1",
            ProviderType::Nebius => "https://api.studio.nebius.com/v1",
            ProviderType::Xai => "https://api.x.ai/v1",
            ProviderType::DeepSeek => "https://api.deepseek.com/v1",
            ProviderType::Zai => "https://api.z.ai/api/paas/v4",
            ProviderType::BigModel => "https://open.bigmodel.cn/api/paas/v4",
            ProviderType::Cohere => "https://api.cohere.com/v2",
            ProviderType::Ollama => "http://localhost:11434/v1",
        }
    }

    pub fn uses_anthropic_api(self) -> (out: bool)
        ensures
            out == (self == ProviderType::Anthropic),
    {
        matches!(self, ProviderType::Anthropic)
    }

    pub fn uses_gemini_api(self) -> (out: bool)
        ensures
            out == (self == ProviderType::Gemini),
    {
        matches!(self, ProviderType::Gemini)
    }

    pub fn uses_openai_responses_api(self) -> (out: bool)
        ensures
            out == (self == ProviderType::OpenAi),
    {
        matches!(self, ProviderType::OpenAi)
    }

    /// Whether requests use an OpenAI-style wire format.
    pub fn uses_openai_api(self) -> (out: bool)
        ensures
            out == (self != ProviderType::Anthropic && self != ProviderType::Gemini),
    {
        !self.uses_anthropic_api() && !self.uses_gemini_api()
    }
}

/// Built-in tools that a provider runs on its own side.
#[derive(Debug, Clone, Copy, PartialEq, Eq, Structural)]
pub enum ServerToolCapability {
    WebSearch,
    CodeExecution,
    FileSearch,
}

/// The name under which a ServerToolCapability value is stored in the settings database.
pub open spec fn capability_db_name(value: ServerToolCapability) -> Seq<char> {
    match value {
        ServerToolCapability::WebSearch => "web_search"@,
        ServerToolCapability::CodeExecution => "code_execution"@,
        ServerToolCapability::FileSearch => "file_search"@,
    }
}

/// The ServerToolCapability value stored under `name`, if any.
pub open spec fn capability_from_db_name(name: Seq<char>) -> Option<ServerToolCapability> {
    if name == "web_search"@ {
        Some(ServerToolCapability::WebSearch)
    } else if name == "code_execution"@ {
        Some(ServerToolCapability::CodeExecution)
    } else if name == "file_search"@ {
        Some(ServerToolCapability::FileSearch)
    } else {
        None
    }
}

/// Reading back the stored name of a ServerToolCapability value gives that value, and
/// its stored name is unchanged by trimming and ASCII lowercasing.
pub proof fn lemma_capability_db_roundtrip(value: ServerToolCapability)
    ensures
        capability_from_db_name(capability_db_name(value)) == Some(value),
        ascii_lower(trim(capability_db_name(value))) == capability_db_name(value),
{
    reveal_strlit("web_search");
    reveal_strlit("code_execution");
    reveal_strlit("file_search");
    lemma_plain_name(capability_db_name(value));
}

/// Stored names of server-tool capabilities: each value's name reads back as that value; a name
/// reads as it does once trimmed and ASCII-lowercased; and a text reads as a
/// value exactly when, trimmed and lowercased, it is that value's name.
pub proof fn lemma_capability_db_roundtrip_law(raw: Seq<char>, value: ServerToolCapability)
    ensures
        capability_from_db_name(ascii_lower(trim(capability_db_name(value)))) == Some(value),
        capability_from_db_name(ascii_lower(trim(raw))) == capability_from_db_name(ascii_lower(trim(ascii_lower(trim(raw))))),
        capability_from_db_name(ascii_lower(trim(raw))) == Some(value) <==> ascii_lower(trim(raw)) == capability_db_name(value),
{
    lemma_capability_db_roundtrip(value);
    crate::text::lemma_key_normal_idempotent(raw);
    let k = ascii_lower(trim(raw));
    if capability_from_db_name(k) == Some(value) {
        assert(k == capability_db_name(value));
    }
}

impl ServerToolCapability {
    pub fn as_db_value(self) -> (out: &'static str)
        ensures
            out@ == capability_db_name(self),
    {
        match self {
            ServerToolCapability::WebSearch => "web_search",
            ServerToolCapability::CodeExecution => "code_execution",
            ServerToolCapability::FileSearch => "file_search",
        }
    }

    pub fn from_db_value(raw: &str) -> (out: Option<Self>)
        ensures
            out == capability_from_db_name(ascii_lower(trim(raw@))),
    {
        let trimmed = trim_str(raw);
        let key = to_ascii_lowercase(trimmed.as_str());
        let k = key.as_str();
        if str_eq(k, "web_search") {
            Some(ServerToolCapability::WebSearch)
        } else if str_eq(k, "code_execution") {
            Some(ServerToolCapability::CodeExecution)
        } else if str_eq(k, "file_search") {
            Some(ServerToolCapability::FileSearch)
        } else {
            None
        }
    }
}

/// The wire format in which a server-side tool is requested.
#[derive(Debug, Clone, Copy, PartialEq, Eq, Structural)]
pub enum ServerToolFormat {
    Anthropic,
    OpenAiResponses,
    OpenAiChatCompletions,
    Gemini,
}

/// The name under which a ServerToolFormat value is stored in the settings database.
pub open spec fn format_db_name(value: ServerToolFormat) -> Seq<char> {
    match value {
        ServerToolFormat::Anthropic => "anthropic"@,
        ServerToolFormat::OpenAiResponses => "openai_responses"@,
        ServerToolFormat::OpenAiChatCompletions => "openai_chat_completions"@,
        ServerToolFormat::Gemini => "gemini"@,
    }
}

/// The ServerToolFormat value stored under `name`, if any.
pub open spec fn format_from_db_name(name: Seq<char>) -> Option<ServerToolFormat> {
    if name == "anthropic"@ {
        Some(ServerToolFormat::Anthropic)
    } else if name == "openai_responses"@ {
        Some(ServerToolFormat::OpenAiResponses)
    } else if name == "openai_chat_completions"@ {
        Some(ServerToolFormat::OpenAiChatCompletions)
    } else if name == "gemini"@ {
        Some(ServerToolFormat::Gemini)
    } else {
        None
    }
}

/// Reading back the stored name of a ServerToolFormat value gives that value, and
/// its stored name is unchanged by trimming and ASCII lowercasing.
pub proof fn lemma_format_db_roundtrip(value: ServerToolFormat)
    ensures
        format_from_db_name(format_db_name(value)) == Some(value),
        ascii_lower(trim(format_db_name(value))) == format_db_name(value),
{
    reveal_strlit("anthropic");
    reveal_strlit("openai_responses");
    reveal_strlit("openai_chat_completions");
    reveal_strlit("gemini");
    lemma_plain_name(format_db_name(value));
}

/// Stored names of server-tool formats: each value's name reads back as that value; a name
/// reads as it does once trimmed and ASCII-lowercased; and a text reads as a
/// value exactly when, trimmed and lowercased, it is that value's name.
pub proof fn lemma_format_db_roundtrip_law(raw: Seq<char>, value: ServerToolFormat)
    ensures
        format_from_db_name(ascii_lower(trim(format_db_name(value)))) == Some(value),
        format_from_db_name(ascii_lower(trim(raw))) == format_from_db_name(ascii_lower(trim(ascii_lower(trim(raw))))),
        format_from_db_name(ascii_lower(trim(raw))) == Some(value) <==> ascii_lower(trim(raw)) == format_db_name(value),
{
    lemma_format_db_roundtrip(value);
    crate::text::lemma_key_normal_idempotent(raw);
    let k = ascii_lower(trim(raw));
    if format_from_db_name(k) == Some(value) {
        assert(k == format_db_name(value));
    }
}

impl ServerToolFormat {
    pub fn as_db_value(self) -> (out: &'static str)
        ensures
            out@ == format_db_name(self),
    {
        match self {
            ServerToolFormat::Anthropic => "anthropic",
            ServerToolFormat::OpenAiResponses => "openai_responses",
            ServerToolFormat::OpenAiChatCompletions => "openai_chat_completions",
            ServerToolFormat::Gemini => "gemini",
        }
    }

    pub fn from_db_value(raw: &str) -> (out: Option<Self>)
        ensures
            out == format_from_db_name(ascii_lower(trim(raw@))),
    {
        let trimmed = trim_str(raw);
        let key = to_ascii_lowercase(trimmed.as_str());
        let k = key.as_str();
        if str_eq(k, "anthropic") {
            Some(ServerToolFormat::Anthropic)
        } else if str_eq(k, "openai_responses") {
            Some(ServerToolFormat::OpenAiResponses)
        } else if str_eq(k, "openai_chat_completions") {
            Some(ServerToolFormat::OpenAiChatCompletions)
        } else if str_eq(k, "gemini") {
            Some(ServerToolFormat::Gemini)
        } else {
            None
        }
    }
}

/// A server-side tool enabled for a model, in a given wire format.
#[derive(Debug, Clone, Copy, PartialEq, Eq, Structural)]
pub struct ServerToolConfig {
    pub capability: ServerToolCapability,
    pub format: ServerToolFormat,
}

/// A configured model provider. Times are seconds since the Unix epoch.
pub struct ProviderRecord {
    pub id: i64,
    pub name: String,
    pub provider_type: ProviderType,
    pub api_key: String,
    pub base_url: Option<String>,
    pub created_at: u64,
}

/// A model configured under a provider, with its probed capabilities.
pub struct ModelConfigRecord {
    pub id: i64,
    pub provider_id: i64,
    pub model_id: String,
    pub display_name: Option<String>,
    pub context_window: usize,
    pub max_output_tokens: usize,
    pub supports_tool_use: bool,
    pub supports_vision: bool,
    pub supports_audio: bool,
    pub supports_pdf: bool,
    pub probed_at: Option<i64>,
    pub server_tools: Vec<ServerToolConfig>,
}

/// A user-defined agent profile as stored in the settings database. Times are
/// seconds since the Unix epoch.
pub struct AgentProfileRecord {
    pub id: i64,
    pub name: String,
    pub display_name: String,
    pub description: String,
    pub system_prompt: String,
    pub avatar_color: String,
    pub model_config_id: Option<i64>,
    pub provider_id: Option<i64>,
    pub model_id: Option<String>,
    pub created_at: u64,
    pub updated_at: u64,
}

/// Everything the settings page shows at once.
pub struct ProviderSettingsSnapshot {
    pub providers: Vec<ProviderRecord>,
    pub model_configs: Vec<ModelConfigRecord>,
    pub agent_profiles: Vec<AgentProfileRecord>,
    pub default_model_config_id: Option<i64>,
    pub custom_system_core: Option<String>,
    pub use_custom_system_core: bool,
}

/// The trimmed text, or nothing when it is blank.
pub open spec fn optional_text(raw: Seq<char>) -> Option<Seq<char>> {
    if trim(raw).len() == 0 {
        None
    } else {
        Some(trim(raw))
    }
}

/// Trims a setting; a blank setting becomes `None`.
pub fn normalize_optional_string(raw: String) -> (out: Option<String>)
    ensures
        match out {
            Some(s) => optional_text(raw@) == Some(s@),
            None => optional_text(raw@) is None,
        },
{
    let trimmed = trim_str(raw.as_str());
    if trimmed.as_str().is_empty() {
        None
    } else {
        Some(trimmed)
    }
}

/// `c` with spaces turned into dashes.
pub open spec fn dash_for_space(c: char) -> char {
    if c == ' ' {
        '-'
    } else {
        c
    }
}

/// An agent's mention name: trimmed, ASCII-lowercased, spaces turned into dashes.
pub open spec fn agent_mention_name(raw: Seq<char>) -> Seq<char> {
    ascii_lower(trim(raw)).map_values(|c: char| dash_for_space(c))
}

/// Normalizes an agent name for use in `@` mentions.
pub fn normalize_agent_name(raw: &str) -> (out: String)
    ensures
        out@ == agent_mention_name(raw@),
{
    let chars = chars_of(raw);
    let trimmed = trim_chars(chars.as_slice());
    let mut out: Vec<char> = Vec::new();
    let mut i: usize = 0;
    while i < trimmed.len()
        invariant
            i <= trimmed.len(),
            trimmed@ == trim(raw@),
            out@ == ascii_lower(trimmed@.take(i as int)).map_values(|c: char| dash_for_space(c)),
        decreases trimmed.len() - i,
    {
        let c = crate::text::char_to_ascii_lower(trimmed[i]);
        let d = if c == ' ' {
            '-'
        } else {
            c
        };
        out.push(d);
        assert(ascii_lower(trimmed@.take(i + 1)).map_values(|c: char| dash_for_space(c)) =~= ascii_lower(
            trimmed@.take(i as int),
        ).map_values(|c: char| dash_for_space(c)).push(d));
        i += 1;
    }
    assert(trimmed@.take(trimmed.len() as int) == trimmed@);
    string_from_chars(out.as_slice())
}

/// The avatar color used when none is given.
pub const DEFAULT_AVATAR_COLOR: &'static str = "#64748B";

/// The trimmed color, or the default color when blank.
pub fn normalize_avatar_color(raw: &str) -> (out: String)
    ensures
        out@ == (if trim(raw@).len() == 0 {
            DEFAULT_AVATAR_COLOR@
        } else {
            trim(raw@)
        }),
{
    let trimmed = trim_str(raw);
    if trimmed.as_str().is_empty() {
        DEFAULT_AVATAR_COLOR.to_owned()
    } else {
        trimmed
    }
}

} // verus!

verus! {

/// An agent's description as the settings store it: the one given, trimmed,
/// or else the first non-blank line of its prompt cut to 60 characters.
pub open spec fn stored_agent_description(
    raw: Seq<char>,
    display_name: Seq<char>,
    system_prompt: Seq<char>,
) -> Seq<char> {
    if trim(raw).len() > 0 {
        trim(raw)
    } else {
        match crate::agents::first_filled_line(system_prompt) {
            Some(line) => if trim(crate::agents::take_chars(line, 60)).len() > 0 {
                crate::agents::take_chars(line, 60)
            } else {
                crate::agents::fallback_description(display_name)
            },
            None => crate::agents::fallback_description(display_name),
        }
    }
}

pub fn normalize_agent_description(raw: String, display_name: &str, system_prompt: &str) -> (out: String)
    ensures
        out@ == stored_agent_description(raw@, display_name@, system_prompt@),
{
    let trimmed = trim_str(raw.as_str());
    if !trimmed.as_str().is_empty() {
        return trimmed;
    }
    match crate::agents::first_filled_line_text(system_prompt) {
        Some(line) => {
            let cut = crate::agents::take_chars_text(line.as_str(), 60);
            let t = trim_str(cut.as_str());
            if t.as_str().is_empty() {
                crate::agents::fallback_description_text(display_name)
            } else {
                cut
            }
        },
        None => crate::agents::fallback_description_text(display_name),
    }
}

} // verus!

verus! {

/// Normalizing an agent name twice changes nothing more than once.
pub proof fn lemma_agent_name_idempotent(raw: Seq<char>)
    ensures
        agent_mention_name(agent_mention_name(raw)) == agent_mention_name(raw),
{
    let n = agent_mention_name(raw);
    let t = trim(raw);
    crate::text::lemma_ws_prefix_end_bounds(raw, 0);
    let ts = crate::text::trim_start(raw);
    crate::text::lemma_ws_suffix_start_bounds(ts, ts.len() as int);
    // The first pass leaves no whitespace at either end and no space anywhere.
    assert forall|i: int| 0 <= i < n.len() implies #[trigger] n[i] != ' ' by {}
    if n.len() > 0 {
        assert(!crate::text::is_ws(t[0]));
        assert(!crate::text::is_ws(t[t.len() - 1]));
        assert(!crate::text::is_ws(n[0]));
        assert(!crate::text::is_ws(n[n.len() - 1]));
    }
    assert(crate::text::ws_prefix_end(n, 0) == 0);
    assert(n.skip(0) =~= n);
    assert(crate::text::ws_suffix_start(n, n.len() as int) == n.len());
    assert(trim(n) =~= n);
    assert(ascii_lower(n) =~= n);
    assert(n.map_values(|c: char| dash_for_space(c)) =~= n);
}

} // verus!
