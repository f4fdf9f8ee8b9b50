use vstd::prelude::*;

use crate::editing::{trim_end_char, trim_end_char_vec};
use crate::settings::{provider_default_base_url, ProviderType, ServerToolConfig};
use crate::text::{chars_of, push_str, string_from_chars, trim, trim_chars, trim_str};

verus! {

broadcast use vstd::string::group_string_axioms;

/// The path of the URL that `text` parses to, as `url` gives it; `None`
/// when `text` is not a URL.
pub uninterp spec fn url_path_of(text: Seq<char>) -> Option<Seq<char>>;

/// The text of the URL that `text` parses to, with its path replaced by `path`.
pub uninterp spec fn url_text_with_path(text: Seq<char>, path: Seq<char>) -> Seq<char>;

/// `reqwest::Url::parse` followed by `Url::path`: the URL's path, or `None`
/// when the text does not parse. The path is written with each character of
/// the text at most once, percent-encoded at worst (12 characters for one of
/// four UTF-8 bytes), after a leading `/`.
#[verifier::external_body]
fn parsed_url_path(text: &str) -> (out: Option<String>)
    ensures
        crate::agents::opt_view(out) == url_path_of(text@),
        out is Some ==> out->0@.len() <= 12 * text@.len() + 1,
{
    match reqwest::Url::parse(text) {
        Ok(url) => Some(url.path().to_owned()),
        Err(_) => None,
    }
}

/// `reqwest::Url::parse`, then `Url::set_path` and the URL's text. `url`
/// panics when a URL grows past 4 GiB; the bound on the lengths keeps far
/// below that.
#[verifier::external_body]
fn url_with_path(text: &str, path: &str) -> (out: Option<String>)
    requires
        text@.len() + path@.len() < 100_000_000,
    ensures
        match out {
            Some(s) => url_path_of(text@) is Some && s@ == url_text_with_path(text@, path@),
            None => url_path_of(text@) is None,
        },
{
    match reqwest::Url::parse(text) {
        Ok(mut url) => {
            url.set_path(path);
            Some(url.to_string())
        },
        Err(_) => None,
    }
}

/// A base URL without trailing slashes; when it is a URL without a path, the
/// provider's default path is added.
pub open spec fn normalized_base_url(provider_type: ProviderType, raw: Seq<char>) -> Option<Seq<char>> {
    let trimmed = trim_end_char(trim(raw), '/');
    if trimmed.len() == 0 {
        None
    } else {
        match url_path_of(provider_default_base_url(provider_type)) {
            None => Some(trimmed),
            Some(dp) => {
                let default_path = trim_end_char(dp, '/');
                if default_path.len() == 0 {
                    Some(trimmed)
                } else {
                    match url_path_of(trimmed) {
                        None => Some(trimmed),
                        Some(ip) => if trim_end_char(ip, '/').len() == 0 {
                            Some(trim_end_char(url_text_with_path(trimmed, default_path), '/'))
                        } else {
                            Some(trimmed)
                        },
                    }
                }
            },
        }
    }
}

fn without_trailing_slashes(s: &str) -> (out: String)
    ensures
        out@ == trim_end_char(s@, '/'),
{
    let chars = chars_of(s);
    let t = trim_end_char_vec(chars, '/');
    string_from_chars(t.as_slice())
}

proof fn lemma_default_base_url_short(provider_type: ProviderType)
    ensures
        provider_default_base_url(provider_type).len() < 100,
{
    reveal_strlit("https://api.openai.com/v1");
    reveal_strlit("https://api.anthropic.com/v1");
    reveal_strlit("https://generativelanguage.googleapis.com/v1beta");
    reveal_strlit("https://api.fireworks.ai/inference/v1");
    reveal_strlit("https://api.together.xyz/v1");
    reveal_strlit("https://api.groq.com/openai/v1");
    reveal_strlit("https://api.mimo.org/v1");
    reveal_strlit("https://api.studio.nebius.com/v1");
    reveal_strlit("https://api.x.ai/v1");
    reveal_strlit("https://api.deepseek.com/v1");
    reveal_strlit("https://api.z.ai/api/paas/v4");
    reveal_strlit("https://open.bigmodel.cn/api/paas/v4");
    reveal_strlit("https://api.cohere.com/v2");
    reveal_strlit("http://localhost:11434/v1");
}

/// Cleans a provider's base URL as the user entered it.
pub fn normalize_provider_base_url(provider_type: ProviderType, raw: &str) -> (out: Option<String>)
    requires
        raw@.len() < 99_000_000,
    ensures
        crate::agents::opt_view(out) == normalized_base_url(provider_type, raw@),
{
    let t = trim_str(raw);
    let trimmed = without_trailing_slashes(t.as_str());
    if trimmed.as_str().is_empty() {
        return None;
    }
    let default_path = match parsed_url_path(provider_type.default_base_url()) {
        None => {
            return Some(trimmed);
        },
        Some(dp) => without_trailing_slashes(dp.as_str()),
    };
    if default_path.as_str().is_empty() {
        return Some(trimmed);
    }
    match parsed_url_path(trimmed.as_str()) {
        None => Some(trimmed),
        Some(ip) => {
            let input_path = without_trailing_slashes(ip.as_str());
            if input_path.as_str().is_empty() {
                proof {
                    crate::text::lemma_trim_len(raw@);
                    crate::editing::lemma_trim_end_char_len(trim(raw@), '/');
                    lemma_default_base_url_short(provider_type);
                    crate::editing::lemma_trim_end_char_len(
                        url_path_of(provider_default_base_url(provider_type))->0,
                        '/',
                    );
                }
                match url_with_path(trimmed.as_str(), default_path.as_str()) {
                    Some(s) => Some(without_trailing_slashes(s.as_str())),
                    None => Some(trimmed),
                }
            } else {
                Some(trimmed)
            }
        },
    }
}


/// The provider settings a request is made with.
#[derive(Debug, Clone)]
pub struct RuntimeProviderConfig {
    pub provider_type: ProviderType,
    pub base_url: Option<String>,
    pub api_key: String,
}

/// The base URL requests go to: the configured one, cleaned, or else the
/// provider's default.
pub open spec fn base_url_of(config: RuntimeProviderConfig) -> Seq<char> {
    match config.base_url {
        Some(b) => match normalized_base_url(config.provider_type, b@) {
            Some(n) => n,
            None => provider_default_base_url(config.provider_type),
        },
        None => provider_default_base_url(config.provider_type),
    }
}

/// Whether the configured base URL is short enough for `url`.
pub open spec fn base_url_fits(config: RuntimeProviderConfig) -> bool {
    match config.base_url {
        Some(b) => b@.len() < 99_000_000,
        None => true,
    }
}

pub fn provider_base_url(config: &RuntimeProviderConfig) -> (out: String)
    requires
        base_url_fits(*config),
    ensures
        out@ == base_url_of(*config),
{
    match &config.base_url {
        Some(b) => match normalize_provider_base_url(config.provider_type, b.as_str()) {
            Some(n) => n,
            None => config.provider_type.default_base_url().to_owned(),
        },
        None => config.provider_type.default_base_url().to_owned(),
    }
}

pub fn default_base_url_for_provider(provider_type: ProviderType) -> (out: &'static str)
    ensures
        out@ == provider_default_base_url(provider_type),
{
    provider_type.default_base_url()
}

/// Where a provider lists its models; Anthropic-style providers have no such list here.
pub fn model_list_endpoint(config: &RuntimeProviderConfig) -> (out: Option<String>)
    requires
        base_url_fits(*config),
    ensures
        match out {
            Some(u) => config.provider_type != ProviderType::Anthropic && u@ == base_url_of(*config)
                + "/models"@,
            None => config.provider_type == ProviderType::Anthropic,
        },
{
    if config.provider_type.uses_anthropic_api() {
        None
    } else {
        let mut u = provider_base_url(config);
        push_str(&mut u, "/models");
        Some(u)
    }
}

/// Whether requests go to OpenAI's Responses API.
pub fn should_use_openai_responses_api(config: &RuntimeProviderConfig, server_tools: &[ServerToolConfig]) -> (out: bool)
    ensures
        out == (config.provider_type == ProviderType::OpenAi),
{
    config.provider_type.uses_openai_responses_api()
}

/// The wire format a provider speaks.
#[derive(Debug, Clone, Copy, PartialEq, Eq, Structural)]
pub enum WireKind {
    OpenAi,
    Anthropic,
    Gemini,
}

/// The wire format for a provider's requests.
pub fn adapter_for(config: &RuntimeProviderConfig) -> (out: WireKind)
    ensures
        out == (if config.provider_type == ProviderType::Anthropic {
            WireKind::Anthropic
        } else if config.provider_type == ProviderType::Gemini {
            WireKind::Gemini
        } else {
            WireKind::OpenAi
        }),
{
    if config.provider_type.uses_anthropic_api() {
        WireKind::Anthropic
    } else if config.provider_type.uses_gemini_api() {
        WireKind::Gemini
    } else {
        WireKind::OpenAi
    }
}

/// Whether a streamed event ends the stream, for each wire format.
pub open spec fn stream_done(kind: WireKind, event_name: Option<Seq<char>>, data: Seq<char>) -> bool {
    match kind {
        WireKind::OpenAi => event_name == Some("response.completed"@) || trim(data) == "[DONE]"@,
        WireKind::Anthropic => event_name == Some("message_stop"@),
        WireKind::Gemini => false,
    }
}

pub fn is_stream_done(kind: WireKind, event_name: Option<&str>, data: &str) -> (out: bool)
    ensures
        out == stream_done(kind, crate::agents::opt_str_view(event_name), data@),
{
    match kind {
        WireKind::OpenAi => {
            let named = match event_name {
                Some(e) => crate::text::str_eq(e, "response.completed"),
                None => false,
            };
            let t = trim_str(data);
            named || crate::text::str_eq(t.as_str(), "[DONE]")
        },
        WireKind::Anthropic => match event_name {
            Some(e) => crate::text::str_eq(e, "message_stop"),
            None => false,
        },
        WireKind::Gemini => false,
    }
}

/// The delay before retry number `attempt`, in milliseconds: the base delay
/// doubled per attempt, at most four times, and never over 16 seconds.
pub open spec fn backoff_ms(attempt: u32, base_ms: u64) -> int {
    let factor: int = if attempt >= 4 {
        16
    } else if attempt == 3 {
        8
    } else if attempt == 2 {
        4
    } else if attempt == 1 {
        2
    } else {
        1
    };
    if base_ms * factor < 16000 {
        base_ms * factor
    } else {
        16000
    }
}

pub fn backoff_delay(attempt: u32, base_ms: u64) -> (out: u64)
    requires
        base_ms * 16 <= u64::MAX,
    ensures
        out == backoff_ms(attempt, base_ms),
{
    let factor: u64 = if attempt >= 4 {
        16
    } else if attempt == 3 {
        8
    } else if attempt == 2 {
        4
    } else if attempt == 1 {
        2
    } else {
        1
    };
    let millis = base_ms * factor;
    if millis < 16000 {
        millis
    } else {
        16000
    }
}

/// A tool call in a provider's reply.
#[derive(Debug, Clone)]
pub struct WireToolCall {
    pub id: String,
    pub name: String,
    pub arguments_json: String,
}

/// A provider's whole reply.
#[derive(Debug, Clone)]
pub struct WireResponse {
    pub content: Option<String>,
    pub tool_calls: Vec<WireToolCall>,
}

/// A piece of a streamed reply.
#[derive(Debug, Clone)]
pub enum WireStreamDelta {
    ContentDelta(String),
    ToolCallDelta { index: usize, id: Option<String>, name: Option<String>, arguments_fragment: String },
    Done,
}


/// Retries of a streamed request after the first attempt.
pub const STREAM_MAX_RETRIES: u32 = 3;

/// The base delay before a streamed request is retried, in milliseconds.
pub const STREAM_INITIAL_BACKOFF_MS: u64 = 1000;

/// Retries of a plain request after the first attempt.
pub const NON_STREAM_MAX_RETRIES: u32 = 2;

/// The base delay before a plain request is retried, in milliseconds.
pub const NON_STREAM_INITIAL_BACKOFF_MS: u64 = 2000;

/// What follows a failed streamed attempt.
#[derive(Debug, Clone, Copy, PartialEq, Eq)]
pub enum StreamStep {
    /// Report the failure: it must not fall back to a plain request.
    GiveUp,
    /// Wait, then stream again.
    RetryStream { delay_ms: u64 },
    /// Send the request without streaming.
    FallBack,
}

/// What follows streamed attempt `attempt` (0 for the first) when it failed:
/// a failure that rules out the fallback is reported; one that may be retried
/// is, while no content reached the user and retries are left, after the
/// backoff delay; otherwise the request falls back to a plain one.
pub open spec fn stream_step(attempt: u32, skip_fallback: bool, retryable: bool, content_delivered: bool) -> StreamStep {
    if skip_fallback {
        StreamStep::GiveUp
    } else if retryable && !content_delivered && attempt < STREAM_MAX_RETRIES {
        StreamStep::RetryStream { delay_ms: backoff_ms(attempt, STREAM_INITIAL_BACKOFF_MS) as u64 }
    } else {
        StreamStep::FallBack
    }
}

pub fn after_stream_failure(attempt: u32, skip_fallback: bool, retryable: bool, content_delivered: bool) -> (out: StreamStep)
    ensures
        out == stream_step(attempt, skip_fallback, retryable, content_delivered),
{
    if skip_fallback {
        StreamStep::GiveUp
    } else if retryable && !content_delivered && attempt < STREAM_MAX_RETRIES {
        StreamStep::RetryStream { delay_ms: backoff_delay(attempt, STREAM_INITIAL_BACKOFF_MS) }
    } else {
        StreamStep::FallBack
    }
}

/// Only a retryable failure is streamed again, and only while no content
/// reached the user and retries are left; a failure that is not retryable, or
/// one after content was delivered, falls back to a plain request unless the
/// fallback is ruled out, which gives up whatever else holds.
pub proof fn lemma_stream_retry_only_when_retryable(
    attempt: u32,
    skip_fallback: bool,
    retryable: bool,
    content_delivered: bool,
)
    ensures
        stream_step(attempt, skip_fallback, retryable, content_delivered) is RetryStream ==> retryable
            && !content_delivered && attempt < STREAM_MAX_RETRIES && !skip_fallback,
        !skip_fallback && !retryable ==> stream_step(attempt, skip_fallback, retryable, content_delivered)
            == StreamStep::FallBack,
        !skip_fallback && content_delivered ==> stream_step(attempt, skip_fallback, retryable, content_delivered)
            == StreamStep::FallBack,
        skip_fallback ==> stream_step(attempt, skip_fallback, retryable, content_delivered) == StreamStep::GiveUp,
        !skip_fallback && retryable && !content_delivered && attempt < STREAM_MAX_RETRIES ==> stream_step(
            attempt,
            skip_fallback,
            retryable,
            content_delivered,
        ) == (StreamStep::RetryStream { delay_ms: backoff_ms(attempt, STREAM_INITIAL_BACKOFF_MS) as u64 }),
{
}

/// What follows a failed plain attempt.
#[derive(Debug, Clone, Copy, PartialEq, Eq)]
pub enum PlainStep {
    /// Report this failure as it is.
    GiveUp,
    /// Wait, then try again.
    Retry { delay_ms: u64 },
    /// Report the failure as the last of all attempts.
    Exhausted,
}

/// What follows plain attempt `attempt` (0 for the first) when it failed: a
/// cancelled or rate-limited request is not retried; others are while
/// retries are left, after the backoff delay.
pub open spec fn plain_step(attempt: u32, cancelled_or_rate_limited: bool) -> PlainStep {
    if cancelled_or_rate_limited {
        PlainStep::GiveUp
    } else if attempt < NON_STREAM_MAX_RETRIES {
        PlainStep::Retry { delay_ms: backoff_ms(attempt, NON_STREAM_INITIAL_BACKOFF_MS) as u64 }
    } else {
        PlainStep::Exhausted
    }
}

pub fn after_plain_failure(attempt: u32, cancelled_or_rate_limited: bool) -> (out: PlainStep)
    ensures
        out == plain_step(attempt, cancelled_or_rate_limited),
{
    if cancelled_or_rate_limited {
        PlainStep::GiveUp
    } else if attempt < NON_STREAM_MAX_RETRIES {
        PlainStep::Retry { delay_ms: backoff_delay(attempt, NON_STREAM_INITIAL_BACKOFF_MS) }
    } else {
        PlainStep::Exhausted
    }
}

/// The message put before the last error once every plain attempt failed;
/// `stream_failure` is what the streamed attempts reported, if they ran.
pub open spec fn exhausted_message(stream_failure: Option<Seq<char>>) -> Seq<char> {
    match stream_failure {
        Some(f) => if f.len() > 0 {
            "provider streaming failed ("@ + f + ") and non-stream request also failed after 3 attempts"@
        } else {
            "non-stream provider request failed after 3 attempts"@
        },
        None => "non-stream provider request failed after 3 attempts"@,
    }
}

pub fn exhausted_failure_context(stream_failure: Option<&str>) -> (out: String)
    ensures
        out@ == exhausted_message(crate::agents::opt_str_view(stream_failure)),
{
    match stream_failure {
        Some(f) => if !f.is_empty() {
            let mut out = "provider streaming failed (".to_owned();
            push_str(&mut out, f);
            push_str(&mut out, ") and non-stream request also failed after 3 attempts");
            out
        } else {
            "non-stream provider request failed after 3 attempts".to_owned()
        },
        None => "non-stream provider request failed after 3 attempts".to_owned(),
    }
}

} // verus!
