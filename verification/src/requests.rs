use vstd::prelude::*;

use crate::json::{
    entries_view, items_view, json_view, lemma_items_view_len, no_items, no_members, push_item,
    push_member, str_value, uint_value, Json, JsonValue,
};
use crate::messages::{
    has_orphan_tool_message, parameters_schema_json, server_tool_definition, server_tool_json,
    texts_of, validate_messages, FunctionToolDefinition, MessageContent, MessageContentPart,
    RequestMessage, ApiToolCallRequest,
};
use crate::provider::{
    adapter_for, base_url_fits, base_url_of, provider_base_url, should_use_openai_responses_api,
    RuntimeProviderConfig, WireKind,
};
use crate::settings::{ProviderType, ServerToolConfig, ServerToolFormat};
use crate::text::{decimal, push_str, str_eq, to_owned, trim, trim_str};

verus! {

broadcast use vstd::string::group_string_axioms;

/// The sampling options of a request. The fractional settings are JSON
/// numbers as the caller wrote them; `max_output_tokens` is a token count.
#[derive(Debug)]
pub struct RequestOptions {
    pub model: String,
    pub stream: bool,
    pub temperature: JsonValue,
    pub top_p: Option<JsonValue>,
    pub presence_penalty: Option<JsonValue>,
    pub frequency_penalty: Option<JsonValue>,
    pub max_output_tokens: Option<u32>,
}

/// A request ready to send: where to, with which headers, and its JSON body.
#[derive(Debug)]
pub struct WireRequest {
    pub url: String,
    pub headers: Vec<(String, String)>,
    pub body: JsonValue,
}

/// Whether `http` accepts a text as a header value
/// (`reqwest::header::HeaderValue::from_str` succeeds): every character is a
/// tab, or at least a space and not DEL. A character beyond ASCII is encoded
/// in bytes of 0x80 and above, which are all accepted.
pub open spec fn header_value_accepted(value: Seq<char>) -> bool {
    forall|i: int|
        0 <= i < value.len() ==> (#[trigger] value[i]) == '\t' || ((value[i] as u32) >= 32 && (value[i] as u32)
            != 127)
}

/// `reqwest::header::HeaderValue::from_str(value).is_ok()`: `http` accepts a
/// value when each of its bytes is a tab or a byte of at least 32 other than
/// 127.
#[verifier::external_body]
pub(crate) fn header_value_ok(value: &str) -> (out: bool)
    ensures
        out == header_value_accepted(value@),
{
    reqwest::header::HeaderValue::from_str(value).is_ok()
}

pub open spec fn pairs_view(hs: Seq<(String, String)>) -> Seq<(Seq<char>, Seq<char>)> {
    hs.map_values(|h: (String, String)| (h.0@, h.1@))
}

fn push_header(headers: &mut Vec<(String, String)>, name: &str, value: &str)
    ensures
        pairs_view(final(headers)@) == pairs_view(old(headers)@).push((name@, value@)),
{
    let ghost before = headers@;
    headers.push((to_owned(name), to_owned(value)));
    assert(pairs_view(headers@) =~= pairs_view(before).push((name@, value@)));
}

fn json_headers() -> (out: Vec<(String, String)>)
    ensures
        pairs_view(out@) == seq![("content-type"@, "application/json"@)],
{
    let mut out: Vec<(String, String)> = Vec::new();
    assert(pairs_view(out@) =~= Seq::<(Seq<char>, Seq<char>)>::empty());
    push_header(&mut out, "content-type", "application/json");
    assert(pairs_view(out@) =~= seq![("content-type"@, "application/json"@)]);
    out
}

/// The headers of a request authenticated by a bearer token: JSON, and the
/// token unless it is blank.
pub open spec fn bearer_headers(api_key: Seq<char>) -> Result<Seq<(Seq<char>, Seq<char>)>, Seq<char>> {
    if trim(api_key).len() == 0 {
        Ok(seq![("content-type"@, "application/json"@)])
    } else if !header_value_accepted("Bearer "@ + api_key) {
        Err("invalid bearer authorization header"@)
    } else {
        Ok(seq![("content-type"@, "application/json"@), ("authorization"@, "Bearer "@ + api_key)])
    }
}

fn bearer_auth_headers(api_key: &str) -> (out: Result<Vec<(String, String)>, String>)
    ensures
        match bearer_headers(api_key@) {
            Ok(hs) => out is Ok && pairs_view(out->Ok_0@) == hs,
            Err(e) => out is Err && out->Err_0@ == e,
        },
{
    let mut headers = json_headers();
    let t = trim_str(api_key);
    if t.as_str().is_empty() {
        return Ok(headers);
    }
    let mut value = to_owned("Bearer ");
    push_str(&mut value, api_key);
    if !header_value_ok(value.as_str()) {
        return Err(to_owned("invalid bearer authorization header"));
    }
    push_header(&mut headers, "authorization", value.as_str());
    Ok(headers)
}

// ---------------------------------------------------------------------------
// Message content

/// The `data:` URL of an inline image.
pub open spec fn data_url(media_type: Seq<char>, data: Seq<char>) -> Seq<char> {
    "data:"@ + media_type + ";base64,"@ + data
}

/// Whether every part is text.
pub open spec fn all_text(parts: Seq<MessageContentPart>) -> bool {
    forall|i: int| 0 <= i < parts.len() ==> (#[trigger] parts[i]) is Text
}

/// The joined text of the parts, or the empty text where it is blank.
pub open spec fn joined_or_empty(parts: Seq<MessageContentPart>) -> Seq<char> {
    if trim(texts_of(parts)).len() > 0 {
        texts_of(parts)
    } else {
        Seq::empty()
    }
}

/// The joined text of optional content, or the empty text.
pub open spec fn content_text(content: Option<MessageContent>) -> Seq<char> {
    match content {
        Some(c) => joined_or_empty(c.spec_parts()),
        None => Seq::empty(),
    }
}

pub open spec fn text_json(kind: Seq<char>, text: Seq<char>) -> Json {
    Json::Object(seq![("type"@, Json::Str(kind)), ("text"@, Json::Str(text))])
}

/// A content part in a chat completions message.
pub open spec fn openai_part_json(p: MessageContentPart) -> Json {
    match p {
        MessageContentPart::Text(t) => text_json("text"@, t@),
        MessageContentPart::Image { media_type, data_base64, .. } => Json::Object(
            seq![
                ("type"@, Json::Str("image_url"@)),
                ("image_url"@, Json::Object(seq![("url"@, Json::Str(data_url(media_type@, data_base64@)))])),
            ],
        ),
    }
}

/// A content part in a Responses API message.
pub open spec fn responses_part_json(p: MessageContentPart) -> Json {
    match p {
        MessageContentPart::Text(t) => text_json("input_text"@, t@),
        MessageContentPart::Image { media_type, data_base64, .. } => Json::Object(
            seq![
                ("type"@, Json::Str("input_image"@)),
                ("image_url"@, Json::Str(data_url(media_type@, data_base64@))),
            ],
        ),
    }
}

/// A content block in an Anthropic message.
pub open spec fn anthropic_part_json(p: MessageContentPart) -> Json {
    match p {
        MessageContentPart::Text(t) => text_json("text"@, t@),
        MessageContentPart::Image { media_type, data_base64, .. } => Json::Object(
            seq![
                ("type"@, Json::Str("image"@)),
                (
                    "source"@,
                    Json::Object(
                        seq![
                            ("type"@, Json::Str("base64"@)),
                            ("media_type"@, Json::Str(media_type@)),
                            ("data"@, Json::Str(data_base64@)),
                        ],
                    ),
                ),
            ],
        ),
    }
}

/// A part of a Gemini message.
pub open spec fn gemini_part_json(p: MessageContentPart) -> Json {
    match p {
        MessageContentPart::Text(t) => Json::Object(seq![("text"@, Json::Str(t@))]),
        MessageContentPart::Image { media_type, data_base64, .. } => Json::Object(
            seq![
                (
                    "inlineData"@,
                    Json::Object(
                        seq![("mimeType"@, Json::Str(media_type@)), ("data"@, Json::Str(data_base64@))],
                    ),
                ),
            ],
        ),
    }
}

/// The wire formats whose content parts `serialize_parts` writes.
pub enum PartStyle {
    OpenAi,
    Responses,
    Anthropic,
    Gemini,
}

pub open spec fn part_json(style: PartStyle, p: MessageContentPart) -> Json {
    match style {
        PartStyle::OpenAi => openai_part_json(p),
        PartStyle::Responses => responses_part_json(p),
        PartStyle::Anthropic => anthropic_part_json(p),
        PartStyle::Gemini => gemini_part_json(p),
    }
}

pub open spec fn parts_json(style: PartStyle, parts: Seq<MessageContentPart>) -> Seq<Json> {
    parts.map_values(|p: MessageContentPart| part_json(style, p))
}

fn text_value(kind: &str, text: &str) -> (out: JsonValue)
    ensures
        json_view(out) == text_json(kind@, text@),
{
    let mut e = no_members();
    push_member(&mut e, "type", str_value(kind));
    push_member(&mut e, "text", str_value(text));
    assert(entries_view(e@) =~= seq![("type"@, Json::Str(kind@)), ("text"@, Json::Str(text@))]);
    JsonValue::Object(e)
}

fn data_url_of(media_type: &str, data: &str) -> (out: String)
    ensures
        out@ == data_url(media_type@, data@),
{
    let mut out = to_owned("data:");
    push_str(&mut out, media_type);
    push_str(&mut out, ";base64,");
    push_str(&mut out, data);
    out
}

fn serialize_part(style: &PartStyle, p: &MessageContentPart) -> (out: JsonValue)
    ensures
        json_view(out) == part_json(*style, *p),
{
    match p {
        MessageContentPart::Text(t) => match style {
            PartStyle::OpenAi => text_value("text", t.as_str()),
            PartStyle::Responses => text_value("input_text", t.as_str()),
            PartStyle::Anthropic => text_value("text", t.as_str()),
            PartStyle::Gemini => {
                let mut e = no_members();
                push_member(&mut e, "text", str_value(t.as_str()));
                assert(entries_view(e@) =~= seq![("text"@, Json::Str(t@))]);
                JsonValue::Object(e)
            },
        },
        MessageContentPart::Image { media_type, data_base64, .. } => match style {
            PartStyle::OpenAi => {
                let url = data_url_of(media_type.as_str(), data_base64.as_str());
                let mut inner = no_members();
                push_member(&mut inner, "url", str_value(url.as_str()));
                let mut e = no_members();
                push_member(&mut e, "type", str_value("image_url"));
                push_member(&mut e, "image_url", JsonValue::Object(inner));
                assert(entries_view(e@) =~= match part_json(*style, *p) {
                    Json::Object(x) => x,
                    _ => Seq::empty(),
                });
                JsonValue::Object(e)
            },
            PartStyle::Responses => {
                let url = data_url_of(media_type.as_str(), data_base64.as_str());
                let mut e = no_members();
                push_member(&mut e, "type", str_value("input_image"));
                push_member(&mut e, "image_url", str_value(url.as_str()));
                assert(entries_view(e@) =~= match part_json(*style, *p) {
                    Json::Object(x) => x,
                    _ => Seq::empty(),
                });
                JsonValue::Object(e)
            },
            PartStyle::Anthropic => {
                let mut source = no_members();
                push_member(&mut source, "type", str_value("base64"));
                push_member(&mut source, "media_type", str_value(media_type.as_str()));
                push_member(&mut source, "data", str_value(data_base64.as_str()));
                let ghost sv = entries_view(source@);
                let mut e = no_members();
                push_member(&mut e, "type", str_value("image"));
                push_member(&mut e, "source", JsonValue::Object(source));
                assert(sv =~= seq![
                    ("type"@, Json::Str("base64"@)),
                    ("media_type"@, Json::Str(media_type@)),
                    ("data"@, Json::Str(data_base64@)),
                ]);
                assert(entries_view(e@) =~= match part_json(*style, *p) {
                    Json::Object(x) => x,
                    _ => Seq::empty(),
                });
                JsonValue::Object(e)
            },
            PartStyle::Gemini => {
                let mut inline = no_members();
                push_member(&mut inline, "mimeType", str_value(media_type.as_str()));
                push_member(&mut inline, "data", str_value(data_base64.as_str()));
                let ghost iv = entries_view(inline@);
                let mut e = no_members();
                push_member(&mut e, "inlineData", JsonValue::Object(inline));
                assert(iv =~= seq![("mimeType"@, Json::Str(media_type@)), ("data"@, Json::Str(data_base64@))]);
                assert(entries_view(e@) =~= match part_json(*style, *p) {
                    Json::Object(x) => x,
                    _ => Seq::empty(),
                });
                JsonValue::Object(e)
            },
        },
    }
}

/// The parts of a message's content, written for a wire format.
pub fn serialize_parts(style: PartStyle, parts: &[MessageContentPart]) -> (out: Vec<JsonValue>)
    ensures
        items_view(out@) == parts_json(style, parts@),
{
    let mut out = no_items();
    let mut i: usize = 0;
    while i < parts.len()
        invariant
            i <= parts.len(),
            items_view(out@) == parts_json(style, parts@.take(i as int)),
        decreases parts.len() - i,
    {
        let ghost before = items_view(out@);
        push_item(&mut out, serialize_part(&style, &parts[i]));
        assert(parts_json(style, parts@.take(i + 1)) =~= parts_json(style, parts@.take(i as int)).push(
            part_json(style, parts@[i as int]),
        ));
        i += 1;
    }
    assert(parts@.take(parts.len() as int) =~= parts@);
    out
}

fn is_all_text(parts: &[MessageContentPart]) -> (out: bool)
    ensures
        out == all_text(parts@),
{
    let mut i: usize = 0;
    while i < parts.len()
        invariant
            i <= parts.len(),
            forall|k: int| 0 <= k < i ==> (#[trigger] parts@[k]) is Text,
        decreases parts.len() - i,
    {
        match &parts[i] {
            MessageContentPart::Text(_) => {},
            MessageContentPart::Image { .. } => return false,
        }
        i += 1;
    }
    true
}

/// The joined text of content, or the empty text where it is blank.
pub fn joined_text_or_empty(content: Option<&MessageContent>) -> (out: String)
    ensures
        out@ == content_text(
            match content {
                Some(c) => Some(*c),
                None => None,
            },
        ),
{
    match content {
        Some(c) => match c.joined_texts() {
            Some(t) => t,
            None => String::new(),
        },
        None => String::new(),
    }
}

/// Chat completions content: `null` for none, a string when every part is
/// text, else an array of parts.
pub open spec fn openai_content_json(content: Option<MessageContent>) -> Json {
    match content {
        None => Json::Null,
        Some(c) => if all_text(c.spec_parts()) {
            Json::Str(joined_or_empty(c.spec_parts()))
        } else {
            Json::Array(parts_json(PartStyle::OpenAi, c.spec_parts()))
        },
    }
}

/// Responses API content: an empty array for none, a string when every part
/// is text, else an array of parts.
pub open spec fn responses_content_json(content: Option<MessageContent>) -> Json {
    match content {
        None => Json::Array(Seq::empty()),
        Some(c) => if all_text(c.spec_parts()) {
            Json::Str(joined_or_empty(c.spec_parts()))
        } else {
            Json::Array(parts_json(PartStyle::Responses, c.spec_parts()))
        },
    }
}

pub open spec fn opt_content(content: Option<&MessageContent>) -> Option<MessageContent> {
    match content {
        Some(c) => Some(*c),
        None => None,
    }
}

pub fn serialize_openai_content(content: Option<&MessageContent>) -> (out: JsonValue)
    ensures
        json_view(out) == openai_content_json(opt_content(content)),
{
    match content {
        None => JsonValue::Null,
        Some(c) => if is_all_text(c.parts()) {
            let t = joined_text_or_empty(Some(c));
            str_value(t.as_str())
        } else {
            JsonValue::Array(serialize_parts(PartStyle::OpenAi, c.parts()))
        },
    }
}

pub fn serialize_openai_responses_content(content: Option<&MessageContent>) -> (out: JsonValue)
    ensures
        json_view(out) == responses_content_json(opt_content(content)),
{
    match content {
        None => JsonValue::Array(no_items()),
        Some(c) => if is_all_text(c.parts()) {
            let t = joined_text_or_empty(Some(c));
            str_value(t.as_str())
        } else {
            JsonValue::Array(serialize_parts(PartStyle::Responses, c.parts()))
        },
    }
}

/// The blocks or parts of optional content for a wire format: none for no
/// content.
pub open spec fn content_parts_json(style: PartStyle, content: Option<MessageContent>) -> Seq<Json> {
    match content {
        None => Seq::empty(),
        Some(c) => parts_json(style, c.spec_parts()),
    }
}

pub fn serialize_anthropic_blocks(content: Option<&MessageContent>) -> (out: Vec<JsonValue>)
    ensures
        items_view(out@) == content_parts_json(PartStyle::Anthropic, opt_content(content)),
{
    match content {
        None => no_items(),
        Some(c) => serialize_parts(PartStyle::Anthropic, c.parts()),
    }
}

pub fn serialize_gemini_parts(content: Option<&MessageContent>) -> (out: Vec<JsonValue>)
    ensures
        items_view(out@) == content_parts_json(PartStyle::Gemini, opt_content(content)),
{
    match content {
        None => no_items(),
        Some(c) => serialize_parts(PartStyle::Gemini, c.parts()),
    }
}


// ---------------------------------------------------------------------------
// OpenAI chat completions

/// An earlier tool call as a chat completions message lists it.
pub open spec fn openai_call_json(c: ApiToolCallRequest) -> Json {
    Json::Object(
        seq![
            ("id"@, Json::Str(c.id@)),
            ("type"@, Json::Str(c.tool_type@)),
            (
                "function"@,
                Json::Object(
                    seq![
                        ("name"@, Json::Str(c.function.name@)),
                        ("arguments"@, Json::Str(c.function.arguments@)),
                    ],
                ),
            ),
        ],
    )
}

/// A request message in the chat completions format, or why it cannot be
/// written: system, user and assistant messages carry their content (an
/// assistant's empty content is left out when it calls tools), tool messages
/// their text and the call they answer; an assistant's tool calls follow.
pub open spec fn openai_message_json(m: RequestMessage) -> Result<Json, Seq<char>> {
    let role = m.role@;
    let calls = m.tool_calls@;
    let tail: Seq<(Seq<char>, Json)> = if role == "assistant"@ && calls.len() > 0 {
        seq![("tool_calls"@, Json::Array(calls.map_values(|c: ApiToolCallRequest| openai_call_json(c))))]
    } else {
        Seq::empty()
    };
    if role == "system"@ || role == "user"@ || role == "assistant"@ {
        let content = openai_content_json(m.content);
        let omit = role == "assistant"@ && calls.len() > 0 && content == Json::Null;
        Ok(
            Json::Object(
                seq![("role"@, Json::Str(role))] + (if omit {
                    Seq::empty()
                } else {
                    seq![("content"@, content)]
                }) + tail,
            ),
        )
    } else if role == "tool"@ {
        match m.tool_call_id {
            None => Err("tool message missing tool_call_id"@),
            Some(id) => Ok(
                Json::Object(
                    seq![
                        ("role"@, Json::Str(role)),
                        ("content"@, Json::Str(content_text(m.content))),
                        ("tool_call_id"@, Json::Str(id@)),
                    ] + tail,
                ),
            ),
        }
    } else {
        Err("unsupported OpenAI message role "@ + role)
    }
}

fn openai_call_value(c: &ApiToolCallRequest) -> (out: JsonValue)
    ensures
        json_view(out) == openai_call_json(*c),
{
    let mut function = no_members();
    push_member(&mut function, "name", str_value(c.function.name.as_str()));
    push_member(&mut function, "arguments", str_value(c.function.arguments.as_str()));
    let ghost fv = entries_view(function@);
    let mut e = no_members();
    push_member(&mut e, "id", str_value(c.id.as_str()));
    push_member(&mut e, "type", str_value(c.tool_type.as_str()));
    push_member(&mut e, "function", JsonValue::Object(function));
    assert(fv =~= seq![
        ("name"@, Json::Str(c.function.name@)),
        ("arguments"@, Json::Str(c.function.arguments@)),
    ]);
    assert(entries_view(e@) =~= match openai_call_json(*c) {
        Json::Object(x) => x,
        _ => Seq::empty(),
    });
    JsonValue::Object(e)
}

fn openai_calls_value(calls: &Vec<ApiToolCallRequest>) -> (out: Vec<JsonValue>)
    ensures
        items_view(out@) == calls@.map_values(|c: ApiToolCallRequest| openai_call_json(c)),
{
    let mut out = no_items();
    let mut i: usize = 0;
    while i < calls.len()
        invariant
            i <= calls.len(),
            items_view(out@) == calls@.take(i as int).map_values(|c: ApiToolCallRequest| openai_call_json(c)),
        decreases calls.len() - i,
    {
        push_item(&mut out, openai_call_value(&calls[i]));
        assert(calls@.take(i + 1).map_values(|c: ApiToolCallRequest| openai_call_json(c)) =~= calls@.take(
            i as int,
        ).map_values(|c: ApiToolCallRequest| openai_call_json(c)).push(openai_call_json(calls@[i as int])));
        i += 1;
    }
    assert(calls@.take(calls.len() as int) =~= calls@);
    out
}

pub fn serialize_openai_message(message: &RequestMessage) -> (out: Result<JsonValue, String>)
    ensures
        match openai_message_json(*message) {
            Ok(j) => out is Ok && json_view(out->Ok_0) == j,
            Err(e) => out is Err && out->Err_0@ == e,
        },
{
    let role = message.role.as_str();
    let mut object = no_members();
    push_member(&mut object, "role", str_value(role));
    let ghost head = entries_view(object@);
    if str_eq(role, "system") || str_eq(role, "user") || str_eq(role, "assistant") {
        let content = serialize_openai_content(message.content.as_ref());
        let omit = str_eq(role, "assistant") && message.tool_calls.len() > 0 && match content {
            JsonValue::Null => true,
            _ => false,
        };
        if !omit {
            push_member(&mut object, "content", content);
        }
    } else if str_eq(role, "tool") {
        let text = joined_text_or_empty(message.content.as_ref());
        push_member(&mut object, "content", str_value(text.as_str()));
        match &message.tool_call_id {
            Some(id) => push_member(&mut object, "tool_call_id", str_value(id.as_str())),
            None => return Err(to_owned("tool message missing tool_call_id")),
        }
    } else {
        let mut e = to_owned("unsupported OpenAI message role ");
        push_str(&mut e, role);
        return Err(e);
    }
    let ghost mid = entries_view(object@);
    if str_eq(role, "assistant") && message.tool_calls.len() > 0 {
        push_member(&mut object, "tool_calls", JsonValue::Array(openai_calls_value(&message.tool_calls)));
    }
    assert(entries_view(object@) =~= match openai_message_json(*message) {
        Ok(Json::Object(x)) => x,
        _ => Seq::empty(),
    });
    Ok(JsonValue::Object(object))
}

/// The messages of a request in the chat completions format, or the first
/// message's error.
pub open spec fn openai_messages_json(ms: Seq<RequestMessage>) -> Result<Seq<Json>, Seq<char>>
    decreases ms.len(),
{
    if ms.len() == 0 {
        Ok(Seq::empty())
    } else {
        match openai_messages_json(ms.drop_last()) {
            Err(e) => Err(e),
            Ok(js) => match openai_message_json(ms.last()) {
                Err(e) => Err(e),
                Ok(j) => Ok(js.push(j)),
            },
        }
    }
}

proof fn lemma_messages_error_stays(ms: Seq<RequestMessage>, i: int, e: Seq<char>)
    requires
        0 <= i <= ms.len(),
        openai_messages_json(ms.take(i)) == Err::<Seq<Json>, Seq<char>>(e),
    ensures
        openai_messages_json(ms) == Err::<Seq<Json>, Seq<char>>(e),
    decreases ms.len() - i,
{
    if i < ms.len() {
        assert(ms.take(i + 1).drop_last() =~= ms.take(i));
        lemma_messages_error_stays(ms, i + 1, e);
    } else {
        assert(ms.take(i) =~= ms);
    }
}

fn serialize_openai_messages(messages: &[RequestMessage]) -> (out: Result<Vec<JsonValue>, String>)
    ensures
        match openai_messages_json(messages@) {
            Ok(js) => out is Ok && items_view(out->Ok_0@) == js,
            Err(e) => out is Err && out->Err_0@ == e,
        },
{
    let mut out = no_items();
    let mut i: usize = 0;
    assert(messages@.take(0) =~= Seq::<RequestMessage>::empty());
    while i < messages.len()
        invariant
            i <= messages.len(),
            openai_messages_json(messages@.take(i as int)) == Ok::<Seq<Json>, Seq<char>>(items_view(out@)),
        decreases messages.len() - i,
    {
        assert(messages@.take(i + 1).drop_last() =~= messages@.take(i as int));
        assert(messages@.take(i + 1).last() == messages@[i as int]);
        match serialize_openai_message(&messages[i]) {
            Ok(j) => push_item(&mut out, j),
            Err(e) => {
                proof {
                    lemma_messages_error_stays(messages@, i + 1, e@);
                }
                return Err(e);
            },
        }
        i += 1;
    }
    assert(messages@.take(messages.len() as int) =~= messages@);
    Ok(out)
}

/// A function tool as a chat completions request declares it.
pub open spec fn chat_function_tool_json(t: FunctionToolDefinition) -> Json {
    Json::Object(
        seq![
            ("type"@, Json::Str("function"@)),
            (
                "function"@,
                Json::Object(
                    seq![
                        ("name"@, Json::Str(t.name@)),
                        ("description"@, Json::Str(t.description@)),
                        ("parameters"@, json_view(t.parameters)),
                    ],
                ),
            ),
        ],
    )
}

/// A function tool as a Responses API request declares it.
pub open spec fn responses_function_tool_json(t: FunctionToolDefinition) -> Json {
    Json::Object(
        seq![
            ("type"@, Json::Str("function"@)),
            ("name"@, Json::Str(t.name@)),
            ("description"@, Json::Str(t.description@)),
            ("parameters"@, json_view(t.parameters)),
            ("strict"@, Json::Bool(false)),
        ],
    )
}

/// A function tool as an Anthropic request declares it.
pub open spec fn anthropic_function_tool_json(t: FunctionToolDefinition) -> Json {
    Json::Object(
        seq![
            ("name"@, Json::Str(t.name@)),
            ("description"@, Json::Str(t.description@)),
            ("input_schema"@, json_view(t.parameters)),
        ],
    )
}

/// A function declaration in a Gemini request.
pub open spec fn gemini_function_json(t: FunctionToolDefinition) -> Json {
    Json::Object(
        seq![
            ("name"@, Json::Str(t.name@)),
            ("description"@, Json::Str(t.description@)),
            ("parameters"@, json_view(t.parameters)),
        ],
    )
}

/// The wire formats of function tool declarations.
pub enum ToolStyle {
    Chat,
    Responses,
    Anthropic,
    Gemini,
}

pub open spec fn function_tool_json(style: ToolStyle, t: FunctionToolDefinition) -> Json {
    match style {
        ToolStyle::Chat => chat_function_tool_json(t),
        ToolStyle::Responses => responses_function_tool_json(t),
        ToolStyle::Anthropic => anthropic_function_tool_json(t),
        ToolStyle::Gemini => gemini_function_json(t),
    }
}

pub open spec fn function_tools_json(style: ToolStyle, ts: Seq<FunctionToolDefinition>) -> Seq<Json> {
    ts.map_values(|t: FunctionToolDefinition| function_tool_json(style, t))
}

/// A copy of a JSON value.
pub fn copy_json(v: &JsonValue) -> (out: JsonValue)
    ensures
        json_view(out) == json_view(*v),
    decreases v,
{
    match v {
        JsonValue::Null => JsonValue::Null,
        JsonValue::Bool(b) => JsonValue::Bool(*b),
        JsonValue::Number { unsigned, signed, text } => JsonValue::Number {
            unsigned: *unsigned,
            signed: *signed,
            text: to_owned(text.as_str()),
        },
        JsonValue::Str(s) => str_value(s.as_str()),
        JsonValue::Array(items) => {
            let mut out = no_items();
            let mut i: usize = 0;
            while i < items.len()
                invariant
                    i <= items.len(),
                    *v == JsonValue::Array(*items),
                    items_view(out@) == items_view(items@.take(i as int)),
                decreases items.len() - i,
            {
                assert(decreases_to!(*v => (*v)->Array_0));
                assert(decreases_to!(*items => items@));
                assert(decreases_to!(items@ => items@[i as int]));
                push_item(&mut out, copy_json(&items[i]));
                proof {
                    crate::json::lemma_items_view_push(items@.take(i as int), items@[i as int]);
                    assert(items@.take(i + 1) =~= items@.take(i as int).push(items@[i as int]));
                }
                i += 1;
            }
            assert(items@.take(items.len() as int) =~= items@);
            JsonValue::Array(out)
        },
        JsonValue::Object(entries) => {
            let mut out = no_members();
            let mut i: usize = 0;
            while i < entries.len()
                invariant
                    i <= entries.len(),
                    *v == JsonValue::Object(*entries),
                    entries_view(out@) == entries_view(entries@.take(i as int)),
                decreases entries.len() - i,
            {
                assert(decreases_to!(*v => (*v)->Object_0));
                assert(decreases_to!(*entries => entries@));
                assert(decreases_to!(entries@ => entries@[i as int]));
                assert(decreases_to!(entries@[i as int] => entries@[i as int].1));
                push_member(&mut out, entries[i].0.as_str(), copy_json(&entries[i].1));
                proof {
                    crate::json::lemma_entries_view_push(
                        entries@.take(i as int),
                        entries@[i as int].0,
                        entries@[i as int].1,
                    );
                    assert(entries@.take(i + 1) =~= entries@.take(i as int).push(entries@[i as int]));
                }
                i += 1;
            }
            assert(entries@.take(entries.len() as int) =~= entries@);
            JsonValue::Object(out)
        },
    }
}


// ---------------------------------------------------------------------------
// Request bodies

/// The plain value of a request: its URL, headers and body.
pub open spec fn request_view(r: WireRequest) -> (Seq<char>, Seq<(Seq<char>, Seq<char>)>, Json) {
    (r.url@, pairs_view(r.headers@), json_view(r.body))
}

/// The server tools of a wire format, declared.
pub open spec fn server_tools_json(sts: Seq<ServerToolConfig>, format: ServerToolFormat) -> Seq<Json>
    decreases sts.len(),
{
    if sts.len() == 0 {
        Seq::empty()
    } else if sts.last().format == format {
        server_tools_json(sts.drop_last(), format).push(server_tool_json(sts.last().capability, sts.last().format))
    } else {
        server_tools_json(sts.drop_last(), format)
    }
}

/// A member for an optional value.
pub open spec fn optional_member(key: Seq<char>, v: Option<JsonValue>) -> Seq<(Seq<char>, Json)> {
    match v {
        Some(x) => seq![(key, json_view(x))],
        None => Seq::empty(),
    }
}

/// A token count as a JSON number.
pub open spec fn count_json(n: u32) -> Json {
    Json::Number(Some(n as u64), Some(n as i64), decimal(n as nat))
}

/// A member for an optional token count.
pub open spec fn optional_count(key: Seq<char>, n: Option<u32>) -> Seq<(Seq<char>, Json)> {
    match n {
        Some(k) => seq![(key, count_json(k))],
        None => Seq::empty(),
    }
}

/// A member for an array, where it is not empty.
pub open spec fn nonempty_member(key: Seq<char>, items: Seq<Json>) -> Seq<(Seq<char>, Json)> {
    if items.len() > 0 {
        seq![(key, Json::Array(items))]
    } else {
        Seq::empty()
    }
}

fn push_function_tools(out: &mut Vec<JsonValue>, style: ToolStyle, tools: &[FunctionToolDefinition])
    ensures
        items_view(final(out)@) == items_view(old(out)@) + function_tools_json(style, tools@),
{
    let ghost start = items_view(out@);
    let mut i: usize = 0;
    while i < tools.len()
        invariant
            i <= tools.len(),
            items_view(out@) == start + function_tools_json(style, tools@.take(i as int)),
        decreases tools.len() - i,
    {
        let t = &tools[i];
        let mut e = no_members();
        match style {
            ToolStyle::Chat => {
                let mut f = no_members();
                push_member(&mut f, "name", str_value(t.name.as_str()));
                push_member(&mut f, "description", str_value(t.description.as_str()));
                push_member(&mut f, "parameters", copy_json(&t.parameters));
                let ghost fv = entries_view(f@);
                push_member(&mut e, "type", str_value("function"));
                push_member(&mut e, "function", JsonValue::Object(f));
                assert(fv =~= seq![
                    ("name"@, Json::Str(t.name@)),
                    ("description"@, Json::Str(t.description@)),
                    ("parameters"@, json_view(t.parameters)),
                ]);
            },
            ToolStyle::Responses => {
                push_member(&mut e, "type", str_value("function"));
                push_member(&mut e, "name", str_value(t.name.as_str()));
                push_member(&mut e, "description", str_value(t.description.as_str()));
                push_member(&mut e, "parameters", copy_json(&t.parameters));
                push_member(&mut e, "strict", JsonValue::Bool(false));
            },
            ToolStyle::Anthropic => {
                push_member(&mut e, "name", str_value(t.name.as_str()));
                push_member(&mut e, "description", str_value(t.description.as_str()));
                push_member(&mut e, "input_schema", copy_json(&t.parameters));
            },
            ToolStyle::Gemini => {
                push_member(&mut e, "name", str_value(t.name.as_str()));
                push_member(&mut e, "description", str_value(t.description.as_str()));
                push_member(&mut e, "parameters", copy_json(&t.parameters));
            },
        }
        assert(entries_view(e@) =~= match function_tool_json(style, *t) {
            Json::Object(x) => x,
            _ => Seq::empty(),
        });
        push_item(out, JsonValue::Object(e));
        assert(function_tools_json(style, tools@.take(i + 1)) =~= function_tools_json(style, tools@.take(i as int)).push(
            function_tool_json(style, tools@[i as int]),
        ));
        i += 1;
    }
    assert(tools@.take(tools.len() as int) =~= tools@);
}

fn push_server_tools(out: &mut Vec<JsonValue>, server_tools: &[ServerToolConfig], format: ServerToolFormat)
    ensures
        items_view(final(out)@) == items_view(old(out)@) + server_tools_json(server_tools@, format),
{
    let ghost start = items_view(out@);
    let mut i: usize = 0;
    assert(start + server_tools_json(server_tools@.take(0), format) =~= start);
    while i < server_tools.len()
        invariant
            i <= server_tools.len(),
            items_view(out@) == start + server_tools_json(server_tools@.take(i as int), format),
        decreases server_tools.len() - i,
    {
        assert(server_tools@.take(i + 1).drop_last() =~= server_tools@.take(i as int));
        let ghost before = items_view(out@);
        if server_tools[i].format == format {
            push_item(out, server_tool_definition(&server_tools[i]));
            assert(items_view(out@) =~= start + server_tools_json(server_tools@.take(i + 1), format));
        }
        i += 1;
    }
    assert(server_tools@.take(server_tools.len() as int) =~= server_tools@);
}

fn push_optional(entries: &mut Vec<(String, JsonValue)>, key: &str, v: &Option<JsonValue>)
    ensures
        entries_view(final(entries)@) == entries_view(old(entries)@) + optional_member(
            key@,
            *v,
        ),
{
    let ghost start = entries_view(entries@);
    match v {
        Some(x) => {
            push_member(entries, key, copy_json(x));
            assert(entries_view(entries@) =~= start + optional_member(key@, *v));
        },
        None => {
            assert(entries_view(entries@) =~= start + optional_member(key@, *v));
        },
    }
}

fn count_value(n: u32) -> (out: JsonValue)
    ensures
        json_view(out) == count_json(n),
{
    uint_value(n as u64)
}

fn push_optional_count(entries: &mut Vec<(String, JsonValue)>, key: &str, n: Option<u32>)
    ensures
        entries_view(final(entries)@) == entries_view(old(entries)@) + optional_count(key@, n),
{
    let ghost start = entries_view(entries@);
    match n {
        Some(k) => {
            push_member(entries, key, count_value(k));
            assert(entries_view(entries@) =~= start + optional_count(key@, n));
        },
        None => {
            assert(entries_view(entries@) =~= start + optional_count(key@, n));
        },
    }
}

fn push_nonempty(entries: &mut Vec<(String, JsonValue)>, key: &str, items: Vec<JsonValue>)
    ensures
        entries_view(final(entries)@) == entries_view(old(entries)@) + nonempty_member(
            key@,
            items_view(items@),
        ),
{
    let ghost start = entries_view(entries@);
    let ghost iv = items_view(items@);
    proof {
        lemma_items_view_len(items@);
    }
    if items.len() > 0 {
        push_member(entries, key, JsonValue::Array(items));
        assert(entries_view(entries@) =~= start + nonempty_member(key@, iv));
    } else {
        assert(entries_view(entries@) =~= start + nonempty_member(key@, iv));
    }
}

/// The tools a chat completions request declares.
pub open spec fn chat_tools_json(tools: Seq<FunctionToolDefinition>, sts: Seq<ServerToolConfig>) -> Seq<Json> {
    function_tools_json(ToolStyle::Chat, tools) + server_tools_json(sts, ServerToolFormat::OpenAiChatCompletions)
}

/// The body of a chat completions request.
pub open spec fn chat_body_json(messages: Seq<Json>, tools: Seq<Json>, o: RequestOptions) -> Json {
    Json::Object(
        seq![
            ("model"@, Json::Str(o.model@)),
            ("messages"@, Json::Array(messages)),
            ("temperature"@, json_view(o.temperature)),
            ("stream"@, Json::Bool(o.stream)),
        ] + nonempty_member("tools"@, tools) + optional_member("top_p"@, o.top_p) + optional_member(
            "presence_penalty"@,
            o.presence_penalty,
        ) + optional_member("frequency_penalty"@, o.frequency_penalty) + optional_count(
            "max_tokens"@,
            o.max_output_tokens,
        ),
    )
}

/// A chat completions request, or why it cannot be made.
pub open spec fn chat_request(
    config: RuntimeProviderConfig,
    messages: Seq<RequestMessage>,
    tools: Seq<FunctionToolDefinition>,
    sts: Seq<ServerToolConfig>,
    o: RequestOptions,
) -> Result<(Seq<char>, Seq<(Seq<char>, Seq<char>)>, Json), Seq<char>> {
    match openai_messages_json(messages) {
        Err(e) => Err(e),
        Ok(ms) => match bearer_headers(config.api_key@) {
            Err(e) => Err(e),
            Ok(hs) => Ok((base_url_of(config) + "/chat/completions"@, hs, chat_body_json(ms, chat_tools_json(tools, sts), o))),
        },
    }
}

fn url_with(config: &RuntimeProviderConfig, path: &str) -> (out: String)
    requires
        base_url_fits(*config),
    ensures
        out@ == base_url_of(*config) + path@,
{
    let mut url = provider_base_url(config);
    push_str(&mut url, path);
    url
}

/// Builds a chat completions request.
pub fn build_openai_chat_request(
    config: &RuntimeProviderConfig,
    messages: &[RequestMessage],
    tools: &[FunctionToolDefinition],
    server_tools: &[ServerToolConfig],
    options: &RequestOptions,
) -> (out: Result<WireRequest, String>)
    requires
        base_url_fits(*config),
    ensures
        match chat_request(*config, messages@, tools@, server_tools@, *options) {
            Ok(r) => out is Ok && request_view(out->Ok_0) == r,
            Err(e) => out is Err && out->Err_0@ == e,
        },
{
    let mut tool_defs = no_items();
    push_function_tools(&mut tool_defs, ToolStyle::Chat, tools);
    push_server_tools(&mut tool_defs, server_tools, ServerToolFormat::OpenAiChatCompletions);
    let ghost tv = items_view(tool_defs@);
    let serialized = match serialize_openai_messages(messages) {
        Ok(m) => m,
        Err(e) => return Err(e),
    };
    let mut body = no_members();
    push_member(&mut body, "model", str_value(options.model.as_str()));
    push_member(&mut body, "messages", JsonValue::Array(serialized));
    push_member(&mut body, "temperature", copy_json(&options.temperature));
    push_member(&mut body, "stream", JsonValue::Bool(options.stream));
    push_nonempty(&mut body, "tools", tool_defs);
    push_optional(&mut body, "top_p", &options.top_p);
    push_optional(&mut body, "presence_penalty", &options.presence_penalty);
    push_optional(&mut body, "frequency_penalty", &options.frequency_penalty);
    push_optional_count(&mut body, "max_tokens", options.max_output_tokens);
    let headers = match bearer_auth_headers(options_key(config)) {
        Ok(h) => h,
        Err(e) => return Err(e),
    };
    let ghost bv = entries_view(body@);
    let body = JsonValue::Object(body);
    proof {
        let ms = openai_messages_json(messages@)->Ok_0;
        assert(bv =~= match chat_body_json(ms, tv, *options) {
            Json::Object(x) => x,
            _ => Seq::empty(),
        });
    }
    Ok(WireRequest { url: url_with(config, "/chat/completions"), headers, body })
}

fn options_key(config: &RuntimeProviderConfig) -> (out: &str)
    ensures
        out@ == config.api_key@,
{
    config.api_key.as_str()
}


// ---------------------------------------------------------------------------
// OpenAI Responses

/// An earlier tool call as a Responses API input item.
pub open spec fn function_call_item(c: ApiToolCallRequest) -> Json {
    Json::Object(
        seq![
            ("type"@, Json::Str("function_call"@)),
            ("call_id"@, Json::Str(c.id@)),
            ("name"@, Json::Str(c.function.name@)),
            ("arguments"@, Json::Str(c.function.arguments@)),
        ],
    )
}

/// The content of a Responses API message item: an empty array for content
/// with no parts.
pub open spec fn message_item_content(content: Option<MessageContent>) -> Json {
    match content {
        Some(c) => if c.spec_parts().len() == 0 {
            Json::Array(Seq::empty())
        } else {
            responses_content_json(content)
        },
        None => responses_content_json(content),
    }
}

/// The instructions and input items of a Responses API request, or the first
/// message's error: system text becomes instructions, user and assistant
/// messages message items followed by their tool calls, tool messages call
/// outputs.
pub open spec fn responses_input(ms: Seq<RequestMessage>) -> Result<(Seq<Seq<char>>, Seq<Json>), Seq<char>>
    decreases ms.len(),
{
    if ms.len() == 0 {
        Ok((Seq::empty(), Seq::empty()))
    } else {
        match responses_input(ms.drop_last()) {
            Err(e) => Err(e),
            Ok((instructions, input)) => {
                let m = ms.last();
                let role = m.role@;
                if role == "system"@ {
                    let t = trim(content_text(m.content));
                    if t.len() > 0 {
                        Ok((instructions.push(t), input))
                    } else {
                        Ok((instructions, input))
                    }
                } else if role == "user"@ || role == "assistant"@ {
                    let item = Json::Object(
                        seq![
                            ("type"@, Json::Str("message"@)),
                            ("role"@, Json::Str(role)),
                            ("content"@, message_item_content(m.content)),
                        ],
                    );
                    Ok(
                        (
                            instructions,
                            input.push(item) + m.tool_calls@.map_values(
                                |c: ApiToolCallRequest| function_call_item(c),
                            ),
                        ),
                    )
                } else if role == "tool"@ {
                    match m.tool_call_id {
                        None => Err("tool message missing tool_call_id"@),
                        Some(id) => Ok(
                            (
                                instructions,
                                input.push(
                                    Json::Object(
                                        seq![
                                            ("type"@, Json::Str("function_call_output"@)),
                                            ("call_id"@, Json::Str(id@)),
                                            ("output"@, Json::Str(content_text(m.content))),
                                        ],
                                    ),
                                ),
                            ),
                        ),
                    }
                } else {
                    Err("unsupported OpenAI Responses message role "@ + role)
                }
            },
        }
    }
}

/// The tools a Responses API request declares.
pub open spec fn responses_tools_json(tools: Seq<FunctionToolDefinition>, sts: Seq<ServerToolConfig>) -> Seq<Json> {
    function_tools_json(ToolStyle::Responses, tools) + server_tools_json(sts, ServerToolFormat::OpenAiResponses)
}

/// The body of a Responses API request.
pub open spec fn responses_body_json(
    instructions: Seq<Seq<char>>,
    input: Seq<Json>,
    tools: Seq<Json>,
    o: RequestOptions,
) -> Json {
    Json::Object(
        seq![
            ("model"@, Json::Str(o.model@)),
            ("input"@, Json::Array(input)),
            ("temperature"@, json_view(o.temperature)),
            ("stream"@, Json::Bool(o.stream)),
            ("store"@, Json::Bool(false)),
        ] + optional_member("top_p"@, o.top_p) + optional_member(
            "presence_penalty"@,
            o.presence_penalty,
        ) + optional_member("frequency_penalty"@, o.frequency_penalty) + (if instructions.len() > 0 {
            seq![("instructions"@, Json::Str(crate::text::join(instructions, "\n\n"@)))]
        } else {
            Seq::empty()
        }) + nonempty_member("tools"@, tools) + optional_count("max_output_tokens"@, o.max_output_tokens),
    )
}

/// A Responses API request, or why it cannot be made.
pub open spec fn responses_request(
    config: RuntimeProviderConfig,
    messages: Seq<RequestMessage>,
    tools: Seq<FunctionToolDefinition>,
    sts: Seq<ServerToolConfig>,
    o: RequestOptions,
) -> Result<(Seq<char>, Seq<(Seq<char>, Seq<char>)>, Json), Seq<char>> {
    match responses_input(messages) {
        Err(e) => Err(e),
        Ok((instructions, input)) => match bearer_headers(config.api_key@) {
            Err(e) => Err(e),
            Ok(hs) => Ok(
                (
                    base_url_of(config) + "/responses"@,
                    hs,
                    responses_body_json(instructions, input, responses_tools_json(tools, sts), o),
                ),
            ),
        },
    }
}

proof fn lemma_responses_input_error_stays(ms: Seq<RequestMessage>, i: int, e: Seq<char>)
    requires
        0 <= i <= ms.len(),
        responses_input(ms.take(i)) is Err,
        responses_input(ms.take(i))->Err_0 == e,
    ensures
        responses_input(ms) is Err,
        responses_input(ms)->Err_0 == e,
    decreases ms.len() - i,
{
    if i < ms.len() {
        assert(ms.take(i + 1).drop_last() =~= ms.take(i));
        lemma_responses_input_error_stays(ms, i + 1, e);
    } else {
        assert(ms.take(i) =~= ms);
    }
}

fn function_call_value(c: &ApiToolCallRequest) -> (out: JsonValue)
    ensures
        json_view(out) == function_call_item(*c),
{
    let mut e = no_members();
    push_member(&mut e, "type", str_value("function_call"));
    push_member(&mut e, "call_id", str_value(c.id.as_str()));
    push_member(&mut e, "name", str_value(c.function.name.as_str()));
    push_member(&mut e, "arguments", str_value(c.function.arguments.as_str()));
    assert(entries_view(e@) =~= match function_call_item(*c) {
        Json::Object(x) => x,
        _ => Seq::empty(),
    });
    JsonValue::Object(e)
}

fn push_function_call_items(input: &mut Vec<JsonValue>, calls: &Vec<ApiToolCallRequest>)
    ensures
        items_view(final(input)@) == items_view(old(input)@) + calls@.map_values(
            |c: ApiToolCallRequest| function_call_item(c),
        ),
{
    let ghost start = items_view(input@);
    let mut i: usize = 0;
    while i < calls.len()
        invariant
            i <= calls.len(),
            items_view(input@) == start + calls@.take(i as int).map_values(
                |c: ApiToolCallRequest| function_call_item(c),
            ),
        decreases calls.len() - i,
    {
        push_item(input, function_call_value(&calls[i]));
        assert(calls@.take(i + 1).map_values(|c: ApiToolCallRequest| function_call_item(c)) =~= calls@.take(
            i as int,
        ).map_values(|c: ApiToolCallRequest| function_call_item(c)).push(function_call_item(calls@[i as int])));
        i += 1;
    }
    assert(calls@.take(calls.len() as int) =~= calls@);
}

fn message_item_content_value(content: Option<&MessageContent>) -> (out: JsonValue)
    ensures
        json_view(out) == message_item_content(opt_content(content)),
{
    match content {
        Some(c) => if c.parts().len() == 0 {
            JsonValue::Array(no_items())
        } else {
            serialize_openai_responses_content(content)
        },
        None => serialize_openai_responses_content(content),
    }
}

/// Builds a Responses API request.
pub fn build_openai_responses_request(
    config: &RuntimeProviderConfig,
    messages: &[RequestMessage],
    tools: &[FunctionToolDefinition],
    server_tools: &[ServerToolConfig],
    options: &RequestOptions,
) -> (out: Result<WireRequest, String>)
    requires
        base_url_fits(*config),
    ensures
        match responses_request(*config, messages@, tools@, server_tools@, *options) {
            Ok(r) => out is Ok && request_view(out->Ok_0) == r,
            Err(e) => out is Err && out->Err_0@ == e,
        },
{
    let mut instructions: Vec<String> = Vec::new();
    let mut input = no_items();
    let mut i: usize = 0;
    assert(messages@.take(0) =~= Seq::<RequestMessage>::empty());
    assert(crate::text::strings_view(instructions@) =~= Seq::<Seq<char>>::empty());
    while i < messages.len()
        invariant
            i <= messages.len(),
            responses_input(messages@.take(i as int)) == Ok::<(Seq<Seq<char>>, Seq<Json>), Seq<char>>(
                (crate::text::strings_view(instructions@), items_view(input@)),
            ),
        decreases messages.len() - i,
    {
        assert(messages@.take(i + 1).drop_last() =~= messages@.take(i as int));
        assert(messages@.take(i + 1).last() == messages@[i as int]);
        let m = &messages[i];
        let role = m.role.as_str();
        if str_eq(role, "system") {
            let text = joined_text_or_empty(m.content.as_ref());
            let t = trim_str(text.as_str());
            if !t.as_str().is_empty() {
                let ghost before = instructions@;
                let ghost tv = t@;
                instructions.push(t);
                assert(crate::text::strings_view(instructions@) =~= crate::text::strings_view(before).push(tv));
            }
        } else if str_eq(role, "user") || str_eq(role, "assistant") {
            let mut item = no_members();
            push_member(&mut item, "type", str_value("message"));
            push_member(&mut item, "role", str_value(role));
            push_member(&mut item, "content", message_item_content_value(m.content.as_ref()));
            let ghost iv = entries_view(item@);
            assert(iv =~= seq![
                ("type"@, Json::Str("message"@)),
                ("role"@, Json::Str(role@)),
                ("content"@, message_item_content(m.content)),
            ]);
            push_item(&mut input, JsonValue::Object(item));
            push_function_call_items(&mut input, &m.tool_calls);
        } else if str_eq(role, "tool") {
            let id = match &m.tool_call_id {
                Some(id) => id,
                None => {
                    proof {
                        lemma_responses_input_error_stays(messages@, i + 1, "tool message missing tool_call_id"@);
                    }
                    return Err(to_owned("tool message missing tool_call_id"));
                },
            };
            let output = joined_text_or_empty(m.content.as_ref());
            let mut item = no_members();
            push_member(&mut item, "type", str_value("function_call_output"));
            push_member(&mut item, "call_id", str_value(id.as_str()));
            push_member(&mut item, "output", str_value(output.as_str()));
            let ghost iv = entries_view(item@);
            assert(iv =~= seq![
                ("type"@, Json::Str("function_call_output"@)),
                ("call_id"@, Json::Str(id@)),
                ("output"@, Json::Str(content_text(m.content))),
            ]);
            push_item(&mut input, JsonValue::Object(item));
        } else {
            let mut e = to_owned("unsupported OpenAI Responses message role ");
            push_str(&mut e, role);
            proof {
                lemma_responses_input_error_stays(messages@, i + 1, e@);
            }
            return Err(e);
        }
        i += 1;
    }
    assert(messages@.take(messages.len() as int) =~= messages@);
    let mut tool_defs = no_items();
    push_function_tools(&mut tool_defs, ToolStyle::Responses, tools);
    push_server_tools(&mut tool_defs, server_tools, ServerToolFormat::OpenAiResponses);
    let mut body = no_members();
    push_member(&mut body, "model", str_value(options.model.as_str()));
    push_member(&mut body, "input", JsonValue::Array(input));
    push_member(&mut body, "temperature", copy_json(&options.temperature));
    push_member(&mut body, "stream", JsonValue::Bool(options.stream));
    push_member(&mut body, "store", JsonValue::Bool(false));
    push_optional(&mut body, "top_p", &options.top_p);
    push_optional(&mut body, "presence_penalty", &options.presence_penalty);
    push_optional(&mut body, "frequency_penalty", &options.frequency_penalty);
    if instructions.len() > 0 {
        let joined = crate::text::join_strings(&instructions, "\n\n");
        push_member(&mut body, "instructions", str_value(joined.as_str()));
    }
    push_nonempty(&mut body, "tools", tool_defs);
    push_optional_count(&mut body, "max_output_tokens", options.max_output_tokens);
    let headers = match bearer_auth_headers(options_key(config)) {
        Ok(h) => h,
        Err(e) => return Err(e),
    };
    let ghost bv = entries_view(body@);
    proof {
        let (ins, inp) = responses_input(messages@)->Ok_0;
        assert(bv =~= match responses_body_json(ins, inp, responses_tools_json(tools@, server_tools@), *options) {
            Json::Object(x) => x,
            _ => Seq::empty(),
        });
    }
    Ok(WireRequest { url: url_with(config, "/responses"), headers, body: JsonValue::Object(body) })
}


// ---------------------------------------------------------------------------
// Anthropic

/// The output limit a request asks for when none is set.
pub const DEFAULT_MAX_OUTPUT_TOKENS: u32 = 16_384;

/// An earlier tool call as an Anthropic `tool_use` block.
pub open spec fn tool_use_block(c: ApiToolCallRequest) -> Json {
    Json::Object(
        seq![
            ("type"@, Json::Str("tool_use"@)),
            ("id"@, Json::Str(c.id@)),
            ("name"@, Json::Str(c.function.name@)),
            ("input"@, crate::messages::tool_arguments_json(c.function.arguments@)),
        ],
    )
}

/// The system blocks and messages of an Anthropic request, or the first
/// message's error.
pub open spec fn anthropic_input(ms: Seq<RequestMessage>) -> Result<(Seq<Json>, Seq<Json>), Seq<char>>
    decreases ms.len(),
{
    if ms.len() == 0 {
        Ok((Seq::empty(), Seq::empty()))
    } else {
        match anthropic_input(ms.drop_last()) {
            Err(e) => Err(e),
            Ok((system, body)) => {
                let m = ms.last();
                let role = m.role@;
                let blocks = content_parts_json(PartStyle::Anthropic, m.content);
                if role == "system"@ {
                    Ok((system + blocks, body))
                } else if role == "user"@ {
                    Ok(
                        (
                            system,
                            body.push(
                                Json::Object(
                                    seq![("role"@, Json::Str("user"@)), ("content"@, Json::Array(blocks))],
                                ),
                            ),
                        ),
                    )
                } else if role == "assistant"@ {
                    Ok(
                        (
                            system,
                            body.push(
                                Json::Object(
                                    seq![
                                        ("role"@, Json::Str("assistant"@)),
                                        (
                                            "content"@,
                                            Json::Array(
                                                blocks + m.tool_calls@.map_values(
                                                    |c: ApiToolCallRequest| tool_use_block(c),
                                                ),
                                            ),
                                        ),
                                    ],
                                ),
                            ),
                        ),
                    )
                } else if role == "tool"@ {
                    match m.tool_call_id {
                        None => Err("tool message missing tool_call_id"@),
                        Some(id) => Ok(
                            (
                                system,
                                body.push(
                                    Json::Object(
                                        seq![
                                            ("role"@, Json::Str("user"@)),
                                            (
                                                "content"@,
                                                Json::Array(
                                                    seq![
                                                        Json::Object(
                                                            seq![
                                                                ("type"@, Json::Str("tool_result"@)),
                                                                ("tool_use_id"@, Json::Str(id@)),
                                                                ("content"@, Json::Str(content_text(m.content))),
                                                            ],
                                                        ),
                                                    ],
                                                ),
                                            ),
                                        ],
                                    ),
                                ),
                            ),
                        ),
                    }
                } else {
                    Err("unsupported request role "@ + role)
                }
            },
        }
    }
}

/// The tools an Anthropic request declares.
pub open spec fn anthropic_tools_json(tools: Seq<FunctionToolDefinition>, sts: Seq<ServerToolConfig>) -> Seq<Json> {
    function_tools_json(ToolStyle::Anthropic, tools) + server_tools_json(sts, ServerToolFormat::Anthropic)
}

/// The output limit of a request.
pub open spec fn max_tokens_or_default(n: Option<u32>) -> u32 {
    match n {
        Some(k) => k,
        None => DEFAULT_MAX_OUTPUT_TOKENS,
    }
}

/// The body of an Anthropic request.
pub open spec fn anthropic_body_json(system: Seq<Json>, messages: Seq<Json>, tools: Seq<Json>, o: RequestOptions) -> Json {
    Json::Object(
        seq![
            ("model"@, Json::Str(o.model@)),
            ("messages"@, Json::Array(messages)),
            ("temperature"@, json_view(o.temperature)),
            ("stream"@, Json::Bool(o.stream)),
            ("max_tokens"@, count_json(max_tokens_or_default(o.max_output_tokens))),
        ] + optional_member("top_p"@, o.top_p) + nonempty_member("system"@, system) + nonempty_member(
            "tools"@,
            tools,
        ),
    )
}

/// An Anthropic request, or why it cannot be made.
pub open spec fn anthropic_request(
    config: RuntimeProviderConfig,
    messages: Seq<RequestMessage>,
    tools: Seq<FunctionToolDefinition>,
    sts: Seq<ServerToolConfig>,
    o: RequestOptions,
) -> Result<(Seq<char>, Seq<(Seq<char>, Seq<char>)>, Json), Seq<char>> {
    if has_orphan_tool_message(messages) {
        Err("tool message missing tool_call_id"@)
    } else {
        match anthropic_input(messages) {
            Err(e) => Err(e),
            Ok((system, body)) => if !header_value_accepted(config.api_key@) {
                Err("invalid anthropic api key header"@)
            } else {
                Ok(
                    (
                        base_url_of(config) + "/messages"@,
                        seq![
                            ("content-type"@, "application/json"@),
                            ("x-api-key"@, config.api_key@),
                            ("anthropic-version"@, "2023-06-01"@),
                        ],
                        anthropic_body_json(system, body, anthropic_tools_json(tools, sts), o),
                    ),
                )
            },
        }
    }
}

proof fn lemma_anthropic_input_error_stays(ms: Seq<RequestMessage>, i: int, e: Seq<char>)
    requires
        0 <= i <= ms.len(),
        anthropic_input(ms.take(i)) is Err,
        anthropic_input(ms.take(i))->Err_0 == e,
    ensures
        anthropic_input(ms) is Err,
        anthropic_input(ms)->Err_0 == e,
    decreases ms.len() - i,
{
    if i < ms.len() {
        assert(ms.take(i + 1).drop_last() =~= ms.take(i));
        lemma_anthropic_input_error_stays(ms, i + 1, e);
    } else {
        assert(ms.take(i) =~= ms);
    }
}

fn push_all(out: &mut Vec<JsonValue>, items: &Vec<JsonValue>)
    ensures
        items_view(final(out)@) == items_view(old(out)@) + items_view(items@),
{
    let ghost start = items_view(out@);
    let mut i: usize = 0;
    while i < items.len()
        invariant
            i <= items.len(),
            items_view(out@) == start + items_view(items@.take(i as int)),
        decreases items.len() - i,
    {
        push_item(out, copy_json(&items[i]));
        proof {
            crate::json::lemma_items_view_push(items@.take(i as int), items@[i as int]);
            assert(items@.take(i + 1) =~= items@.take(i as int).push(items@[i as int]));
        }
        i += 1;
    }
    assert(items@.take(items.len() as int) =~= items@);
}

fn tool_use_value(c: &ApiToolCallRequest) -> (out: JsonValue)
    ensures
        json_view(out) == tool_use_block(*c),
{
    let mut e = no_members();
    push_member(&mut e, "type", str_value("tool_use"));
    push_member(&mut e, "id", str_value(c.id.as_str()));
    push_member(&mut e, "name", str_value(c.function.name.as_str()));
    push_member(&mut e, "input", crate::messages::serialize_tool_arguments(c.function.arguments.as_str()));
    assert(entries_view(e@) =~= match tool_use_block(*c) {
        Json::Object(x) => x,
        _ => Seq::empty(),
    });
    JsonValue::Object(e)
}

fn push_tool_use_blocks(out: &mut Vec<JsonValue>, calls: &Vec<ApiToolCallRequest>)
    ensures
        items_view(final(out)@) == items_view(old(out)@) + calls@.map_values(
            |c: ApiToolCallRequest| tool_use_block(c),
        ),
{
    let ghost start = items_view(out@);
    let mut i: usize = 0;
    while i < calls.len()
        invariant
            i <= calls.len(),
            items_view(out@) == start + calls@.take(i as int).map_values(
                |c: ApiToolCallRequest| tool_use_block(c),
            ),
        decreases calls.len() - i,
    {
        push_item(out, tool_use_value(&calls[i]));
        assert(calls@.take(i + 1).map_values(|c: ApiToolCallRequest| tool_use_block(c)) =~= calls@.take(
            i as int,
        ).map_values(|c: ApiToolCallRequest| tool_use_block(c)).push(tool_use_block(calls@[i as int])));
        i += 1;
    }
    assert(calls@.take(calls.len() as int) =~= calls@);
}

fn role_message(role: &str, key: &str, items: Vec<JsonValue>) -> (out: JsonValue)
    ensures
        json_view(out) == Json::Object(seq![("role"@, Json::Str(role@)), (key@, Json::Array(items_view(items@)))]),
{
    let mut e = no_members();
    push_member(&mut e, "role", str_value(role));
    push_member(&mut e, key, JsonValue::Array(items));
    assert(entries_view(e@) =~= seq![("role"@, Json::Str(role@)), (key@, Json::Array(items_view(items@)))]);
    JsonValue::Object(e)
}

/// Builds an Anthropic Messages API request.
pub fn build_anthropic_request(
    config: &RuntimeProviderConfig,
    messages: &[RequestMessage],
    tools: &[FunctionToolDefinition],
    server_tools: &[ServerToolConfig],
    options: &RequestOptions,
) -> (out: Result<WireRequest, String>)
    requires
        base_url_fits(*config),
    ensures
        match anthropic_request(*config, messages@, tools@, server_tools@, *options) {
            Ok(r) => out is Ok && request_view(out->Ok_0) == r,
            Err(e) => out is Err && out->Err_0@ == e,
        },
{
    match validate_messages(messages) {
        Ok(()) => {},
        Err(e) => return Err(e),
    }
    let mut system = no_items();
    let mut body_messages = no_items();
    let mut i: usize = 0;
    assert(messages@.take(0) =~= Seq::<RequestMessage>::empty());
    while i < messages.len()
        invariant
            i <= messages.len(),
            !has_orphan_tool_message(messages@),
            anthropic_input(messages@.take(i as int)) == Ok::<(Seq<Json>, Seq<Json>), Seq<char>>(
                (items_view(system@), items_view(body_messages@)),
            ),
        decreases messages.len() - i,
    {
        assert(messages@.take(i + 1).drop_last() =~= messages@.take(i as int));
        assert(messages@.take(i + 1).last() == messages@[i as int]);
        let m = &messages[i];
        let role = m.role.as_str();
        if str_eq(role, "system") {
            let blocks = serialize_anthropic_blocks(m.content.as_ref());
            push_all(&mut system, &blocks);
        } else if str_eq(role, "user") {
            let blocks = serialize_anthropic_blocks(m.content.as_ref());
            push_item(&mut body_messages, role_message("user", "content", blocks));
        } else if str_eq(role, "assistant") {
            let mut blocks = serialize_anthropic_blocks(m.content.as_ref());
            push_tool_use_blocks(&mut blocks, &m.tool_calls);
            push_item(&mut body_messages, role_message("assistant", "content", blocks));
        } else if str_eq(role, "tool") {
            let id = match &m.tool_call_id {
                Some(id) => id,
                None => {
                    proof {
                        lemma_anthropic_input_error_stays(messages@, i + 1, "tool message missing tool_call_id"@);
                    }
                    return Err(to_owned("tool message missing tool_call_id"));
                },
            };
            let text = joined_text_or_empty(m.content.as_ref());
            let mut result = no_members();
            push_member(&mut result, "type", str_value("tool_result"));
            push_member(&mut result, "tool_use_id", str_value(id.as_str()));
            push_member(&mut result, "content", str_value(text.as_str()));
            let ghost rv = entries_view(result@);
            let mut content = no_items();
            push_item(&mut content, JsonValue::Object(result));
            assert(rv =~= seq![
                ("type"@, Json::Str("tool_result"@)),
                ("tool_use_id"@, Json::Str(id@)),
                ("content"@, Json::Str(content_text(m.content))),
            ]);
            push_item(&mut body_messages, role_message("user", "content", content));
        } else {
            let mut e = to_owned("unsupported request role ");
            push_str(&mut e, role);
            proof {
                lemma_anthropic_input_error_stays(messages@, i + 1, e@);
            }
            return Err(e);
        }
        i += 1;
    }
    assert(messages@.take(messages.len() as int) =~= messages@);
    let mut tool_defs = no_items();
    push_function_tools(&mut tool_defs, ToolStyle::Anthropic, tools);
    push_server_tools(&mut tool_defs, server_tools, ServerToolFormat::Anthropic);
    let max_tokens = match options.max_output_tokens {
        Some(n) => n,
        None => DEFAULT_MAX_OUTPUT_TOKENS,
    };
    let mut body = no_members();
    push_member(&mut body, "model", str_value(options.model.as_str()));
    push_member(&mut body, "messages", JsonValue::Array(body_messages));
    push_member(&mut body, "temperature", copy_json(&options.temperature));
    push_member(&mut body, "stream", JsonValue::Bool(options.stream));
    push_member(&mut body, "max_tokens", count_value(max_tokens));
    push_optional(&mut body, "top_p", &options.top_p);
    push_nonempty(&mut body, "system", system);
    push_nonempty(&mut body, "tools", tool_defs);
    let key = options_key(config);
    if !header_value_ok(key) {
        return Err(to_owned("invalid anthropic api key header"));
    }
    let mut headers = json_headers();
    push_header(&mut headers, "x-api-key", key);
    push_header(&mut headers, "anthropic-version", "2023-06-01");
    let ghost bv = entries_view(body@);
    proof {
        let (sys, msgs) = anthropic_input(messages@)->Ok_0;
        assert(bv =~= match anthropic_body_json(sys, msgs, anthropic_tools_json(tools@, server_tools@), *options) {
            Json::Object(x) => x,
            _ => Seq::empty(),
        });
        assert(pairs_view(headers@) =~= seq![
            ("content-type"@, "application/json"@),
            ("x-api-key"@, config.api_key@),
            ("anthropic-version"@, "2023-06-01"@),
        ]);
    }
    Ok(WireRequest { url: url_with(config, "/messages"), headers, body: JsonValue::Object(body) })
}


// ---------------------------------------------------------------------------
// Gemini

/// The function name last recorded for a tool call id.
pub open spec fn latest_name(names: Seq<(Seq<char>, Seq<char>)>, id: Seq<char>) -> Option<Seq<char>>
    decreases names.len(),
{
    if names.len() == 0 {
        None
    } else if names.last().0 == id {
        Some(names.last().1)
    } else {
        latest_name(names.drop_last(), id)
    }
}

/// An earlier tool call as a Gemini `functionCall` part.
pub open spec fn function_call_part(c: ApiToolCallRequest) -> Json {
    Json::Object(
        seq![
            (
                "functionCall"@,
                Json::Object(
                    seq![
                        ("name"@, Json::Str(c.function.name@)),
                        ("args"@, crate::messages::tool_arguments_json(c.function.arguments@)),
                    ],
                ),
            ),
        ],
    )
}

/// The ids and function names of tool calls.
pub open spec fn call_names(calls: Seq<ApiToolCallRequest>) -> Seq<(Seq<char>, Seq<char>)> {
    calls.map_values(|c: ApiToolCallRequest| (c.id@, c.function.name@))
}

/// A tool's answer as a Gemini `functionResponse` part.
pub open spec fn function_response_part(name: Seq<char>, result: Seq<char>) -> Json {
    Json::Object(
        seq![
            (
                "functionResponse"@,
                Json::Object(
                    seq![
                        ("name"@, Json::Str(name)),
                        ("response"@, Json::Object(seq![("result"@, Json::Str(result))])),
                    ],
                ),
            ),
        ],
    )
}

/// The system parts, contents and known tool call names of a Gemini request,
/// or the first message's error. A tool's answer is named after the call it
/// answers, or `tool_result` where that call is unknown.
pub open spec fn gemini_input(ms: Seq<RequestMessage>) -> Result<(Seq<Json>, Seq<Json>, Seq<(Seq<char>, Seq<char>)>), Seq<char>>
    decreases ms.len(),
{
    if ms.len() == 0 {
        Ok((Seq::empty(), Seq::empty(), Seq::empty()))
    } else {
        match gemini_input(ms.drop_last()) {
            Err(e) => Err(e),
            Ok((system, contents, names)) => {
                let m = ms.last();
                let role = m.role@;
                let parts = content_parts_json(PartStyle::Gemini, m.content);
                if role == "system"@ {
                    Ok((system + parts, contents, names))
                } else if role == "user"@ {
                    Ok(
                        (
                            system,
                            contents.push(
                                Json::Object(seq![("role"@, Json::Str("user"@)), ("parts"@, Json::Array(parts))]),
                            ),
                            names,
                        ),
                    )
                } else if role == "assistant"@ {
                    Ok(
                        (
                            system,
                            contents.push(
                                Json::Object(
                                    seq![
                                        ("role"@, Json::Str("model"@)),
                                        (
                                            "parts"@,
                                            Json::Array(
                                                parts + m.tool_calls@.map_values(
                                                    |c: ApiToolCallRequest| function_call_part(c),
                                                ),
                                            ),
                                        ),
                                    ],
                                ),
                            ),
                            names + call_names(m.tool_calls@),
                        ),
                    )
                } else if role == "tool"@ {
                    match m.tool_call_id {
                        None => Err("tool message missing tool_call_id"@),
                        Some(id) => {
                            let name = match latest_name(names, id@) {
                                Some(n) => n,
                                None => "tool_result"@,
                            };
                            Ok(
                                (
                                    system,
                                    contents.push(
                                        Json::Object(
                                            seq![
                                                ("role"@, Json::Str("user"@)),
                                                (
                                                    "parts"@,
                                                    Json::Array(
                                                        seq![function_response_part(name, content_text(m.content))],
                                                    ),
                                                ),
                                            ],
                                        ),
                                    ),
                                    names,
                                ),
                            )
                        },
                    }
                } else {
                    Err("unsupported request role "@ + role)
                }
            },
        }
    }
}

/// The tools a Gemini request declares: the function declarations as one
/// entry, then the server tools.
pub open spec fn gemini_tools_json(tools: Seq<FunctionToolDefinition>, sts: Seq<ServerToolConfig>) -> Seq<Json> {
    (if tools.len() > 0 {
        seq![
            Json::Object(
                seq![("functionDeclarations"@, Json::Array(function_tools_json(ToolStyle::Gemini, tools)))],
            ),
        ]
    } else {
        Seq::empty()
    }) + server_tools_json(sts, ServerToolFormat::Gemini)
}

/// The generation settings of a Gemini request.
pub open spec fn generation_config_json(o: RequestOptions) -> Json {
    Json::Object(
        seq![
            ("temperature"@, json_view(o.temperature)),
            ("maxOutputTokens"@, count_json(max_tokens_or_default(o.max_output_tokens))),
        ] + optional_member("topP"@, o.top_p) + optional_member("presencePenalty"@, o.presence_penalty)
            + optional_member("frequencyPenalty"@, o.frequency_penalty),
    )
}

/// The body of a Gemini request.
pub open spec fn gemini_body_json(system: Seq<Json>, contents: Seq<Json>, tools: Seq<Json>, o: RequestOptions) -> Json {
    Json::Object(
        seq![("contents"@, Json::Array(contents)), ("generationConfig"@, generation_config_json(o))] + (
        if system.len() > 0 {
            seq![("system_instruction"@, Json::Object(seq![("parts"@, Json::Array(system))]))]
        } else {
            Seq::empty()
        }) + nonempty_member("tools"@, tools),
    )
}

/// The URL of a Gemini request: the model's streaming or plain action, with
/// the API key as a query parameter unless it is blank.
pub open spec fn gemini_url(config: RuntimeProviderConfig, o: RequestOptions) -> Seq<char> {
    let base = base_url_of(config) + "/models/"@ + o.model@ + ":"@ + (if o.stream {
        "streamGenerateContent?alt=sse"@
    } else {
        "generateContent"@
    });
    if trim(config.api_key@).len() > 0 {
        base + (if base.contains('?') {
            "&"@
        } else {
            "?"@
        }) + "key="@ + config.api_key@
    } else {
        base
    }
}

/// A Gemini request, or why it cannot be made.
pub open spec fn gemini_request(
    config: RuntimeProviderConfig,
    messages: Seq<RequestMessage>,
    tools: Seq<FunctionToolDefinition>,
    sts: Seq<ServerToolConfig>,
    o: RequestOptions,
) -> Result<(Seq<char>, Seq<(Seq<char>, Seq<char>)>, Json), Seq<char>> {
    if has_orphan_tool_message(messages) {
        Err("tool message missing tool_call_id"@)
    } else {
        match gemini_input(messages) {
            Err(e) => Err(e),
            Ok((system, contents, names)) => Ok(
                (
                    gemini_url(config, o),
                    seq![("content-type"@, "application/json"@)],
                    gemini_body_json(system, contents, gemini_tools_json(tools, sts), o),
                ),
            ),
        }
    }
}

proof fn lemma_gemini_input_error_stays(ms: Seq<RequestMessage>, i: int, e: Seq<char>)
    requires
        0 <= i <= ms.len(),
        gemini_input(ms.take(i)) is Err,
        gemini_input(ms.take(i))->Err_0 == e,
    ensures
        gemini_input(ms) is Err,
        gemini_input(ms)->Err_0 == e,
    decreases ms.len() - i,
{
    if i < ms.len() {
        assert(ms.take(i + 1).drop_last() =~= ms.take(i));
        lemma_gemini_input_error_stays(ms, i + 1, e);
    } else {
        assert(ms.take(i) =~= ms);
    }
}

pub open spec fn names_view(ns: Seq<(String, String)>) -> Seq<(Seq<char>, Seq<char>)> {
    ns.map_values(|n: (String, String)| (n.0@, n.1@))
}

fn latest_name_of(names: &Vec<(String, String)>, id: &str) -> (out: Option<String>)
    ensures
        match out {
            Some(n) => latest_name(names_view(names@), id@) == Some(n@),
            None => latest_name(names_view(names@), id@) is None,
        },
{
    let mut j: usize = names.len();
    assert(names@.take(j as int) =~= names@);
    while j > 0
        invariant
            j <= names@.len(),
            latest_name(names_view(names@), id@) == latest_name(names_view(names@.take(j as int)), id@),
        decreases j,
    {
        let k = j - 1;
        assert(names_view(names@.take(j as int)).drop_last() =~= names_view(names@.take(k as int)));
        assert(names_view(names@.take(j as int)).last() == (names@[k as int].0@, names@[k as int].1@));
        if str_eq(names[k].0.as_str(), id) {
            return Some(to_owned(names[k].1.as_str()));
        }
        j = k;
    }
    assert(names_view(names@.take(0)) =~= Seq::<(Seq<char>, Seq<char>)>::empty());
    None
}

fn function_call_value_gemini(c: &ApiToolCallRequest) -> (out: JsonValue)
    ensures
        json_view(out) == function_call_part(*c),
{
    let mut inner = no_members();
    push_member(&mut inner, "name", str_value(c.function.name.as_str()));
    push_member(&mut inner, "args", crate::messages::serialize_tool_arguments(c.function.arguments.as_str()));
    let ghost iv = entries_view(inner@);
    let mut e = no_members();
    push_member(&mut e, "functionCall", JsonValue::Object(inner));
    assert(iv =~= seq![
        ("name"@, Json::Str(c.function.name@)),
        ("args"@, crate::messages::tool_arguments_json(c.function.arguments@)),
    ]);
    assert(entries_view(e@) =~= match function_call_part(*c) {
        Json::Object(x) => x,
        _ => Seq::empty(),
    });
    JsonValue::Object(e)
}

fn push_function_call_parts(out: &mut Vec<JsonValue>, names: &mut Vec<(String, String)>, calls: &Vec<ApiToolCallRequest>)
    ensures
        items_view(final(out)@) == items_view(old(out)@) + calls@.map_values(
            |c: ApiToolCallRequest| function_call_part(c),
        ),
        names_view(final(names)@) == names_view(old(names)@) + call_names(calls@),
{
    let ghost start = items_view(out@);
    let ghost nstart = names_view(names@);
    let mut i: usize = 0;
    while i < calls.len()
        invariant
            i <= calls.len(),
            items_view(out@) == start + calls@.take(i as int).map_values(
                |c: ApiToolCallRequest| function_call_part(c),
            ),
            names_view(names@) == nstart + call_names(calls@.take(i as int)),
        decreases calls.len() - i,
    {
        let c = &calls[i];
        let ghost before = names@;
        names.push((to_owned(c.id.as_str()), to_owned(c.function.name.as_str())));
        assert(names_view(names@) =~= names_view(before).push((c.id@, c.function.name@)));
        assert(call_names(calls@.take(i + 1)) =~= call_names(calls@.take(i as int)).push((c.id@, c.function.name@)));
        push_item(out, function_call_value_gemini(c));
        assert(calls@.take(i + 1).map_values(|c: ApiToolCallRequest| function_call_part(c)) =~= calls@.take(
            i as int,
        ).map_values(|c: ApiToolCallRequest| function_call_part(c)).push(function_call_part(calls@[i as int])));
        i += 1;
    }
    assert(calls@.take(calls.len() as int) =~= calls@);
}

fn function_response_value(name: &str, result: &str) -> (out: JsonValue)
    ensures
        json_view(out) == function_response_part(name@, result@),
{
    let mut response = no_members();
    push_member(&mut response, "result", str_value(result));
    let ghost rv = entries_view(response@);
    let mut inner = no_members();
    push_member(&mut inner, "name", str_value(name));
    push_member(&mut inner, "response", JsonValue::Object(response));
    let ghost iv = entries_view(inner@);
    let mut e = no_members();
    push_member(&mut e, "functionResponse", JsonValue::Object(inner));
    assert(rv =~= seq![("result"@, Json::Str(result@))]);
    assert(iv =~= seq![("name"@, Json::Str(name@)), ("response"@, Json::Object(seq![("result"@, Json::Str(result@))]))]);
    assert(entries_view(e@) =~= match function_response_part(name@, result@) {
        Json::Object(x) => x,
        _ => Seq::empty(),
    });
    JsonValue::Object(e)
}

fn gemini_url_of(config: &RuntimeProviderConfig, options: &RequestOptions) -> (out: String)
    requires
        base_url_fits(*config),
    ensures
        out@ == gemini_url(*config, *options),
{
    let mut url = provider_base_url(config);
    push_str(&mut url, "/models/");
    push_str(&mut url, options.model.as_str());
    push_str(&mut url, ":");
    if options.stream {
        push_str(&mut url, "streamGenerateContent?alt=sse");
    } else {
        push_str(&mut url, "generateContent");
    }
    let key = options_key(config);
    let t = trim_str(key);
    if !t.as_str().is_empty() {
        let chars = crate::text::chars_of(url.as_str());
        if crate::text::chars_contain_char(chars.as_slice(), '?') {
            push_str(&mut url, "&");
        } else {
            push_str(&mut url, "?");
        }
        push_str(&mut url, "key=");
        push_str(&mut url, key);
    }
    url
}

/// Builds a Gemini `generateContent` request.
pub fn build_gemini_request(
    config: &RuntimeProviderConfig,
    messages: &[RequestMessage],
    tools: &[FunctionToolDefinition],
    server_tools: &[ServerToolConfig],
    options: &RequestOptions,
) -> (out: Result<WireRequest, String>)
    requires
        base_url_fits(*config),
    ensures
        match gemini_request(*config, messages@, tools@, server_tools@, *options) {
            Ok(r) => out is Ok && request_view(out->Ok_0) == r,
            Err(e) => out is Err && out->Err_0@ == e,
        },
{
    match validate_messages(messages) {
        Ok(()) => {},
        Err(e) => return Err(e),
    }
    let mut system = no_items();
    let mut contents = no_items();
    let mut names: Vec<(String, String)> = Vec::new();
    let mut i: usize = 0;
    assert(messages@.take(0) =~= Seq::<RequestMessage>::empty());
    assert(names_view(names@) =~= Seq::<(Seq<char>, Seq<char>)>::empty());
    while i < messages.len()
        invariant
            i <= messages.len(),
            !has_orphan_tool_message(messages@),
            gemini_input(messages@.take(i as int)) == Ok::<(Seq<Json>, Seq<Json>, Seq<(Seq<char>, Seq<char>)>), Seq<char>>(
                (items_view(system@), items_view(contents@), names_view(names@)),
            ),
        decreases messages.len() - i,
    {
        assert(messages@.take(i + 1).drop_last() =~= messages@.take(i as int));
        assert(messages@.take(i + 1).last() == messages@[i as int]);
        let m = &messages[i];
        let role = m.role.as_str();
        if str_eq(role, "system") {
            let parts = serialize_gemini_parts(m.content.as_ref());
            push_all(&mut system, &parts);
        } else if str_eq(role, "user") {
            let parts = serialize_gemini_parts(m.content.as_ref());
            push_item(&mut contents, role_message("user", "parts", parts));
        } else if str_eq(role, "assistant") {
            let mut parts = serialize_gemini_parts(m.content.as_ref());
            push_function_call_parts(&mut parts, &mut names, &m.tool_calls);
            push_item(&mut contents, role_message("model", "parts", parts));
        } else if str_eq(role, "tool") {
            let id = match &m.tool_call_id {
                Some(id) => id,
                None => {
                    proof {
                        lemma_gemini_input_error_stays(messages@, i + 1, "tool message missing tool_call_id"@);
                    }
                    return Err(to_owned("tool message missing tool_call_id"));
                },
            };
            let name = match latest_name_of(&names, id.as_str()) {
                Some(n) => n,
                None => to_owned("tool_result"),
            };
            let text = joined_text_or_empty(m.content.as_ref());
            let mut parts = no_items();
            push_item(&mut parts, function_response_value(name.as_str(), text.as_str()));
            push_item(&mut contents, role_message("user", "parts", parts));
        } else {
            let mut e = to_owned("unsupported request role ");
            push_str(&mut e, role);
            proof {
                lemma_gemini_input_error_stays(messages@, i + 1, e@);
            }
            return Err(e);
        }
        i += 1;
    }
    assert(messages@.take(messages.len() as int) =~= messages@);
    let mut tool_defs = no_items();
    if tools.len() > 0 {
        let mut declarations = no_items();
        push_function_tools(&mut declarations, ToolStyle::Gemini, tools);
        let ghost dv = items_view(declarations@);
        let mut entry = no_members();
        push_member(&mut entry, "functionDeclarations", JsonValue::Array(declarations));
        assert(entries_view(entry@) =~= seq![("functionDeclarations"@, Json::Array(dv))]);
        push_item(&mut tool_defs, JsonValue::Object(entry));
    }
    push_server_tools(&mut tool_defs, server_tools, ServerToolFormat::Gemini);
    let max_tokens = match options.max_output_tokens {
        Some(n) => n,
        None => DEFAULT_MAX_OUTPUT_TOKENS,
    };
    let mut generation = no_members();
    push_member(&mut generation, "temperature", copy_json(&options.temperature));
    push_member(&mut generation, "maxOutputTokens", count_value(max_tokens));
    push_optional(&mut generation, "topP", &options.top_p);
    push_optional(&mut generation, "presencePenalty", &options.presence_penalty);
    push_optional(&mut generation, "frequencyPenalty", &options.frequency_penalty);
    let ghost gv = entries_view(generation@);
    let mut body = no_members();
    push_member(&mut body, "contents", JsonValue::Array(contents));
    push_member(&mut body, "generationConfig", JsonValue::Object(generation));
    if system.len() > 0 {
        let ghost sv = items_view(system@);
        let mut instruction = no_members();
        push_member(&mut instruction, "parts", JsonValue::Array(system));
        assert(entries_view(instruction@) =~= seq![("parts"@, Json::Array(sv))]);
        push_member(&mut body, "system_instruction", JsonValue::Object(instruction));
    }
    push_nonempty(&mut body, "tools", tool_defs);
    let ghost bv = entries_view(body@);
    proof {
        let (sys, cs, ns) = gemini_input(messages@)->Ok_0;
        lemma_items_view_len(system@);
        assert(gv =~= match generation_config_json(*options) {
            Json::Object(x) => x,
            _ => Seq::empty(),
        });
        assert(bv =~= match gemini_body_json(sys, cs, gemini_tools_json(tools@, server_tools@), *options) {
            Json::Object(x) => x,
            _ => Seq::empty(),
        });
    }
    Ok(WireRequest { url: gemini_url_of(config, options), headers: json_headers(), body: JsonValue::Object(body) })
}


// ---------------------------------------------------------------------------
// By provider

/// The request for a provider, in its wire format, or why it cannot be made:
/// OpenAI itself is sent Responses API requests, other OpenAI-compatible
/// providers chat completions.
pub open spec fn wire_request(
    config: RuntimeProviderConfig,
    messages: Seq<RequestMessage>,
    tools: Seq<FunctionToolDefinition>,
    sts: Seq<ServerToolConfig>,
    o: RequestOptions,
) -> Result<(Seq<char>, Seq<(Seq<char>, Seq<char>)>, Json), Seq<char>> {
    if config.provider_type == ProviderType::Anthropic {
        anthropic_request(config, messages, tools, sts, o)
    } else if config.provider_type == ProviderType::Gemini {
        gemini_request(config, messages, tools, sts, o)
    } else if has_orphan_tool_message(messages) {
        Err("tool message missing tool_call_id"@)
    } else if config.provider_type == ProviderType::OpenAi {
        responses_request(config, messages, tools, sts, o)
    } else {
        chat_request(config, messages, tools, sts, o)
    }
}

/// Builds the request for a provider.
pub fn build_request(
    config: &RuntimeProviderConfig,
    messages: &[RequestMessage],
    tools: &[FunctionToolDefinition],
    server_tools: &[ServerToolConfig],
    options: &RequestOptions,
) -> (out: Result<WireRequest, String>)
    requires
        base_url_fits(*config),
    ensures
        match wire_request(*config, messages@, tools@, server_tools@, *options) {
            Ok(r) => out is Ok && request_view(out->Ok_0) == r,
            Err(e) => out is Err && out->Err_0@ == e,
        },
{
    match adapter_for(config) {
        WireKind::Anthropic => build_anthropic_request(config, messages, tools, server_tools, options),
        WireKind::Gemini => build_gemini_request(config, messages, tools, server_tools, options),
        WireKind::OpenAi => {
            match validate_messages(messages) {
                Ok(()) => {},
                Err(e) => return Err(e),
            }
            if should_use_openai_responses_api(config, server_tools) {
                build_openai_responses_request(config, messages, tools, server_tools, options)
            } else {
                build_openai_chat_request(config, messages, tools, server_tools, options)
            }
        },
    }
}

} // verus!
