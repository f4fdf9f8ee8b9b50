use vstd::prelude::*;

use crate::json::{entries_view, json_view, no_members, push_member, str_value, Json, JsonValue};
use crate::messages::{part_text, FunctionToolDefinition, MessageContent, MessageContentPart, RequestMessage};
use crate::provider::WireResponse;
use crate::requests::RequestOptions;
use crate::settings::{provider_db_name, ProviderType};
use crate::text::{push_str, to_owned, trim, trim_str};

verus! {

broadcast use vstd::string::group_string_axioms;

/// A one-pixel PNG the vision probe sends.
pub const PROBE_PNG_BASE64: &'static str = "iVBORw0KGgoAAAANSUhEUgAAAAEAAAABCAQAAAC1HAwCAAAAC0lEQVR42mP8/x8AAwMCAO+a3X8AAAAASUVORK5CYII=";

/// The tool the tool probe offers: `ping`, with no parameters.
pub fn ping_tool() -> (out: FunctionToolDefinition)
    ensures
        out.name@ == "ping"@,
        out.description@ == "Call this tool exactly once to confirm tool support."@,
        json_view(out.parameters) == Json::Object(
            seq![("type"@, Json::Str("object"@)), ("properties"@, Json::Object(Seq::empty())), ("additionalProperties"@, Json::Bool(false))],
        ),
{
    let mut members = no_members();
    push_member(&mut members, "type", str_value("object"));
    let empty = no_members();
    let ghost e = JsonValue::Object(empty);
    assert(json_view(e) == Json::Object(Seq::empty()));
    push_member(&mut members, "properties", JsonValue::Object(empty));
    push_member(&mut members, "additionalProperties", JsonValue::Bool(false));
    assert(entries_view(members@) =~= seq![("type"@, Json::Str("object"@)), ("properties"@, Json::Object(Seq::empty())), ("additionalProperties"@, Json::Bool(false))]);
    let parameters = JsonValue::Object(members);
    assert(json_view(parameters) == Json::Object(
        seq![("type"@, Json::Str("object"@)), ("properties"@, Json::Object(Seq::empty())), ("additionalProperties"@, Json::Bool(false))],
    ));
    FunctionToolDefinition {
        name: to_owned("ping"),
        description: to_owned("Call this tool exactly once to confirm tool support."),
        parameters,
    }
}

/// The options of a probe request: the model, no streaming, temperature 0
/// and a small output limit.
pub fn probe_options(model: &str, max_output_tokens: u32) -> (out: RequestOptions)
    ensures
        out.model@ == model@,
        !out.stream,
        out.temperature matches JsonValue::Number { unsigned, signed, text } && unsigned is None && signed is None
            && text@ == "0.0"@,
        out.top_p is None,
        out.presence_penalty is None,
        out.frequency_penalty is None,
        out.max_output_tokens == Some(max_output_tokens),
{
    RequestOptions {
        model: to_owned(model),
        stream: false,
        temperature: JsonValue::Number { unsigned: None, signed: None, text: to_owned("0.0") },
        top_p: None,
        presence_penalty: None,
        frequency_penalty: None,
        max_output_tokens: Some(max_output_tokens),
    }
}

/// The user message of a probe, with one text part.
fn probe_message(text: &str) -> (out: RequestMessage)
    ensures
        out.role@ == "user"@,
        out.content matches Some(c) && c.spec_parts().len() == 1 && part_text(c.spec_parts()[0]) == Some(text@),
        out.tool_call_id is None,
        out.tool_calls@.len() == 0,
{
    RequestMessage::user(MessageContent::from_text(to_owned(text)))
}

/// The messages of the tool probe.
pub fn tool_probe_messages() -> (out: Vec<RequestMessage>)
    ensures
        out@.len() == 1,
        out@[0].role@ == "user"@,
        out@[0].content matches Some(c) && c.spec_parts().len() == 1 && part_text(c.spec_parts()[0]) == Some(
            "Call the ping tool exactly once. Do not answer with plain text."@,
        ),
{
    vec![probe_message("Call the ping tool exactly once. Do not answer with plain text.")]
}

/// The messages of the connection probe.
pub fn connection_probe_messages() -> (out: Vec<RequestMessage>)
    ensures
        out@.len() == 1,
        out@[0].role@ == "user"@,
        out@[0].content matches Some(c) && c.spec_parts().len() == 1 && part_text(c.spec_parts()[0]) == Some(
            "Return exactly `MARCH_OK` and nothing else. Do not call tools."@,
        ),
{
    vec![probe_message("Return exactly `MARCH_OK` and nothing else. Do not call tools.")]
}

/// The probe image as a content part.
pub open spec fn probe_image(part: MessageContentPart) -> bool {
    &&& part matches MessageContentPart::Image { media_type, data_base64, name }
    &&& part->media_type@ == "image/png"@
    &&& part->data_base64@ == PROBE_PNG_BASE64@
    &&& part->name matches Some(n) && n@ == "march-probe.png"@
}

/// The messages of the vision probe: a request for one sentence, and the
/// probe image.
pub fn vision_probe_messages() -> (out: Vec<RequestMessage>)
    ensures
        out@.len() == 1,
        out@[0].role@ == "user"@,
        out@[0].content matches Some(c) && c.spec_parts().len() == 2 && part_text(c.spec_parts()[0]) == Some(
            "Describe this image in one short sentence."@,
        ) && probe_image(c.spec_parts()[1]),
{
    let parts = vec![
        MessageContentPart::Text(to_owned("Describe this image in one short sentence.")),
        MessageContentPart::Image {
            media_type: to_owned("image/png"),
            data_base64: to_owned(PROBE_PNG_BASE64),
            name: Some(to_owned("march-probe.png")),
        },
    ];
    vec![RequestMessage::user(MessageContent::from_parts(parts))]
}

/// Whether a reply to the tool probe called `ping`.
pub fn tool_probe_passed(response: &WireResponse) -> (out: bool)
    ensures
        out == exists|i: int| 0 <= i < response.tool_calls@.len() && (#[trigger] response.tool_calls@[i]).name@ == "ping"@,
{
    let mut i: usize = 0;
    while i < response.tool_calls.len()
        invariant
            i <= response.tool_calls@.len(),
            forall|k: int| 0 <= k < i ==> (#[trigger] response.tool_calls@[k]).name@ != "ping"@,
        decreases response.tool_calls.len() - i,
    {
        if crate::text::str_eq(response.tool_calls[i].name.as_str(), "ping") {
            return true;
        }
        i += 1;
    }
    false
}

/// Whether a reply to the vision probe has text.
pub fn vision_probe_passed(response: &WireResponse) -> (out: bool)
    ensures
        out == (response.content matches Some(c) && trim(c@).len() > 0),
{
    match &response.content {
        Some(c) => !trim_str(c.as_str()).as_str().is_empty(),
        None => false,
    }
}

/// The text of a reply to the connection probe, trimmed; or why there is none.
pub fn probe_reply_text(response: &WireResponse) -> (out: Result<String, String>)
    ensures
        match response.content {
            Some(c) if trim(c@).len() > 0 => out matches Ok(t) && t@ == trim(c@),
            _ => out matches Err(m) && m@ == "provider probe response did not contain text"@,
        },
{
    match &response.content {
        Some(c) => {
            let t = trim_str(c.as_str());
            if t.as_str().is_empty() {
                Err(to_owned("provider probe response did not contain text"))
            } else {
                Ok(t)
            }
        },
        None => Err(to_owned("provider probe response did not contain text")),
    }
}

/// Which model the connection test talks to.
#[derive(Debug, Clone, PartialEq, Eq)]
pub enum ProbeModel {
    /// The configured model, trimmed.
    Configured(String),
    /// The first model the provider lists.
    FromList,
}

/// The model of a connection test: the configured one unless it is blank;
/// else, for providers that list models without a key, the first listed;
/// else none.
pub fn probe_model_choice(configured: &str, provider_type: ProviderType) -> (out: Result<ProbeModel, String>)
    ensures
        trim(configured@).len() > 0 ==> (out matches Ok(ProbeModel::Configured(m)) && m@ == trim(configured@)),
        trim(configured@).len() == 0 && (provider_type == ProviderType::OpenAiCompat || provider_type
            == ProviderType::Ollama) ==> out == Ok::<ProbeModel, String>(ProbeModel::FromList),
        trim(configured@).len() == 0 && !(provider_type == ProviderType::OpenAiCompat || provider_type
            == ProviderType::Ollama) ==> (out matches Err(m) && m@ == "provider probe model is empty"@),
{
    let t = trim_str(configured);
    if !t.as_str().is_empty() {
        return Ok(ProbeModel::Configured(t));
    }
    match provider_type {
        ProviderType::OpenAiCompat | ProviderType::Ollama => Ok(ProbeModel::FromList),
        _ => Err(to_owned("provider probe model is empty")),
    }
}

/// The first listed model that is not blank, as listed.
pub fn first_listed_model(models: &Vec<String>) -> (out: Result<String, String>)
    ensures
        match out {
            Ok(m) => exists|i: int|
                0 <= i < models@.len() && models@[i]@ == m@ && trim(m@).len() > 0 && forall|k: int|
                    0 <= k < i ==> trim((#[trigger] models@[k])@).len() == 0,
            Err(e) => e@ == "provider 没有返回可用模型，无法完成真实对话测试"@ && forall|k: int|
                0 <= k < models@.len() ==> trim((#[trigger] models@[k])@).len() == 0,
        },
{
    let mut i: usize = 0;
    while i < models.len()
        invariant
            i <= models@.len(),
            forall|k: int| 0 <= k < i ==> trim((#[trigger] models@[k])@).len() == 0,
        decreases models.len() - i,
    {
        if !trim_str(models[i].as_str()).as_str().is_empty() {
            return Ok(to_owned(models[i].as_str()));
        }
        i += 1;
    }
    Err(to_owned("provider 没有返回可用模型，无法完成真实对话测试"))
}

/// The report of a passed connection test.
pub fn connection_report(provider_type: ProviderType, model: &str, reply: &str) -> (out: String)
    ensures
        out@ == "连接成功，已按 "@ + provider_db_name(provider_type) + " 通道完成最小消息往返，测试模型 "@ + model@
            + " 返回："@ + reply@,
{
    let mut out = to_owned("连接成功，已按 ");
    push_str(&mut out, provider_type.as_db_value());
    push_str(&mut out, " 通道完成最小消息往返，测试模型 ");
    push_str(&mut out, model);
    push_str(&mut out, " 返回：");
    push_str(&mut out, reply);
    out
}

} // verus!
