use vstd::prelude::*;

use crate::settings::{ServerToolCapability, ServerToolConfig, ServerToolFormat};
use crate::text::{join, push_str, str_eq, trim, trim_str, strings_view};
use crate::json::{
    entries_view, items_view, json_view, no_items, no_members, parse_json, parsed_json,
    push_item, push_member, str_value, text_object, Json, JsonValue,
};
use crate::timeline::ContentBlock;
use crate::tools::{ToolDefinition, ToolParameter};

verus! {

broadcast use vstd::string::group_string_axioms;

/// One part of a message's content: text, or an image given inline.
#[derive(Debug, Clone)]
pub enum MessageContentPart {
    Text(String),
    Image { media_type: String, data_base64: String, name: Option<String> },
}

/// The plain value of a content part: its text, or `None` for an image.
pub open spec fn part_text(part: MessageContentPart) -> Option<Seq<char>> {
    match part {
        MessageContentPart::Text(t) => Some(t@),
        MessageContentPart::Image { .. } => None,
    }
}

/// The content of a request message, as a list of parts.
#[derive(Debug, Clone, Default)]
pub struct MessageContent {
    parts: Vec<MessageContentPart>,
}

/// The texts of the text parts, concatenated in order.
pub open spec fn texts_of(parts: Seq<MessageContentPart>) -> Seq<char>
    decreases parts.len(),
{
    if parts.len() == 0 {
        Seq::empty()
    } else {
        texts_of(parts.drop_last()) + match part_text(parts.last()) {
            Some(t) => t,
            None => Seq::empty(),
        }
    }
}

impl MessageContent {
    /// The parts of the content.
    pub closed spec fn spec_parts(&self) -> Seq<MessageContentPart> {
        self.parts@
    }

    /// Content made of one text part.
    pub fn from_text(text: String) -> (out: MessageContent)
        ensures
            out.spec_parts().len() == 1,
            part_text(out.spec_parts()[0]) == Some(text@),
    {
        MessageContent { parts: vec![MessageContentPart::Text(text)] }
    }

    /// Content made of the given parts.
    pub fn from_parts(parts: Vec<MessageContentPart>) -> (out: MessageContent)
        ensures
            out.spec_parts() == parts@,
    {
        MessageContent { parts }
    }

    pub fn parts(&self) -> (out: &[MessageContentPart])
        ensures
            out@ == self.spec_parts(),
    {
        self.parts.as_slice()
    }

    pub fn into_parts(self) -> (out: Vec<MessageContentPart>)
        ensures
            out@ == self.spec_parts(),
    {
        self.parts
    }

    /// The text parts joined together; nothing when that text is blank.
    pub fn joined_texts(&self) -> (out: Option<String>)
        ensures
            match out {
                Some(t) => t@ == texts_of(self.spec_parts()) && trim(t@).len() > 0,
                None => trim(texts_of(self.spec_parts())).len() == 0,
            },
    {
        let mut text = String::new();
        let mut i: usize = 0;
        while i < self.parts.len()
            invariant
                i <= self.parts.len(),
                text@ == texts_of(self.parts@.take(i as int)),
            decreases self.parts.len() - i,
        {
            match &self.parts[i] {
                MessageContentPart::Text(t) => {
                    push_str(&mut text, t.as_str());
                },
                MessageContentPart::Image { .. } => {},
            }
            assert(self.parts@.take(i + 1).drop_last() =~= self.parts@.take(i as int));
            assert(text@ =~= texts_of(self.parts@.take(i + 1)));
            i += 1;
        }
        assert(self.parts@.take(self.parts.len() as int) =~= self.parts@);
        let trimmed = trim_str(text.as_str());
        if trimmed.as_str().is_empty() {
            None
        } else {
            Some(text)
        }
    }
}

/// A function call the assistant asked for.
#[derive(Debug, Clone)]
pub struct ApiToolFunctionCallRequest {
    pub name: String,
    pub arguments: String,
}

/// A tool call the assistant asked for, as sent back to the provider.
#[derive(Debug, Clone)]
pub struct ApiToolCallRequest {
    pub id: String,
    pub tool_type: String,
    pub function: ApiToolFunctionCallRequest,
}

/// A message of a request to a model provider.
#[derive(Debug, Clone)]
pub struct RequestMessage {
    pub role: String,
    pub content: Option<MessageContent>,
    pub tool_call_id: Option<String>,
    pub tool_calls: Vec<ApiToolCallRequest>,
}

impl RequestMessage {
    pub fn system(content: String) -> (out: RequestMessage)
        ensures
            out.role@ == "system"@,
            out.content is Some,
            out.content->0.spec_parts().len() == 1,
            part_text(out.content->0.spec_parts()[0]) == Some(content@),
            out.tool_call_id is None,
            out.tool_calls@.len() == 0,
    {
        RequestMessage {
            role: "system".to_owned(),
            content: Some(MessageContent::from_text(content)),
            tool_call_id: None,
            tool_calls: Vec::new(),
        }
    }

    pub fn user(content: MessageContent) -> (out: RequestMessage)
        ensures
            out.role@ == "user"@,
            out.content == Some(content),
            out.tool_call_id is None,
            out.tool_calls@.len() == 0,
    {
        RequestMessage {
            role: "user".to_owned(),
            content: Some(content),
            tool_call_id: None,
            tool_calls: Vec::new(),
        }
    }

    pub fn assistant_text(content: MessageContent) -> (out: RequestMessage)
        ensures
            out.role@ == "assistant"@,
            out.content == Some(content),
            out.tool_call_id is None,
            out.tool_calls@.len() == 0,
    {
        RequestMessage {
            role: "assistant".to_owned(),
            content: Some(content),
            tool_call_id: None,
            tool_calls: Vec::new(),
        }
    }

    pub fn assistant_tool_calls_with_text(
        content: Option<MessageContent>,
        tool_calls: Vec<ApiToolCallRequest>,
    ) -> (out: RequestMessage)
        ensures
            out.role@ == "assistant"@,
            out.content == content,
            out.tool_call_id is None,
            out.tool_calls@ == tool_calls@,
    {
        RequestMessage { role: "assistant".to_owned(), content, tool_call_id: None, tool_calls }
    }

    pub fn assistant_tool_calls(tool_calls: Vec<ApiToolCallRequest>) -> (out: RequestMessage)
        ensures
            out.role@ == "assistant"@,
            out.content is None,
            out.tool_call_id is None,
            out.tool_calls@ == tool_calls@,
    {
        RequestMessage::assistant_tool_calls_with_text(None, tool_calls)
    }

    pub fn tool(tool_call_id: String, content: String) -> (out: RequestMessage)
        ensures
            out.role@ == "tool"@,
            out.content is Some,
            out.content->0.spec_parts().len() == 1,
            part_text(out.content->0.spec_parts()[0]) == Some(content@),
            out.tool_call_id is Some,
            out.tool_call_id->0@ == tool_call_id@,
            out.tool_calls@.len() == 0,
    {
        RequestMessage {
            role: "tool".to_owned(),
            content: Some(MessageContent::from_text(content)),
            tool_call_id: Some(tool_call_id),
            tool_calls: Vec::new(),
        }
    }
}

/// Whether some tool message lacks the id of the call it answers.
pub open spec fn has_orphan_tool_message(messages: Seq<RequestMessage>) -> bool {
    exists|i: int|
        0 <= i < messages.len() && #[trigger] messages[i].role@ == "tool"@ && messages[i].tool_call_id is None
}

/// Checks that every tool message names the call it answers.
pub fn validate_messages(messages: &[RequestMessage]) -> (out: Result<(), String>)
    ensures
        match out {
            Ok(()) => !has_orphan_tool_message(messages@),
            Err(m) => has_orphan_tool_message(messages@) && m@ == "tool message missing tool_call_id"@,
        },
{
    let mut i: usize = 0;
    while i < messages.len()
        invariant
            i <= messages.len(),
            forall|k: int|
                0 <= k < i ==> !(#[trigger] messages@[k].role@ == "tool"@ && messages@[k].tool_call_id is None),
        decreases messages.len() - i,
    {
        if str_eq(messages[i].role.as_str(), "tool") && messages[i].tool_call_id.is_none() {
            return Err("tool message missing tool_call_id".to_owned());
        }
        i += 1;
    }
    Ok(())
}

/// The content part a content block is sent as.
pub open spec fn block_part_matches(block: ContentBlock, part: MessageContentPart) -> bool {
    match (block, part) {
        (ContentBlock::Text { text }, MessageContentPart::Text(t)) => t@ == text@,
        (
            ContentBlock::Image { media_type, data_base64, name, .. },
            MessageContentPart::Image { media_type: m, data_base64: d, name: n },
        ) => m@ == media_type@ && d@ == data_base64@ && crate::agents::opt_view(n)
            == crate::agents::opt_view(name),
        _ => false,
    }
}

fn clone_opt(s: &Option<String>) -> (out: Option<String>)
    ensures
        crate::agents::opt_view(out) == crate::agents::opt_view(*s),
{
    match s {
        Some(v) => Some(v.clone()),
        None => None,
    }
}

/// The message content for a list of content blocks, one part each.
pub fn message_content_from_blocks(blocks: &[ContentBlock]) -> (out: MessageContent)
    ensures
        out.spec_parts().len() == blocks@.len(),
        forall|i: int| 0 <= i < blocks@.len() ==> block_part_matches(blocks@[i], #[trigger] out.spec_parts()[i]),
{
    let mut parts: Vec<MessageContentPart> = Vec::new();
    let mut i: usize = 0;
    while i < blocks.len()
        invariant
            i <= blocks.len(),
            parts@.len() == i,
            forall|k: int| 0 <= k < i ==> block_part_matches(blocks@[k], #[trigger] parts@[k]),
        decreases blocks.len() - i,
    {
        let part = match &blocks[i] {
            ContentBlock::Text { text } => MessageContentPart::Text(text.clone()),
            ContentBlock::Image { media_type, data_base64, name, .. } => MessageContentPart::Image {
                media_type: media_type.clone(),
                data_base64: data_base64.clone(),
                name: clone_opt(name),
            },
        };
        parts.push(part);
        i += 1;
    }
    MessageContent::from_parts(parts)
}

/// A tool's description as sent to the provider: with its usage notes as a
/// list after it, when it has any.
pub open spec fn tool_description_text(description: Seq<char>, notes: Seq<Seq<char>>) -> Seq<char> {
    if notes.len() == 0 {
        description
    } else {
        description + "\n\nUsage notes:\n- "@ + join(notes, "\n- "@)
    }
}

pub fn render_tool_description(tool: &ToolDefinition) -> (out: String)
    ensures
        out@ == tool_description_text(tool.description@, strings_view(tool.notes@)),
{
    if tool.notes.len() == 0 {
        return tool.description.to_owned();
    }
    let mut out = tool.description.to_owned();
    push_str(&mut out, "\n\nUsage notes:\n- ");
    let notes = crate::text::join_strings(&tool.notes, "\n- ");
    push_str(&mut out, notes.as_str());
    out
}

/// The JSON type a parameter kind is declared with.
pub open spec fn json_type_of_kind(kind: Seq<char>) -> Seq<char> {
    if kind == "boolean"@ {
        "boolean"@
    } else if kind == "integer"@ {
        "integer"@
    } else {
        "string"@
    }
}

pub fn json_type_for_parameter(parameter: &ToolParameter) -> (out: &'static str)
    ensures
        out@ == json_type_of_kind(parameter.kind@),
{
    if str_eq(parameter.kind, "boolean") {
        "boolean"
    } else if str_eq(parameter.kind, "integer") {
        "integer"
    } else if str_eq(parameter.kind, "enum") {
        "string"
    } else if str_eq(parameter.kind, "path") {
        "string"
    } else {
        "string"
    }
}

/// The JSON schema of a tool parameter: an array of strings for a
/// `string_array` parameter, else its JSON type; with its description.
pub open spec fn parameter_schema_json(p: ToolParameter) -> Json {
    if p.kind@ == "string_array"@ {
        Json::Object(
            seq![
                ("type"@, Json::Str("array"@)),
                ("items"@, Json::Object(seq![("type"@, Json::Str("string"@))])),
                ("description"@, Json::Str(p.description@)),
            ],
        )
    } else {
        Json::Object(
            seq![
                ("type"@, Json::Str(json_type_of_kind(p.kind@))),
                ("description"@, Json::Str(p.description@)),
            ],
        )
    }
}

pub fn parameter_schema(parameter: &ToolParameter) -> (out: JsonValue)
    ensures
        json_view(out) == parameter_schema_json(*parameter),
{
    let mut entries = no_members();
    if str_eq(parameter.kind, "string_array") {
        push_member(&mut entries, "type", str_value("array"));
        push_member(&mut entries, "items", text_object("type", "string"));
    } else {
        push_member(&mut entries, "type", str_value(json_type_for_parameter(parameter)));
    }
    push_member(&mut entries, "description", str_value(parameter.description));
    assert(entries_view(entries@) =~= match parameter_schema_json(*parameter) {
        Json::Object(e) => e,
        _ => Seq::empty(),
    });
    JsonValue::Object(entries)
}

/// The schemas of the parameters, by name, in order.
pub open spec fn parameter_properties(ps: Seq<ToolParameter>) -> Seq<(Seq<char>, Json)> {
    Seq::new(ps.len(), |i: int| (ps[i].name@, parameter_schema_json(ps[i])))
}

/// The object schema of a tool's parameters: each parameter's schema by
/// name, the names of the required ones in order, and no other property.
pub open spec fn parameters_schema_json(ps: Seq<ToolParameter>) -> Json {
    Json::Object(
        seq![
            ("type"@, Json::Str("object"@)),
            ("properties"@, Json::Object(parameter_properties(ps))),
            ("required"@, Json::Array(required_names(ps).map_values(|n: Seq<char>| Json::Str(n)))),
            ("additionalProperties"@, Json::Bool(false)),
        ],
    )
}

pub fn build_parameters_schema(parameters: &[ToolParameter]) -> (out: JsonValue)
    ensures
        json_view(out) == parameters_schema_json(parameters@),
{
    let mut properties = no_members();
    let mut required = no_items();
    let mut i: usize = 0;
    while i < parameters.len()
        invariant
            i <= parameters.len(),
            entries_view(properties@) == parameter_properties(parameters@.take(i as int)),
            items_view(required@) == required_names(parameters@.take(i as int)).map_values(
                |n: Seq<char>| Json::Str(n),
            ),
        decreases parameters.len() - i,
    {
        let p = &parameters[i];
        let ghost before = entries_view(properties@);
        push_member(&mut properties, p.name, parameter_schema(p));
        assert(parameters@.take(i + 1).drop_last() =~= parameters@.take(i as int));
        assert(entries_view(properties@) =~= parameter_properties(parameters@.take(i + 1)));
        let ghost rbefore = items_view(required@);
        if p.required {
            push_item(&mut required, str_value(p.name));
        }
        assert(items_view(required@) =~= required_names(parameters@.take(i + 1)).map_values(
            |n: Seq<char>| Json::Str(n),
        ));
        i += 1;
    }
    assert(parameters@.take(parameters.len() as int) =~= parameters@);
    let mut schema = no_members();
    push_member(&mut schema, "type", str_value("object"));
    push_member(&mut schema, "properties", JsonValue::Object(properties));
    push_member(&mut schema, "required", JsonValue::Array(required));
    push_member(&mut schema, "additionalProperties", JsonValue::Bool(false));
    assert(entries_view(schema@) =~= match parameters_schema_json(parameters@) {
        Json::Object(e) => e,
        _ => Seq::empty(),
    });
    JsonValue::Object(schema)
}

/// The names of the required parameters, in order.
pub open spec fn required_names(ps: Seq<ToolParameter>) -> Seq<Seq<char>>
    decreases ps.len(),
{
    if ps.len() == 0 {
        Seq::empty()
    } else if ps.last().required {
        required_names(ps.drop_last()).push(ps.last().name@)
    } else {
        required_names(ps.drop_last())
    }
}

/// The declaration of a server tool in a request, by capability and format:
/// whether it is an object `{"type": name}` (else `{name: {}}`), and the name.
pub open spec fn server_tool_name(capability: ServerToolCapability, format: ServerToolFormat) -> (bool, Seq<char>) {
    match (capability, format) {
        (ServerToolCapability::WebSearch, ServerToolFormat::OpenAiResponses) => (true, "web_search"@),
        (ServerToolCapability::CodeExecution, ServerToolFormat::OpenAiResponses) => (true, "code_interpreter"@),
        (ServerToolCapability::FileSearch, ServerToolFormat::OpenAiResponses) => (true, "file_search"@),
        (ServerToolCapability::WebSearch, ServerToolFormat::OpenAiChatCompletions) => (true, "web_search_preview"@),
        (ServerToolCapability::CodeExecution, ServerToolFormat::OpenAiChatCompletions) => (true, "code_interpreter"@),
        (ServerToolCapability::FileSearch, ServerToolFormat::OpenAiChatCompletions) => (true, "file_search"@),
        (ServerToolCapability::WebSearch, ServerToolFormat::Anthropic) => (true, "web_search_20250305"@),
        (ServerToolCapability::CodeExecution, ServerToolFormat::Anthropic) => (true, "code_execution_20250522"@),
        (ServerToolCapability::WebSearch, ServerToolFormat::Gemini) => (false, "googleSearch"@),
        (ServerToolCapability::CodeExecution, ServerToolFormat::Gemini) => (false, "codeExecution"@),
        (ServerToolCapability::FileSearch, ServerToolFormat::Anthropic) => (true, "file_search"@),
        (ServerToolCapability::FileSearch, ServerToolFormat::Gemini) => (true, "file_search"@),
    }
}

/// The declaration of a server tool, as JSON.
pub open spec fn server_tool_json(capability: ServerToolCapability, format: ServerToolFormat) -> Json {
    let (typed, name) = server_tool_name(capability, format);
    if typed {
        Json::Object(seq![("type"@, Json::Str(name))])
    } else {
        Json::Object(seq![(name, Json::Object(Seq::empty()))])
    }
}

fn server_tool_parts(capability: ServerToolCapability, format: ServerToolFormat) -> (out: (bool, &'static str))
    ensures
        (out.0, out.1@) == server_tool_name(capability, format),
{
    match (capability, format) {
        (ServerToolCapability::WebSearch, ServerToolFormat::OpenAiResponses) => (true, "web_search"),
        (ServerToolCapability::CodeExecution, ServerToolFormat::OpenAiResponses) => (true, "code_interpreter"),
        (ServerToolCapability::FileSearch, ServerToolFormat::OpenAiResponses) => (true, "file_search"),
        (ServerToolCapability::WebSearch, ServerToolFormat::OpenAiChatCompletions) => (true, "web_search_preview"),
        (ServerToolCapability::CodeExecution, ServerToolFormat::OpenAiChatCompletions) => (true, "code_interpreter"),
        (ServerToolCapability::FileSearch, ServerToolFormat::OpenAiChatCompletions) => (true, "file_search"),
        (ServerToolCapability::WebSearch, ServerToolFormat::Anthropic) => (true, "web_search_20250305"),
        (ServerToolCapability::CodeExecution, ServerToolFormat::Anthropic) => (true, "code_execution_20250522"),
        (ServerToolCapability::WebSearch, ServerToolFormat::Gemini) => (false, "googleSearch"),
        (ServerToolCapability::CodeExecution, ServerToolFormat::Gemini) => (false, "codeExecution"),
        (ServerToolCapability::FileSearch, ServerToolFormat::Anthropic) => (true, "file_search"),
        (ServerToolCapability::FileSearch, ServerToolFormat::Gemini) => (true, "file_search"),
    }
}

pub fn server_tool_definition(tool: &ServerToolConfig) -> (out: JsonValue)
    ensures
        json_view(out) == server_tool_json(tool.capability, tool.format),
{
    let (typed, name) = server_tool_parts(tool.capability, tool.format);
    let mut entries = no_members();
    if typed {
        push_member(&mut entries, "type", str_value(name));
    } else {
        push_member(&mut entries, name, JsonValue::Object(no_members()));
    }
    JsonValue::Object(entries)
}

/// The arguments of an earlier tool call as sent back: the JSON their text
/// holds, else the text as a string.
pub open spec fn tool_arguments_json(arguments_json: Seq<char>) -> Json {
    match parsed_json(arguments_json) {
        Some(v) => json_view(v),
        None => Json::Str(arguments_json),
    }
}

pub fn serialize_tool_arguments(arguments_json: &str) -> (out: JsonValue)
    ensures
        json_view(out) == tool_arguments_json(arguments_json@),
{
    match parse_json(arguments_json) {
        Some(v) => v,
        None => str_value(arguments_json),
    }
}

/// A tool as declared to a provider: its name, its description with usage
/// notes, and the JSON schema of its parameters.
#[derive(Debug)]
pub struct FunctionToolDefinition {
    pub name: String,
    pub description: String,
    pub parameters: JsonValue,
}

pub fn translate_tool_definition(tool: &ToolDefinition) -> (out: FunctionToolDefinition)
    ensures
        out.name@ == tool.name@,
        out.description@ == tool_description_text(tool.description@, strings_view(tool.notes@)),
        json_view(out.parameters) == parameters_schema_json(tool.parameters@),
{
    FunctionToolDefinition {
        name: tool.name.to_owned(),
        description: render_tool_description(tool),
        parameters: build_parameters_schema(tool.parameters.as_slice()),
    }
}

/// The tools of a session, as declared to a provider.
pub fn function_tools_for_context(tools: &[ToolDefinition]) -> (out: Vec<FunctionToolDefinition>)
    ensures
        out@.len() == tools@.len(),
        forall|i: int|
            0 <= i < tools@.len() ==> (#[trigger] out@[i]).name@ == tools@[i].name@
                && out@[i].description@ == tool_description_text(
                tools@[i].description@,
                strings_view(tools@[i].notes@),
            ) && json_view(out@[i].parameters) == parameters_schema_json(tools@[i].parameters@),
{
    let mut out: Vec<FunctionToolDefinition> = Vec::new();
    let mut i: usize = 0;
    while i < tools.len()
        invariant
            i <= tools.len(),
            out@.len() == i,
            forall|k: int|
                0 <= k < i ==> (#[trigger] out@[k]).name@ == tools@[k].name@
                    && out@[k].description@ == tool_description_text(
                    tools@[k].description@,
                    strings_view(tools@[k].notes@),
                ) && json_view(out@[k].parameters) == parameters_schema_json(tools@[k].parameters@),
        decreases tools.len() - i,
    {
        out.push(translate_tool_definition(&tools[i]));
        i += 1;
    }
    out
}

} // verus!
