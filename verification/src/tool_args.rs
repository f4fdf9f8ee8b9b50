use vstd::prelude::*;

use crate::json::{
    as_text, as_uint, deref_opt, field, get_field, parse_json, parsed_json, text_field, text_of,
    uint_of, JsonValue,
};
use crate::shells::{parse_shell, shell_from_name, CommandShell};
use crate::text::{
    ascii_lower, chars_ends_with, chars_of, decimal, chars_starts_with, ends_with, push_str, starts_with,
    str_eq, string_from_chars, strings_view, to_ascii_lowercase, to_owned, trim, trim_chars,
    trim_str,
};
use crate::tool_calls::{looks_like_multiple_json_objects, multiple_json_objects, split_tag_text, tags_in_text};

verus! {

broadcast use vstd::string::group_string_axioms;

/// The text of an optional string.
pub open spec fn opt_text(s: Option<String>) -> Option<Seq<char>> {
    match s {
        Some(t) => Some(t@),
        None => None,
    }
}

/// An optional string field: absent or null gives no text, a string gives its
/// text, anything else is refused (`None`).
pub open spec fn optional_text(v: JsonValue, key: Seq<char>) -> Option<Option<Seq<char>>> {
    match field(v, key) {
        None => Some(None),
        Some(JsonValue::Null) => Some(None),
        Some(JsonValue::Str(s)) => Some(Some(s@)),
        _ => None,
    }
}

/// An optional unsigned field: absent or null gives no number, a non-negative
/// integer gives its value, anything else is refused.
pub open spec fn optional_uint(v: JsonValue, key: Seq<char>) -> Option<Option<u64>> {
    match field(v, key) {
        None => Some(None),
        Some(JsonValue::Null) => Some(None),
        Some(JsonValue::Number { unsigned: Some(n), .. }) => Some(Some(n)),
        _ => None,
    }
}

/// An optional signed field, as `optional_uint` for integers fitting `i64`.
pub open spec fn optional_int(v: JsonValue, key: Seq<char>) -> Option<Option<i64>> {
    match field(v, key) {
        None => Some(None),
        Some(JsonValue::Null) => Some(None),
        Some(JsonValue::Number { signed: Some(n), .. }) => Some(Some(n)),
        _ => None,
    }
}

/// An optional boolean field.
pub open spec fn optional_flag(v: JsonValue, key: Seq<char>) -> Option<Option<bool>> {
    match field(v, key) {
        None => Some(None),
        Some(JsonValue::Null) => Some(None),
        Some(JsonValue::Bool(b)) => Some(Some(b)),
        _ => None,
    }
}

/// A line number field: a non-negative integer that fits `usize`.
pub open spec fn line_number(v: JsonValue, key: Seq<char>) -> Option<usize> {
    match as_uint(field(v, key)) {
        Some(n) => if n <= usize::MAX {
            Some(n as usize)
        } else {
            None
        },
        None => None,
    }
}

/// Whether every item is a string.
pub open spec fn all_texts(items: Seq<JsonValue>) -> bool {
    forall|i: int| 0 <= i < items.len() ==> (#[trigger] items[i]) is Str
}

/// The texts of string items.
pub open spec fn texts_of(items: Seq<JsonValue>) -> Seq<Seq<char>> {
    Seq::new(
        items.len(),
        |i: int|
            match items[i] {
                JsonValue::Str(s) => s@,
                _ => Seq::empty(),
            },
    )
}

/// A present tags value: null gives no list, a string gives its
/// comma-separated pieces, an array of strings gives its items; anything else
/// is refused.
pub open spec fn tag_list(v: JsonValue) -> Option<Option<Seq<Seq<char>>>> {
    match v {
        JsonValue::Null => Some(None),
        JsonValue::Str(s) => Some(Some(tags_in_text(s@))),
        JsonValue::Array(items) => if all_texts(items@) {
            Some(Some(texts_of(items@)))
        } else {
            None
        },
        _ => None,
    }
}

/// The view of an optional list of strings.
pub open spec fn opt_texts(v: Option<Vec<String>>) -> Option<Seq<Seq<char>>> {
    match v {
        Some(items) => Some(strings_view(items@)),
        None => None,
    }
}

/// Decodes a required string field.
pub fn decode_text(v: &JsonValue, key: &str) -> (out: Option<String>)
    ensures
        opt_text(out) == text_field(*v, key@),
{
    match text_of(get_field(v, key)) {
        Some(s) => Some(to_owned(s)),
        None => None,
    }
}

/// Decodes an optional string field; `None` where the field has another type.
pub fn decode_optional_text(v: &JsonValue, key: &str) -> (out: Option<Option<String>>)
    ensures
        match out {
            Some(t) => optional_text(*v, key@) == Some(opt_text(t)),
            None => optional_text(*v, key@) is None,
        },
{
    match get_field(v, key) {
        None => Some(None),
        Some(JsonValue::Null) => Some(None),
        Some(JsonValue::Str(s)) => Some(Some(to_owned(s.as_str()))),
        _ => None,
    }
}

/// Decodes an optional unsigned field.
pub fn decode_optional_uint(v: &JsonValue, key: &str) -> (out: Option<Option<u64>>)
    ensures
        out == optional_uint(*v, key@),
{
    match get_field(v, key) {
        None => Some(None),
        Some(JsonValue::Null) => Some(None),
        Some(JsonValue::Number { unsigned: Some(n), .. }) => Some(Some(*n)),
        _ => None,
    }
}

/// Decodes an optional signed field.
pub fn decode_optional_int(v: &JsonValue, key: &str) -> (out: Option<Option<i64>>)
    ensures
        out == optional_int(*v, key@),
{
    match get_field(v, key) {
        None => Some(None),
        Some(JsonValue::Null) => Some(None),
        Some(JsonValue::Number { signed: Some(n), .. }) => Some(Some(*n)),
        _ => None,
    }
}

/// Decodes an optional boolean field.
pub fn decode_optional_flag(v: &JsonValue, key: &str) -> (out: Option<Option<bool>>)
    ensures
        out == optional_flag(*v, key@),
{
    match get_field(v, key) {
        None => Some(None),
        Some(JsonValue::Null) => Some(None),
        Some(JsonValue::Bool(b)) => Some(Some(*b)),
        _ => None,
    }
}

/// Decodes a line number field.
pub fn decode_line_number(v: &JsonValue, key: &str) -> (out: Option<usize>)
    ensures
        out == line_number(*v, key@),
{
    match uint_of(get_field(v, key)) {
        Some(n) => if n <= usize::MAX as u64 {
            Some(n as usize)
        } else {
            None
        },
        None => None,
    }
}

/// Decodes a present tags value.
pub fn decode_tag_list(v: &JsonValue) -> (out: Option<Option<Vec<String>>>)
    ensures
        match out {
            Some(t) => tag_list(*v) == Some(opt_texts(t)),
            None => tag_list(*v) is None,
        },
{
    match v {
        JsonValue::Null => Some(None),
        JsonValue::Str(s) => Some(Some(split_tag_text(s.as_str()))),
        JsonValue::Array(items) => {
            let mut out: Vec<String> = Vec::new();
            let mut i: usize = 0;
            while i < items.len()
                invariant
                    i <= items.len(),
                    match *v {
                        JsonValue::Array(x) => x@ == items@,
                        _ => false,
                    },
                    forall|j: int| 0 <= j < i ==> (#[trigger] items@[j]) is Str,
                    strings_view(out@) == texts_of(items@).take(i as int),
                decreases items.len() - i,
            {
                match &items[i] {
                    JsonValue::Str(s) => {
                        let ghost prev = out@;
                        assert(texts_of(items@)[i as int] == s@);
                        let t = to_owned(s.as_str());
                        out.push(t);
                        assert(strings_view(out@) =~= strings_view(prev).push(t@));
                        assert(texts_of(items@).take(i + 1) =~= texts_of(items@).take(i as int).push(s@));
                    },
                    _ => {
                        assert(!all_texts(items@));
                        return None;
                    },
                }
                i += 1;
            }
            assert(texts_of(items@).take(items.len() as int) =~= texts_of(items@));
            Some(Some(out))
        },
        _ => None,
    }
}

/// The arguments of a `run_command` call.
#[derive(Debug)]
pub struct RunCommandArgs {
    pub shell: String,
    pub command: String,
    pub timeout_secs: Option<u64>,
}

/// Whether an object decodes to `run_command` arguments.
pub open spec fn run_command_decodes(v: JsonValue) -> bool {
    &&& text_field(v, "shell"@) is Some
    &&& text_field(v, "command"@) is Some
    &&& optional_uint(v, "timeout_secs"@) is Some
}

/// Whether `a` holds what an object gives for `run_command`.
pub open spec fn run_command_fits(v: JsonValue, a: RunCommandArgs) -> bool {
    &&& text_field(v, "shell"@) == Some(a.shell@)
    &&& text_field(v, "command"@) == Some(a.command@)
    &&& optional_uint(v, "timeout_secs"@) == Some(a.timeout_secs)
}

pub const RUN_COMMAND_EXPECTS_ONE_OBJECT: &'static str =
    "invalid run_command args: expected exactly one object like {\"shell\":\"powershell\",\"command\":\"dir\"}";

pub const RUN_COMMAND_MULTIPLE_OBJECTS: &'static str =
    "invalid run_command args: received multiple concatenated JSON objects; each run_command tool call may execute exactly one command, so split them into separate tool calls. Raw args: ";

pub const RUN_COMMAND_STRINGIFIED_OBJECT: &'static str =
    "invalid run_command args: received a stringified JSON object; emit the object directly instead of wrapping it in a string";

pub const RUN_COMMAND_PLAIN_STRING: &'static str =
    "invalid run_command args: expected a JSON object with fields shell and command, but received a plain string. Raw args: ";

pub const RUN_COMMAND_NOT_OBJECT: &'static str =
    "invalid run_command args: expected a JSON object with fields shell and command. Raw args: ";

/// The object that `run_command` arguments are read from, or the message for
/// arguments given in another shape: an object is read as it is; a string
/// holding one object in braces is read as the JSON it holds.
pub open spec fn run_command_source(args: JsonValue, raw: Seq<char>) -> Result<JsonValue, Seq<char>> {
    match args {
        JsonValue::Object(_) => Ok(args),
        JsonValue::Str(s) => {
            let t = trim(s@);
            if multiple_json_objects(t) {
                Err(RUN_COMMAND_MULTIPLE_OBJECTS@ + raw)
            } else if starts_with(t, "{"@) && ends_with(t, "}"@) {
                match parsed_json(t) {
                    Some(nested) => Ok(nested),
                    None => Err(RUN_COMMAND_STRINGIFIED_OBJECT@),
                }
            } else {
                Err(RUN_COMMAND_PLAIN_STRING@ + raw)
            }
        },
        _ => Err(RUN_COMMAND_NOT_OBJECT@ + raw),
    }
}

fn decode_run_command_object(v: &JsonValue) -> (out: Option<RunCommandArgs>)
    ensures
        match out {
            Some(a) => run_command_decodes(*v) && run_command_fits(*v, a),
            None => !run_command_decodes(*v),
        },
{
    let shell = match decode_text(v, "shell") {
        Some(s) => s,
        None => return None,
    };
    let command = match decode_text(v, "command") {
        Some(s) => s,
        None => return None,
    };
    let timeout_secs = match decode_optional_uint(v, "timeout_secs") {
        Some(t) => t,
        None => return None,
    };
    Some(RunCommandArgs { shell, command, timeout_secs })
}

fn message_with_raw(prefix: &str, raw: &str) -> (out: String)
    ensures
        out@ == prefix@ + raw@,
{
    let mut out = to_owned(prefix);
    push_str(&mut out, raw);
    out
}

/// Reads `run_command` arguments given as an object or as a string holding
/// one; `original_arguments_json` is the raw text, quoted in the messages.
pub fn parse_run_command_args(args: JsonValue, original_arguments_json: &str) -> (out: Result<
    RunCommandArgs,
    String,
>)
    ensures
        match run_command_source(args, original_arguments_json@) {
            Err(message) => out is Err && out->Err_0@ == message,
            Ok(object) => if run_command_decodes(object) {
                out is Ok && run_command_fits(object, out->Ok_0)
            } else {
                out is Err && out->Err_0@ == RUN_COMMAND_EXPECTS_ONE_OBJECT@
            },
        },
{
    let object = match args {
        JsonValue::Object(_) => args,
        JsonValue::Str(encoded) => {
            let chars = chars_of(encoded.as_str());
            let t = trim_chars(chars.as_slice());
            let trimmed = string_from_chars(t.as_slice());
            if looks_like_multiple_json_objects(trimmed.as_str()) {
                return Err(message_with_raw(RUN_COMMAND_MULTIPLE_OBJECTS, original_arguments_json));
            }
            let open = chars_of("{");
            let close = chars_of("}");
            if chars_starts_with(t.as_slice(), open.as_slice()) && chars_ends_with(
                t.as_slice(),
                close.as_slice(),
            ) {
                match parse_json(trimmed.as_str()) {
                    Some(nested) => nested,
                    None => return Err(to_owned(RUN_COMMAND_STRINGIFIED_OBJECT)),
                }
            } else {
                return Err(message_with_raw(RUN_COMMAND_PLAIN_STRING, original_arguments_json));
            }
        },
        _ => return Err(message_with_raw(RUN_COMMAND_NOT_OBJECT, original_arguments_json)),
    };
    run_command_args_from_object(&object)
}

/// Reads `run_command` arguments from the object that holds them, however it
/// was given: its `shell` and `command` texts and optional `timeout_secs`.
pub fn run_command_args_from_object(object: &JsonValue) -> (out: Result<RunCommandArgs, String>)
    ensures
        if run_command_decodes(*object) {
            out is Ok && run_command_fits(*object, out->Ok_0)
        } else {
            out is Err && out->Err_0@ == RUN_COMMAND_EXPECTS_ONE_OBJECT@
        },
{
    match decode_run_command_object(object) {
        Some(a) => Ok(a),
        None => Err(to_owned(RUN_COMMAND_EXPECTS_ONE_OBJECT)),
    }
}


/// The arguments of a `memorize` call.
#[derive(Debug)]
pub struct MemorizeArgs {
    pub id: String,
    pub memory_type: String,
    pub topic: String,
    pub title: String,
    pub content: String,
    pub tags: Vec<String>,
    pub scope: Option<String>,
    pub level: Option<String>,
}

/// The tags a present value gives, an absent list read as no tags.
pub open spec fn tags_or_none(t: Option<Seq<Seq<char>>>) -> Seq<Seq<char>> {
    match t {
        Some(l) => l,
        None => Seq::empty(),
    }
}

/// Whether an object decodes to `memorize` arguments: its texts are there,
/// its `tags` member is there and a tag list, `scope` and `level` optional texts.
pub open spec fn memorize_decodes(v: JsonValue) -> bool {
    &&& text_field(v, "id"@) is Some
    &&& text_field(v, "memory_type"@) is Some
    &&& text_field(v, "topic"@) is Some
    &&& text_field(v, "title"@) is Some
    &&& text_field(v, "content"@) is Some
    &&& field(v, "tags"@) is Some
    &&& tag_list(field(v, "tags"@)->0) is Some
    &&& optional_text(v, "scope"@) is Some
    &&& optional_text(v, "level"@) is Some
}

/// Whether `a` holds what an object gives for `memorize`.
pub open spec fn memorize_fits(v: JsonValue, a: MemorizeArgs) -> bool {
    &&& text_field(v, "id"@) == Some(a.id@)
    &&& text_field(v, "memory_type"@) == Some(a.memory_type@)
    &&& text_field(v, "topic"@) == Some(a.topic@)
    &&& text_field(v, "title"@) == Some(a.title@)
    &&& text_field(v, "content"@) == Some(a.content@)
    &&& strings_view(a.tags@) == tags_or_none(tag_list(field(v, "tags"@)->0)->0)
    &&& optional_text(v, "scope"@) == Some(opt_text(a.scope))
    &&& optional_text(v, "level"@) == Some(opt_text(a.level))
}

impl MemorizeArgs {
    /// Reads `memorize` arguments from an object.
    pub fn from_json(v: &JsonValue) -> (out: Option<MemorizeArgs>)
        ensures
            match out {
                Some(a) => memorize_decodes(*v) && memorize_fits(*v, a),
                None => !memorize_decodes(*v),
            },
    {
        let id = match decode_text(v, "id") { Some(s) => s, None => return None };
        let memory_type = match decode_text(v, "memory_type") { Some(s) => s, None => return None };
        let topic = match decode_text(v, "topic") { Some(s) => s, None => return None };
        let title = match decode_text(v, "title") { Some(s) => s, None => return None };
        let content = match decode_text(v, "content") { Some(s) => s, None => return None };
        let tags = match get_field(v, "tags") {
            Some(t) => match decode_tag_list(t) {
                Some(Some(list)) => list,
                Some(None) => {
                    let empty: Vec<String> = Vec::new();
                    assert(strings_view(empty@) =~= Seq::<Seq<char>>::empty());
                    empty
                },
                None => return None,
            },
            None => return None,
        };
        let scope = match decode_optional_text(v, "scope") { Some(s) => s, None => return None };
        let level = match decode_optional_text(v, "level") { Some(s) => s, None => return None };
        Some(MemorizeArgs { id, memory_type, topic, title, content, tags, scope, level })
    }
}

/// The arguments of an `update_memory` call.
#[derive(Debug)]
pub struct UpdateMemoryArgs {
    pub id: String,
    pub title: Option<String>,
    pub content: Option<String>,
    pub tags: Option<Vec<String>>,
    pub topic: Option<String>,
    pub memory_type: Option<String>,
}

/// An optional tags member: absent gives no list, present reads as `tag_list`.
pub open spec fn optional_tags(v: JsonValue, key: Seq<char>) -> Option<Option<Seq<Seq<char>>>> {
    match field(v, key) {
        None => Some(None),
        Some(t) => tag_list(t),
    }
}

pub open spec fn update_memory_decodes(v: JsonValue) -> bool {
    &&& text_field(v, "id"@) is Some
    &&& optional_text(v, "title"@) is Some
    &&& optional_text(v, "content"@) is Some
    &&& optional_tags(v, "tags"@) is Some
    &&& optional_text(v, "topic"@) is Some
    &&& optional_text(v, "memory_type"@) is Some
}

pub open spec fn update_memory_fits(v: JsonValue, a: UpdateMemoryArgs) -> bool {
    &&& text_field(v, "id"@) == Some(a.id@)
    &&& optional_text(v, "title"@) == Some(opt_text(a.title))
    &&& optional_text(v, "content"@) == Some(opt_text(a.content))
    &&& optional_tags(v, "tags"@) == Some(opt_texts(a.tags))
    &&& optional_text(v, "topic"@) == Some(opt_text(a.topic))
    &&& optional_text(v, "memory_type"@) == Some(opt_text(a.memory_type))
}

impl UpdateMemoryArgs {
    /// Reads `update_memory` arguments from an object.
    pub fn from_json(v: &JsonValue) -> (out: Option<UpdateMemoryArgs>)
        ensures
            match out {
                Some(a) => update_memory_decodes(*v) && update_memory_fits(*v, a),
                None => !update_memory_decodes(*v),
            },
    {
        let id = match decode_text(v, "id") { Some(s) => s, None => return None };
        let title = match decode_optional_text(v, "title") { Some(s) => s, None => return None };
        let content = match decode_optional_text(v, "content") { Some(s) => s, None => return None };
        let tags = match get_field(v, "tags") {
            Some(t) => match decode_tag_list(t) {
                Some(list) => list,
                None => return None,
            },
            None => None,
        };
        let topic = match decode_optional_text(v, "topic") { Some(s) => s, None => return None };
        let memory_type = match decode_optional_text(v, "memory_type") {
            Some(s) => s,
            None => return None,
        };
        Some(UpdateMemoryArgs { id, title, content, tags, topic, memory_type })
    }
}

/// The arguments of a `create_agent` call.
#[derive(Debug)]
pub struct CreateAgentArgs {
    pub name: String,
    pub display_name: String,
    pub description: String,
    pub system_prompt: String,
    pub avatar_color: Option<String>,
    pub provider_id: Option<i64>,
    pub model: Option<String>,
}

pub open spec fn create_agent_decodes(v: JsonValue) -> bool {
    &&& text_field(v, "name"@) is Some
    &&& text_field(v, "display_name"@) is Some
    &&& text_field(v, "description"@) is Some
    &&& text_field(v, "system_prompt"@) is Some
    &&& optional_text(v, "avatar_color"@) is Some
    &&& optional_int(v, "provider_id"@) is Some
    &&& optional_text(v, "model"@) is Some
}

pub open spec fn create_agent_fits(v: JsonValue, a: CreateAgentArgs) -> bool {
    &&& text_field(v, "name"@) == Some(a.name@)
    &&& text_field(v, "display_name"@) == Some(a.display_name@)
    &&& text_field(v, "description"@) == Some(a.description@)
    &&& text_field(v, "system_prompt"@) == Some(a.system_prompt@)
    &&& optional_text(v, "avatar_color"@) == Some(opt_text(a.avatar_color))
    &&& optional_int(v, "provider_id"@) == Some(a.provider_id)
    &&& optional_text(v, "model"@) == Some(opt_text(a.model))
}

impl CreateAgentArgs {
    /// Reads `create_agent` arguments from an object.
    pub fn from_json(v: &JsonValue) -> (out: Option<CreateAgentArgs>)
        ensures
            match out {
                Some(a) => create_agent_decodes(*v) && create_agent_fits(*v, a),
                None => !create_agent_decodes(*v),
            },
    {
        let name = match decode_text(v, "name") { Some(s) => s, None => return None };
        let display_name = match decode_text(v, "display_name") { Some(s) => s, None => return None };
        let description = match decode_text(v, "description") { Some(s) => s, None => return None };
        let system_prompt = match decode_text(v, "system_prompt") {
            Some(s) => s,
            None => return None,
        };
        let avatar_color = match decode_optional_text(v, "avatar_color") {
            Some(s) => s,
            None => return None,
        };
        let provider_id = match decode_optional_int(v, "provider_id") {
            Some(s) => s,
            None => return None,
        };
        let model = match decode_optional_text(v, "model") { Some(s) => s, None => return None };
        Some(CreateAgentArgs { name, display_name, description, system_prompt, avatar_color, provider_id, model })
    }
}

/// The arguments of an `update_agent` call.
#[derive(Debug)]
pub struct UpdateAgentArgs {
    pub name: String,
    pub display_name: Option<String>,
    pub description: Option<String>,
    pub system_prompt: Option<String>,
    pub avatar_color: Option<String>,
    pub provider_id: Option<i64>,
    pub model: Option<String>,
    pub clear_model_binding: Option<bool>,
}

pub open spec fn update_agent_decodes(v: JsonValue) -> bool {
    &&& text_field(v, "name"@) is Some
    &&& optional_text(v, "display_name"@) is Some
    &&& optional_text(v, "description"@) is Some
    &&& optional_text(v, "system_prompt"@) is Some
    &&& optional_text(v, "avatar_color"@) is Some
    &&& optional_int(v, "provider_id"@) is Some
    &&& optional_text(v, "model"@) is Some
    &&& optional_flag(v, "clear_model_binding"@) is Some
}

pub open spec fn update_agent_fits(v: JsonValue, a: UpdateAgentArgs) -> bool {
    &&& text_field(v, "name"@) == Some(a.name@)
    &&& update_agent_options_fit(v, a)
}

/// Whether the optional members of `update_agent` arguments are those of `a`.
pub open spec fn update_agent_options_fit(v: JsonValue, a: UpdateAgentArgs) -> bool {
    &&& optional_text(v, "display_name"@) == Some(opt_text(a.display_name))
    &&& optional_text(v, "description"@) == Some(opt_text(a.description))
    &&& optional_text(v, "system_prompt"@) == Some(opt_text(a.system_prompt))
    &&& optional_text(v, "avatar_color"@) == Some(opt_text(a.avatar_color))
    &&& optional_int(v, "provider_id"@) == Some(a.provider_id)
    &&& optional_text(v, "model"@) == Some(opt_text(a.model))
    &&& optional_flag(v, "clear_model_binding"@) == Some(a.clear_model_binding)
}

impl UpdateAgentArgs {
    /// Reads `update_agent` arguments from an object.
    pub fn from_json(v: &JsonValue) -> (out: Option<UpdateAgentArgs>)
        ensures
            match out {
                Some(a) => update_agent_decodes(*v) && update_agent_fits(*v, a),
                None => !update_agent_decodes(*v),
            },
    {
        let name = match decode_text(v, "name") { Some(s) => s, None => return None };
        let display_name = match decode_optional_text(v, "display_name") {
            Some(s) => s,
            None => return None,
        };
        let description = match decode_optional_text(v, "description") {
            Some(s) => s,
            None => return None,
        };
        let system_prompt = match decode_optional_text(v, "system_prompt") {
            Some(s) => s,
            None => return None,
        };
        let avatar_color = match decode_optional_text(v, "avatar_color") {
            Some(s) => s,
            None => return None,
        };
        let provider_id = match decode_optional_int(v, "provider_id") {
            Some(s) => s,
            None => return None,
        };
        let model = match decode_optional_text(v, "model") { Some(s) => s, None => return None };
        let clear_model_binding = match decode_optional_flag(v, "clear_model_binding") {
            Some(s) => s,
            None => return None,
        };
        Some(UpdateAgentArgs {
            name,
            display_name,
            description,
            system_prompt,
            avatar_color,
            provider_id,
            model,
            clear_model_binding,
        })
    }
}


/// The timeout a `run_command` call gets when it names none, in seconds.
pub const DEFAULT_RUN_COMMAND_TIMEOUT_SECS: u64 = 10;

pub const RUN_COMMAND_ZERO_TIMEOUT: &'static str =
    "invalid run_command args: timeout_secs must be at least 1";

/// A decoded tool call: what the session is asked to do, with every argument
/// checked.
#[derive(Debug)]
pub enum ToolRequest {
    RunCommand { shell: CommandShell, command: String, timeout_secs: u64 },
    OpenFile { path: String },
    CloseFile { path: String },
    WriteFile { path: String, content: String },
    ReplaceLines { path: String, start_line: usize, end_line: usize, new_content: String },
    InsertLines { path: String, after_line: usize, new_content: String },
    DeleteLines { path: String, start_line: usize, end_line: usize },
    WriteNote { id: String, content: String },
    RemoveNote { id: String },
    Memorize(MemorizeArgs),
    RecallMemory { id: String },
    UpdateMemory(UpdateMemoryArgs),
    ForgetMemory { id: String },
    CreateAgent(CreateAgentArgs),
    UpdateMarchPrompt { system_prompt: Option<String> },
    UpdateAgent(UpdateAgentArgs),
    DeleteAgent { name: String },
}

/// The message for arguments a tool cannot read.
pub open spec fn invalid_args(name: Seq<char>) -> Seq<char> {
    "invalid "@ + name + " args"@
}

/// An agent name as the tools compare it: trimmed, ASCII lower case.
pub open spec fn agent_key(name: Seq<char>) -> Seq<char> {
    ascii_lower(trim(name))
}

/// The timeout a decoded `run_command` object asks for.
pub open spec fn requested_timeout(object: JsonValue) -> u64 {
    match optional_uint(object, "timeout_secs"@) {
        Some(Some(t)) => t,
        _ => DEFAULT_RUN_COMMAND_TIMEOUT_SECS,
    }
}

/// Why a `run_command` call cannot run, if it cannot.
pub open spec fn run_command_error(args: JsonValue, raw: Seq<char>) -> Option<Seq<char>> {
    match run_command_source(args, raw) {
        Err(message) => Some(message),
        Ok(object) => if !run_command_decodes(object) {
            Some(RUN_COMMAND_EXPECTS_ONE_OBJECT@)
        } else if requested_timeout(object) == 0 {
            Some(RUN_COMMAND_ZERO_TIMEOUT@)
        } else if shell_from_name(text_field(object, "shell"@)->0) is None {
            Some("unsupported shell "@ + text_field(object, "shell"@)->0)
        } else {
            None
        },
    }
}

/// Whether `name` is one of the file tools.
pub open spec fn is_file_tool(name: Seq<char>) -> bool {
    ||| name == "open_file"@
    ||| name == "close_file"@
    ||| name == "write_file"@
    ||| name == "replace_lines"@
    ||| name == "insert_lines"@
    ||| name == "delete_lines"@
}

/// Whether `name` is one of the note and memory tools.
pub open spec fn is_memory_tool(name: Seq<char>) -> bool {
    ||| name == "write_note"@
    ||| name == "remove_note"@
    ||| name == "memorize"@
    ||| name == "recall_memory"@
    ||| name == "update_memory"@
    ||| name == "forget_memory"@
}

/// Whether `name` is one of the agent tools.
pub open spec fn is_agent_tool(name: Seq<char>) -> bool {
    ||| name == "create_agent"@
    ||| name == "update_agent"@
    ||| name == "delete_agent"@
}

/// Why a file tool's arguments cannot be read, if they cannot.
pub open spec fn file_tool_error(name: Seq<char>, args: JsonValue) -> Option<Seq<char>> {
    let ok = if name == "open_file"@ || name == "close_file"@ {
        text_field(args, "path"@) is Some
    } else if name == "write_file"@ {
        text_field(args, "path"@) is Some && text_field(args, "content"@) is Some
    } else if name == "replace_lines"@ {
        text_field(args, "path"@) is Some && line_number(args, "start_line"@) is Some
            && line_number(args, "end_line"@) is Some && text_field(args, "new_content"@) is Some
    } else if name == "insert_lines"@ {
        text_field(args, "path"@) is Some && line_number(args, "after_line"@) is Some
            && text_field(args, "new_content"@) is Some
    } else {
        text_field(args, "path"@) is Some && line_number(args, "start_line"@) is Some
            && line_number(args, "end_line"@) is Some
    };
    if ok { None } else { Some(invalid_args(name)) }
}

/// Why a note or memory tool's arguments cannot be read, if they cannot.
pub open spec fn memory_tool_error(name: Seq<char>, args: JsonValue) -> Option<Seq<char>> {
    let ok = if name == "write_note"@ {
        text_field(args, "id"@) is Some && text_field(args, "content"@) is Some
    } else if name == "memorize"@ {
        memorize_decodes(args)
    } else if name == "update_memory"@ {
        update_memory_decodes(args)
    } else {
        text_field(args, "id"@) is Some
    };
    if ok { None } else { Some(invalid_args(name)) }
}

/// Why an agent tool call cannot be carried out, if it cannot.
pub open spec fn agent_tool_error(name: Seq<char>, args: JsonValue, active: Seq<char>) -> Option<Seq<char>> {
    if name == "create_agent"@ {
        if !create_agent_decodes(args) {
            Some(invalid_args(name))
        } else if agent_key(text_field(args, "name"@)->0) == "march"@ {
            Some("cannot create march via create_agent"@)
        } else {
            None
        }
    } else if name == "update_agent"@ {
        if !update_agent_decodes(args) {
            Some(invalid_args(name))
        } else if agent_key(text_field(args, "name"@)->0).len() == 0 {
            Some("agent name cannot be empty"@)
        } else {
            None
        }
    } else {
        if text_field(args, "name"@) is None {
            Some(invalid_args(name))
        } else if agent_key(text_field(args, "name"@)->0) == "march"@ {
            Some("cannot delete march"@)
        } else if agent_key(text_field(args, "name"@)->0) == active {
            Some("cannot delete the currently active agent "@ + agent_key(text_field(args, "name"@)->0))
        } else {
            None
        }
    }
}

/// Why a call of tool `name` with arguments `args` cannot be carried out, if
/// it cannot; `active` is the session's active agent and `raw` the arguments'
/// text.
pub open spec fn call_error(name: Seq<char>, args: JsonValue, active: Seq<char>, raw: Seq<char>) -> Option<
    Seq<char>,
> {
    if name == "run_command"@ {
        run_command_error(args, raw)
    } else if is_file_tool(name) {
        file_tool_error(name, args)
    } else if is_memory_tool(name) {
        memory_tool_error(name, args)
    } else if is_agent_tool(name) {
        agent_tool_error(name, args, active)
    } else {
        Some("unknown tool call: "@ + name)
    }
}

/// Whether `req` is what a call of tool `name` with arguments `args` asks for.
pub open spec fn call_fits(name: Seq<char>, args: JsonValue, raw: Seq<char>, req: ToolRequest) -> bool {
    match req {
        ToolRequest::RunCommand { shell, command, timeout_secs } => name == "run_command"@ && (
        match run_command_source(args, raw) {
            Ok(object) => text_field(object, "command"@) == Some(command@) && shell_from_name(
                text_field(object, "shell"@)->0,
            ) == Some(shell) && timeout_secs == requested_timeout(object),
            Err(_) => false,
        }),
        ToolRequest::OpenFile { path } => name == "open_file"@ && text_field(args, "path"@) == Some(
            path@,
        ),
        ToolRequest::CloseFile { path } => name == "close_file"@ && text_field(args, "path"@)
            == Some(path@),
        ToolRequest::WriteFile { path, content } => name == "write_file"@ && text_field(
            args,
            "path"@,
        ) == Some(path@) && text_field(args, "content"@) == Some(content@),
        ToolRequest::ReplaceLines { path, start_line, end_line, new_content } => name
            == "replace_lines"@ && text_field(args, "path"@) == Some(path@) && line_number(
            args,
            "start_line"@,
        ) == Some(start_line) && line_number(args, "end_line"@) == Some(end_line) && text_field(
            args,
            "new_content"@,
        ) == Some(new_content@),
        ToolRequest::InsertLines { path, after_line, new_content } => name == "insert_lines"@
            && text_field(args, "path"@) == Some(path@) && line_number(args, "after_line"@) == Some(
            after_line,
        ) && text_field(args, "new_content"@) == Some(new_content@),
        ToolRequest::DeleteLines { path, start_line, end_line } => name == "delete_lines"@
            && text_field(args, "path"@) == Some(path@) && line_number(args, "start_line"@) == Some(
            start_line,
        ) && line_number(args, "end_line"@) == Some(end_line),
        ToolRequest::WriteNote { id, content } => name == "write_note"@ && text_field(args, "id"@)
            == Some(id@) && text_field(args, "content"@) == Some(content@),
        ToolRequest::RemoveNote { id } => name == "remove_note"@ && text_field(args, "id"@) == Some(
            id@,
        ),
        ToolRequest::Memorize(a) => name == "memorize"@ && memorize_fits(args, a),
        ToolRequest::RecallMemory { id } => name == "recall_memory"@ && text_field(args, "id"@)
            == Some(id@),
        ToolRequest::UpdateMemory(a) => name == "update_memory"@ && update_memory_fits(args, a),
        ToolRequest::ForgetMemory { id } => name == "forget_memory"@ && text_field(args, "id"@)
            == Some(id@),
        ToolRequest::CreateAgent(a) => name == "create_agent"@ && create_agent_fits(args, a),
        ToolRequest::UpdateMarchPrompt { system_prompt } => name == "update_agent"@ && agent_key(
            text_field(args, "name"@)->0,
        ) == "march"@ && optional_text(args, "system_prompt"@) == Some(opt_text(system_prompt)),
        ToolRequest::UpdateAgent(a) => name == "update_agent"@ && agent_key(
            text_field(args, "name"@)->0,
        ) != "march"@ && a.name@ == agent_key(text_field(args, "name"@)->0)
            && update_agent_options_fit(args, a),
        ToolRequest::DeleteAgent { name: agent } => name == "delete_agent"@ && agent@ == agent_key(
            text_field(args, "name"@)->0,
        ),
    }
}


fn concat(a: &str, b: &str) -> (out: String)
    ensures
        out@ == a@ + b@,
{
    let mut out = to_owned(a);
    push_str(&mut out, b);
    out
}

fn invalid_args_message(name: &str) -> (out: String)
    ensures
        out@ == invalid_args(name@),
{
    let mut out = to_owned("invalid ");
    push_str(&mut out, name);
    push_str(&mut out, " args");
    out
}

/// An agent name as the tools compare it: trimmed, ASCII lower case.
pub fn agent_key_of(name: &str) -> (out: String)
    ensures
        out@ == agent_key(name@),
{
    let t = trim_str(name);
    to_ascii_lowercase(t.as_str())
}

fn decode_run_command(args: JsonValue, raw: &str) -> (out: Result<ToolRequest, String>)
    ensures
        match out {
            Ok(req) => run_command_error(args, raw@) is None && call_fits(
                "run_command"@,
                args,
                raw@,
                req,
            ),
            Err(e) => run_command_error(args, raw@) == Some(e@),
        },
{
    let ghost given = args;
    let parsed = match parse_run_command_args(args, raw) {
        Ok(a) => a,
        Err(e) => return Err(e),
    };
    let timeout_secs = match parsed.timeout_secs {
        Some(t) => t,
        None => DEFAULT_RUN_COMMAND_TIMEOUT_SECS,
    };
    if timeout_secs == 0 {
        return Err(to_owned(RUN_COMMAND_ZERO_TIMEOUT));
    }
    let shell = match parse_shell(parsed.shell.as_str()) {
        Ok(k) => k,
        Err(e) => return Err(e),
    };
    Ok(ToolRequest::RunCommand { shell, command: parsed.command, timeout_secs })
}

fn decode_file_tool(name: &str, args: &JsonValue, raw: &str) -> (out: Result<ToolRequest, String>)
    requires
        is_file_tool(name@),
    ensures
        match out {
            Ok(req) => file_tool_error(name@, *args) is None && call_fits(name@, *args, raw@, req),
            Err(e) => file_tool_error(name@, *args) == Some(e@),
        },
{
    let path = match decode_text(args, "path") {
        Some(p) => p,
        None => return Err(invalid_args_message(name)),
    };
    if str_eq(name, "open_file") {
        Ok(ToolRequest::OpenFile { path })
    } else if str_eq(name, "close_file") {
        Ok(ToolRequest::CloseFile { path })
    } else if str_eq(name, "write_file") {
        match decode_text(args, "content") {
            Some(content) => Ok(ToolRequest::WriteFile { path, content }),
            None => Err(invalid_args_message(name)),
        }
    } else if str_eq(name, "replace_lines") {
        let start_line = match decode_line_number(args, "start_line") {
            Some(n) => n,
            None => return Err(invalid_args_message(name)),
        };
        let end_line = match decode_line_number(args, "end_line") {
            Some(n) => n,
            None => return Err(invalid_args_message(name)),
        };
        match decode_text(args, "new_content") {
            Some(new_content) => Ok(ToolRequest::ReplaceLines { path, start_line, end_line, new_content }),
            None => Err(invalid_args_message(name)),
        }
    } else if str_eq(name, "insert_lines") {
        let after_line = match decode_line_number(args, "after_line") {
            Some(n) => n,
            None => return Err(invalid_args_message(name)),
        };
        match decode_text(args, "new_content") {
            Some(new_content) => Ok(ToolRequest::InsertLines { path, after_line, new_content }),
            None => Err(invalid_args_message(name)),
        }
    } else {
        let start_line = match decode_line_number(args, "start_line") {
            Some(n) => n,
            None => return Err(invalid_args_message(name)),
        };
        match decode_line_number(args, "end_line") {
            Some(end_line) => Ok(ToolRequest::DeleteLines { path, start_line, end_line }),
            None => Err(invalid_args_message(name)),
        }
    }
}

fn decode_memory_tool(name: &str, args: &JsonValue, raw: &str) -> (out: Result<ToolRequest, String>)
    requires
        is_memory_tool(name@),
    ensures
        match out {
            Ok(req) => memory_tool_error(name@, *args) is None && call_fits(name@, *args, raw@, req),
            Err(e) => memory_tool_error(name@, *args) == Some(e@),
        },
{
    if str_eq(name, "write_note") {
        let id = match decode_text(args, "id") {
            Some(t) => t,
            None => return Err(invalid_args_message(name)),
        };
        match decode_text(args, "content") {
            Some(content) => Ok(ToolRequest::WriteNote { id, content }),
            None => Err(invalid_args_message(name)),
        }
    } else if str_eq(name, "memorize") {
        match MemorizeArgs::from_json(args) {
            Some(a) => Ok(ToolRequest::Memorize(a)),
            None => Err(invalid_args_message(name)),
        }
    } else if str_eq(name, "update_memory") {
        match UpdateMemoryArgs::from_json(args) {
            Some(a) => Ok(ToolRequest::UpdateMemory(a)),
            None => Err(invalid_args_message(name)),
        }
    } else {
        let id = match decode_text(args, "id") {
            Some(t) => t,
            None => return Err(invalid_args_message(name)),
        };
        if str_eq(name, "remove_note") {
            Ok(ToolRequest::RemoveNote { id })
        } else if str_eq(name, "recall_memory") {
            Ok(ToolRequest::RecallMemory { id })
        } else {
            Ok(ToolRequest::ForgetMemory { id })
        }
    }
}

fn decode_agent_tool(name: &str, args: &JsonValue, active_agent: &str, raw: &str) -> (out: Result<
    ToolRequest,
    String,
>)
    requires
        is_agent_tool(name@),
    ensures
        match out {
            Ok(req) => agent_tool_error(name@, *args, active_agent@) is None && call_fits(
                name@,
                *args,
                raw@,
                req,
            ),
            Err(e) => agent_tool_error(name@, *args, active_agent@) == Some(e@),
        },
{
    if str_eq(name, "create_agent") {
        let a = match CreateAgentArgs::from_json(args) {
            Some(a) => a,
            None => return Err(invalid_args_message(name)),
        };
        let key = agent_key_of(a.name.as_str());
        if str_eq(key.as_str(), "march") {
            Err(to_owned("cannot create march via create_agent"))
        } else {
            Ok(ToolRequest::CreateAgent(a))
        }
    } else if str_eq(name, "update_agent") {
        let a = match UpdateAgentArgs::from_json(args) {
            Some(a) => a,
            None => return Err(invalid_args_message(name)),
        };
        let key = agent_key_of(a.name.as_str());
        if key.as_str().is_empty() {
            Err(to_owned("agent name cannot be empty"))
        } else if str_eq(key.as_str(), "march") {
            Ok(ToolRequest::UpdateMarchPrompt { system_prompt: a.system_prompt })
        } else {
            Ok(
                ToolRequest::UpdateAgent(
                    UpdateAgentArgs {
                        name: key,
                        display_name: a.display_name,
                        description: a.description,
                        system_prompt: a.system_prompt,
                        avatar_color: a.avatar_color,
                        provider_id: a.provider_id,
                        model: a.model,
                        clear_model_binding: a.clear_model_binding,
                    },
                ),
            )
        }
    } else {
        let given = match decode_text(args, "name") {
            Some(t) => t,
            None => return Err(invalid_args_message(name)),
        };
        let key = agent_key_of(given.as_str());
        if str_eq(key.as_str(), "march") {
            Err(to_owned("cannot delete march"))
        } else if str_eq(key.as_str(), active_agent) {
            Err(concat("cannot delete the currently active agent ", key.as_str()))
        } else {
            Ok(ToolRequest::DeleteAgent { name: key })
        }
    }
}

fn is_file_tool_name(name: &str) -> (out: bool)
    ensures
        out == is_file_tool(name@),
{
    str_eq(name, "open_file") || str_eq(name, "close_file") || str_eq(name, "write_file")
        || str_eq(name, "replace_lines") || str_eq(name, "insert_lines") || str_eq(
        name,
        "delete_lines",
    )
}

fn is_memory_tool_name(name: &str) -> (out: bool)
    ensures
        out == is_memory_tool(name@),
{
    str_eq(name, "write_note") || str_eq(name, "remove_note") || str_eq(name, "memorize")
        || str_eq(name, "recall_memory") || str_eq(name, "update_memory") || str_eq(
        name,
        "forget_memory",
    )
}

fn is_agent_tool_name(name: &str) -> (out: bool)
    ensures
        out == is_agent_tool(name@),
{
    str_eq(name, "create_agent") || str_eq(name, "update_agent") || str_eq(name, "delete_agent")
}

/// Decodes a call of tool `name` whose arguments are the JSON value `args`;
/// `raw` is the arguments' text and `active_agent` the session's active agent.
pub fn decode_tool_call(name: &str, args: JsonValue, raw: &str, active_agent: &str) -> (out: Result<
    ToolRequest,
    String,
>)
    ensures
        match out {
            Ok(req) => call_error(name@, args, active_agent@, raw@) is None && call_fits(
                name@,
                args,
                raw@,
                req,
            ),
            Err(e) => call_error(name@, args, active_agent@, raw@) == Some(e@),
        },
{
    if str_eq(name, "run_command") {
        decode_run_command(args, raw)
    } else if is_file_tool_name(name) {
        decode_file_tool(name, &args, raw)
    } else if is_memory_tool_name(name) {
        decode_memory_tool(name, &args, raw)
    } else if is_agent_tool_name(name) {
        decode_agent_tool(name, &args, active_agent, raw)
    } else {
        Err(concat("unknown tool call: ", name))
    }
}

/// The message for arguments that are not JSON.
pub open spec fn undecodable_arguments(name: Seq<char>, raw: Seq<char>) -> Seq<char> {
    "failed to decode arguments for tool "@ + name + ": "@ + raw
}

/// Decodes a tool call the model made: its name and the text of its
/// arguments, for a session whose active agent is `active_agent`.
pub fn parse_tool_request(name: &str, arguments_json: &str, active_agent: &str) -> (out: Result<
    ToolRequest,
    String,
>)
    ensures
        match parsed_json(arguments_json@) {
            None => out is Err && out->Err_0@ == undecodable_arguments(name@, arguments_json@),
            Some(args) => match out {
                Ok(req) => call_error(name@, args, active_agent@, arguments_json@) is None
                    && call_fits(name@, args, arguments_json@, req),
                Err(e) => call_error(name@, args, active_agent@, arguments_json@) == Some(e@),
            },
        },
{
    match parse_json(arguments_json) {
        Some(args) => decode_tool_call(name, args, arguments_json, active_agent),
        None => {
            let mut out = to_owned("failed to decode arguments for tool ");
            push_str(&mut out, name);
            push_str(&mut out, ": ");
            push_str(&mut out, arguments_json);
            Err(out)
        },
    }
}


/// The text of a string member, or `default` where there is none.
pub open spec fn text_or(args: JsonValue, key: Seq<char>, default: Seq<char>) -> Seq<char> {
    match text_field(args, key) {
        Some(t) => t,
        None => default,
    }
}

/// The value of an unsigned member, or 0 where there is none.
pub open spec fn uint_or_zero(args: JsonValue, key: Seq<char>) -> u64 {
    match as_uint(field(args, key)) {
        Some(n) => n,
        None => 0,
    }
}

/// `name`, followed by a space and `detail` where `detail` is not empty.
pub open spec fn name_with(name: Seq<char>, detail: Seq<char>) -> Seq<char> {
    if detail.len() == 0 {
        name
    } else {
        name + " "@ + detail
    }
}

/// The one-line summary of a tool call shown while it runs.
pub open spec fn call_summary(name: Seq<char>, args: JsonValue) -> Seq<char> {
    if name == "run_command"@ {
        let shell = text_or(args, "shell"@, "shell"@);
        let command = text_or(args, "command"@, Seq::empty());
        if command.len() == 0 {
            "run_command"@
        } else {
            match as_uint(field(args, "timeout_secs"@)) {
                Some(t) => "run_command "@ + shell + " "@ + command + " (timeout "@ + decimal(
                    t as nat,
                ) + "s)"@,
                None => "run_command "@ + shell + " "@ + command,
            }
        }
    } else if name == "open_file"@ || name == "close_file"@ || name == "write_file"@ {
        name_with(name, text_or(args, "path"@, Seq::empty()))
    } else if name == "replace_lines"@ || name == "delete_lines"@ {
        let path = text_or(args, "path"@, Seq::empty());
        let start = uint_or_zero(args, "start_line"@);
        let end = uint_or_zero(args, "end_line"@);
        if path.len() == 0 || start == 0 || end == 0 {
            name
        } else {
            name + " "@ + path + ":"@ + decimal(start as nat) + "-"@ + decimal(end as nat)
        }
    } else if name == "insert_lines"@ {
        let path = text_or(args, "path"@, Seq::empty());
        let after = uint_or_zero(args, "after_line"@);
        if path.len() == 0 || after == 0 {
            name
        } else {
            name + " "@ + path + ":"@ + decimal(after as nat)
        }
    } else if is_memory_tool(name) {
        name_with(name, text_or(args, "id"@, Seq::empty()))
    } else if is_agent_tool(name) {
        name_with(name, text_or(args, "name"@, Seq::empty()))
    } else {
        name
    }
}

fn text_or_default(args: &JsonValue, key: &str, default: &str) -> (out: String)
    ensures
        out@ == text_or(*args, key@, default@),
{
    match text_of(get_field(args, key)) {
        Some(t) => to_owned(t),
        None => to_owned(default),
    }
}

fn named_detail(name: &str, detail: &str) -> (out: String)
    ensures
        out@ == name_with(name@, detail@),
{
    let mut out = to_owned(name);
    if !detail.is_empty() {
        push_str(&mut out, " ");
        push_str(&mut out, detail);
    }
    out
}

/// The summary of a call of tool `name` whose arguments are `args`.
pub fn summarize_tool_arguments(name: &str, args: &JsonValue) -> (out: String)
    ensures
        out@ == call_summary(name@, *args),
{
    proof {
        reveal_strlit("");
    }
    if str_eq(name, "run_command") {
        let shell = text_or_default(args, "shell", "shell");
        let command = text_or_default(args, "command", "");
        if command.as_str().is_empty() {
            return to_owned("run_command");
        }
        let mut out = to_owned("run_command ");
        push_str(&mut out, shell.as_str());
        push_str(&mut out, " ");
        push_str(&mut out, command.as_str());
        match uint_of(get_field(args, "timeout_secs")) {
            Some(t) => {
                push_str(&mut out, " (timeout ");
                let n = crate::text::u64_to_string(t);
                push_str(&mut out, n.as_str());
                push_str(&mut out, "s)");
            },
            None => {},
        }
        out
    } else if str_eq(name, "open_file") || str_eq(name, "close_file") || str_eq(name, "write_file") {
        let path = text_or_default(args, "path", "");
        named_detail(name, path.as_str())
    } else if str_eq(name, "replace_lines") || str_eq(name, "delete_lines") {
        let path = text_or_default(args, "path", "");
        let start = match uint_of(get_field(args, "start_line")) {
            Some(n) => n,
            None => 0,
        };
        let end = match uint_of(get_field(args, "end_line")) {
            Some(n) => n,
            None => 0,
        };
        if path.as_str().is_empty() || start == 0 || end == 0 {
            return to_owned(name);
        }
        let mut out = to_owned(name);
        push_str(&mut out, " ");
        push_str(&mut out, path.as_str());
        push_str(&mut out, ":");
        let a = crate::text::u64_to_string(start);
        push_str(&mut out, a.as_str());
        push_str(&mut out, "-");
        let b = crate::text::u64_to_string(end);
        push_str(&mut out, b.as_str());
        out
    } else if str_eq(name, "insert_lines") {
        let path = text_or_default(args, "path", "");
        let after = match uint_of(get_field(args, "after_line")) {
            Some(n) => n,
            None => 0,
        };
        if path.as_str().is_empty() || after == 0 {
            return to_owned(name);
        }
        let mut out = to_owned(name);
        push_str(&mut out, " ");
        push_str(&mut out, path.as_str());
        push_str(&mut out, ":");
        let a = crate::text::u64_to_string(after);
        push_str(&mut out, a.as_str());
        out
    } else if is_memory_tool_name(name) {
        let id = text_or_default(args, "id", "");
        named_detail(name, id.as_str())
    } else if is_agent_tool_name(name) {
        let agent = text_or_default(args, "name", "");
        named_detail(name, agent.as_str())
    } else {
        to_owned(name)
    }
}

/// The summary of a tool call the model made, from its name and the text of
/// its arguments; arguments that are not JSON read as `null`.
pub fn summarize_tool_call(name: &str, arguments_json: &str) -> (out: String)
    ensures
        out@ == call_summary(
            name@,
            match parsed_json(arguments_json@) {
                Some(v) => v,
                None => JsonValue::Null,
            },
        ),
{
    let args = match parse_json(arguments_json) {
        Some(v) => v,
        None => JsonValue::Null,
    };
    summarize_tool_arguments(name, &args)
}

} // verus!
