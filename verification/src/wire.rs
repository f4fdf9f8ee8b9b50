use vstd::prelude::*;

use crate::json::{
    as_items, as_text, as_uint, deref_opt, field, get_field, items_of, json_text, json_view, parse_json,
    Json,
    parsed_json, text_field, text_of, uint_of, write_json, JsonValue,
};
use crate::provider::{WireKind, WireResponse, WireStreamDelta, WireToolCall};
use crate::text::{
    char_is_ws, chars_of, decimal, push_str, str_eq, to_owned, trim, trim_chars, trim_str,
    u64_to_string,
};

verus! {

broadcast use vstd::string::group_string_axioms;

/// The plain value of a streamed piece.
pub enum DeltaView {
    Content(Seq<char>),
    ToolCall { index: usize, id: Option<Seq<char>>, name: Option<Seq<char>>, arguments: Seq<char> },
    Done,
}

pub open spec fn opt_seq(s: Option<String>) -> Option<Seq<char>> {
    match s {
        Some(t) => Some(t@),
        None => None,
    }
}

pub open spec fn delta_view(d: WireStreamDelta) -> DeltaView {
    match d {
        WireStreamDelta::ContentDelta(t) => DeltaView::Content(t@),
        WireStreamDelta::ToolCallDelta { index, id, name, arguments_fragment } => DeltaView::ToolCall {
            index,
            id: opt_seq(id),
            name: opt_seq(name),
            arguments: arguments_fragment@,
        },
        WireStreamDelta::Done => DeltaView::Done,
    }
}

pub open spec fn deltas_view(ds: Seq<WireStreamDelta>) -> Seq<DeltaView> {
    ds.map_values(|d: WireStreamDelta| delta_view(d))
}

/// The plain value of a tool call: its id, name and arguments text.
pub open spec fn call_view(c: WireToolCall) -> (Seq<char>, Seq<char>, Seq<char>) {
    (c.id@, c.name@, c.arguments_json@)
}

pub open spec fn calls_view(cs: Seq<WireToolCall>) -> Seq<(Seq<char>, Seq<char>, Seq<char>)> {
    cs.map_values(|c: WireToolCall| call_view(c))
}

/// The member `key` of an optional value.
pub open spec fn field_of(v: Option<JsonValue>, key: Seq<char>) -> Option<JsonValue> {
    match v {
        Some(x) => field(x, key),
        None => None,
    }
}

/// The first item of an array value.
pub open spec fn first_item(v: Option<JsonValue>) -> Option<JsonValue> {
    match as_items(v) {
        Some(items) => if items.len() > 0 {
            Some(items[0])
        } else {
            None
        },
        None => None,
    }
}

/// A position read from a member: a non-negative integer that fits `usize`,
/// else 0.
pub open spec fn index_or_zero(v: Option<JsonValue>) -> usize {
    match as_uint(v) {
        Some(n) => if n <= usize::MAX {
            n as usize
        } else {
            0
        },
        None => 0,
    }
}

/// The text of a string value, or the empty text.
pub open spec fn text_or_empty(v: Option<JsonValue>) -> Seq<char> {
    match as_text(v) {
        Some(t) => t,
        None => Seq::empty(),
    }
}

/// The text of a string value, or `{}`.
pub open spec fn text_or_braces(v: Option<JsonValue>) -> Seq<char> {
    match as_text(v) {
        Some(t) => t,
        None => "{}"@,
    }
}

/// A content piece for a non-empty text; nothing for an empty one.
pub open spec fn content_piece(t: Option<Seq<char>>) -> Seq<DeltaView> {
    match t {
        Some(s) => if s.len() > 0 {
            seq![DeltaView::Content(s)]
        } else {
            Seq::empty()
        },
        None => Seq::empty(),
    }
}

/// A text, where it is not blank.
pub open spec fn filled(t: Seq<char>) -> Option<Seq<char>> {
    if trim(t).len() > 0 {
        Some(t)
    } else {
        None
    }
}

fn field_in<'a>(v: Option<&'a JsonValue>, key: &str) -> (out: Option<&'a JsonValue>)
    ensures
        deref_opt(out) == field_of(deref_opt(v), key@),
{
    match v {
        Some(x) => get_field(x, key),
        None => None,
    }
}

fn first_in<'a>(v: Option<&'a JsonValue>) -> (out: Option<&'a JsonValue>)
    ensures
        deref_opt(out) == first_item(deref_opt(v)),
{
    match items_of(v) {
        Some(items) => if items.len() > 0 {
            Some(&items[0])
        } else {
            None
        },
        None => None,
    }
}

fn index_in(v: Option<&JsonValue>) -> (out: usize)
    ensures
        out == index_or_zero(deref_opt(v)),
{
    match uint_of(v) {
        Some(n) => if n <= usize::MAX as u64 {
            n as usize
        } else {
            0
        },
        None => 0,
    }
}

fn text_in(v: Option<&JsonValue>) -> (out: String)
    ensures
        out@ == text_or_empty(deref_opt(v)),
{
    proof {
        reveal_strlit("");
    }
    match text_of(v) {
        Some(t) => to_owned(t),
        None => to_owned(""),
    }
}

fn owned_text(v: Option<&JsonValue>) -> (out: Option<String>)
    ensures
        opt_seq(out) == as_text(deref_opt(v)),
{
    match text_of(v) {
        Some(t) => Some(to_owned(t)),
        None => None,
    }
}

fn is_blank(s: &str) -> (out: bool)
    ensures
        out == (trim(s@).len() == 0),
{
    let chars = chars_of(s);
    let t = trim_chars(chars.as_slice());
    t.len() == 0
}

fn push_content(events: &mut Vec<WireStreamDelta>, t: Option<&str>)
    ensures
        deltas_view(final(events)@) == deltas_view(old(events)@) + content_piece(
            crate::json::str_view(t),
        ),
{
    let ghost before = deltas_view(events@);
    match t {
        Some(s) => if !s.is_empty() {
            events.push(WireStreamDelta::ContentDelta(to_owned(s)));
            assert(deltas_view(events@) =~= before + content_piece(crate::json::str_view(t)));
        } else {
            assert(deltas_view(events@) =~= before + content_piece(crate::json::str_view(t)));
        },
        None => {
            assert(deltas_view(events@) =~= before + content_piece(crate::json::str_view(t)));
        },
    }
}

// ---------------------------------------------------------------------------
// OpenAI-compatible chat completions

/// The streamed piece of one entry of a chat delta's `tool_calls`.
pub open spec fn chat_tool_call_piece(tc: JsonValue) -> DeltaView {
    DeltaView::ToolCall {
        index: index_or_zero(field(tc, "index"@)),
        id: text_field(tc, "id"@),
        name: as_text(field_of(field(tc, "function"@), "name"@)),
        arguments: text_or_empty(field_of(field(tc, "function"@), "arguments"@)),
    }
}

/// The pieces of a chat stream chunk's first choice's delta.
pub open spec fn chat_delta_pieces(delta: JsonValue) -> Seq<DeltaView> {
    content_piece(text_field(delta, "content"@)) + match as_items(field(delta, "tool_calls"@)) {
        Some(items) => Seq::new(items.len(), |i: int| chat_tool_call_piece(items[i])),
        None => Seq::empty(),
    }
}

/// What a stream event says once its payload is read.
pub open spec fn chat_payload_pieces(body: JsonValue) -> Result<Seq<DeltaView>, Seq<char>> {
    match field_of(first_item(field(body, "choices"@)), "delta"@) {
                Some(delta) => Ok(chat_delta_pieces(delta)),
                None => Ok(Seq::empty()),
            }
}

/// What a chat completions stream chunk gives, or why it cannot be read.
pub open spec fn chat_chunk_pieces(data: Seq<char>) -> Result<Seq<DeltaView>, Seq<char>> {
    if trim(data) == "[DONE]"@ {
        Ok(seq![DeltaView::Done])
    } else {
        match parsed_json(data) {
            None => Err("failed to decode OpenAI-compatible stream event"@),
            Some(body) => chat_payload_pieces(body),
        }
    }
}

fn chat_delta_events(delta: &JsonValue) -> (out: Vec<WireStreamDelta>)
    ensures
        deltas_view(out@) == chat_delta_pieces(*delta),
{
    let mut events: Vec<WireStreamDelta> = Vec::new();
    push_content(&mut events, text_of(get_field(delta, "content")));
    let ghost head = deltas_view(events@);
    match items_of(get_field(delta, "tool_calls")) {
        Some(items) => {
            let ghost want = Seq::new(items@.len(), |i: int| chat_tool_call_piece(items@[i]));
            let mut i: usize = 0;
            while i < items.len()
                invariant
                    i <= items.len(),
                    want == Seq::new(items@.len(), |i: int| chat_tool_call_piece(items@[i])),
                    deltas_view(events@) == head + want.take(i as int),
                decreases items.len() - i,
            {
                let tc = &items[i];
                let function = get_field(tc, "function");
                let d = WireStreamDelta::ToolCallDelta {
                    index: index_in(get_field(tc, "index")),
                    id: owned_text(get_field(tc, "id")),
                    name: owned_text(field_in(function, "name")),
                    arguments_fragment: text_in(field_in(function, "arguments")),
                };
                let ghost prev = deltas_view(events@);
                proof {
                    assert(delta_view(d) == want[i as int]);
                }
                events.push(d);
                assert(deltas_view(events@) =~= prev.push(want[i as int]));
                assert(want.take(i + 1) =~= want.take(i as int).push(want[i as int]));
                i += 1;
            }
            assert(want.take(items.len() as int) =~= want);
        },
        None => {
            assert(head + Seq::<DeltaView>::empty() =~= head);
        },
    }
    events
}

/// Reads a stream event from its parsed payload.
pub fn chat_stream_chunk_from_json(body: &JsonValue) -> (out: Result<Vec<WireStreamDelta>, String>)
    ensures
        match chat_payload_pieces(*body) {
            Ok(pieces) => out is Ok && deltas_view(out->Ok_0@) == pieces,
            Err(message) => out is Err && out->Err_0@ == message,
        },
{
    match field_in(first_in(get_field(body, "choices")), "delta") {
        Some(delta) => Ok(chat_delta_events(delta)),
        None => {
            let v: Vec<WireStreamDelta> = Vec::new();
            assert(deltas_view(v@) =~= Seq::<DeltaView>::empty());
            Ok(v)
        },
    }
}

/// Reads a chat completions stream chunk.
pub fn parse_chat_stream_chunk(data: &str) -> (out: Result<Vec<WireStreamDelta>, String>)
    ensures
        match chat_chunk_pieces(data@) {
            Ok(pieces) => out is Ok && deltas_view(out->Ok_0@) == pieces,
            Err(message) => out is Err && out->Err_0@ == message,
        },
{
    let t = trim_str(data);
    if str_eq(t.as_str(), "[DONE]") {
        let mut v: Vec<WireStreamDelta> = Vec::new();
        v.push(WireStreamDelta::Done);
        assert(deltas_view(v@) =~= seq![DeltaView::Done]);
        return Ok(v);
    }
    let body = match parse_json(data) {
        Some(b) => b,
        None => return Err(to_owned("failed to decode OpenAI-compatible stream event")),
    };
    chat_stream_chunk_from_json(&body)
}


/// The plain value of a whole reply: its text, where not blank, and its tool
/// calls.
pub open spec fn response_view(r: WireResponse) -> (Option<Seq<char>>, Seq<(Seq<char>, Seq<char>, Seq<char>)>) {
    (opt_seq(r.content), calls_view(r.tool_calls@))
}

/// The texts of the parts that carry one, joined.
pub open spec fn part_texts(parts: Seq<JsonValue>) -> Seq<char>
    decreases parts.len(),
{
    if parts.len() == 0 {
        Seq::empty()
    } else {
        part_texts(parts.drop_last()) + text_or_empty(field(parts.last(), "text"@))
    }
}

/// The text of a chat message's `content`: a string, or the texts of an array
/// of parts; nothing where it is blank.
pub open spec fn message_content(value: Option<JsonValue>) -> Option<Seq<char>> {
    match value {
        Some(JsonValue::Str(t)) => filled(t@),
        Some(JsonValue::Array(parts)) => filled(part_texts(parts@)),
        _ => None,
    }
}

/// The text of a chat message: its content, else its reasoning text trimmed.
pub open spec fn message_text(message: JsonValue) -> Option<Seq<char>> {
    match message_content(field(message, "content"@)) {
        Some(t) => Some(t),
        None => match text_field(message, "reasoning_content"@) {
            Some(r) => if trim(r).len() > 0 {
                Some(trim(r))
            } else {
                None
            },
            None => None,
        },
    }
}

/// One entry of a chat message's `tool_calls`.
pub open spec fn chat_tool_call(tc: JsonValue) -> Result<(Seq<char>, Seq<char>, Seq<char>), Seq<char>> {
    match text_field(tc, "id"@) {
        None => Err("OpenAI tool call missing id"@),
        Some(id) => match field(tc, "function"@) {
            None => Err("OpenAI tool call missing function"@),
            Some(f) => match text_field(f, "name"@) {
                None => Err("OpenAI tool call missing function name"@),
                Some(name) => Ok((id, name, text_or_braces(field(f, "arguments"@)))),
            },
        },
    }
}

/// The tool calls of the entries, or the first entry's error.
pub open spec fn chat_tool_calls(items: Seq<JsonValue>) -> Result<Seq<(Seq<char>, Seq<char>, Seq<char>)>, Seq<char>>
    decreases items.len(),
{
    if items.len() == 0 {
        Ok(Seq::empty())
    } else {
        match chat_tool_calls(items.drop_last()) {
            Err(e) => Err(e),
            Ok(calls) => match chat_tool_call(items.last()) {
                Err(e) => Err(e),
                Ok(c) => Ok(calls.push(c)),
            },
        }
    }
}

/// The items of an array value, none for anything else.
pub open spec fn items_or_none(v: Option<JsonValue>) -> Seq<JsonValue> {
    match as_items(v) {
        Some(items) => items,
        None => Seq::empty(),
    }
}

proof fn lemma_chat_calls_error_stays(items: Seq<JsonValue>, i: int, e: Seq<char>)
    requires
        0 <= i <= items.len(),
        chat_tool_calls(items.take(i)) == Err::<Seq<(Seq<char>, Seq<char>, Seq<char>)>, Seq<char>>(e),
    ensures
        chat_tool_calls(items) == Err::<Seq<(Seq<char>, Seq<char>, Seq<char>)>, Seq<char>>(e),
    decreases items.len() - i,
{
    if i < items.len() {
        assert(items.take(i + 1).drop_last() =~= items.take(i));
        lemma_chat_calls_error_stays(items, i + 1, e);
    } else {
        assert(items.take(i) =~= items);
    }
}

fn text_or_braces_in(v: Option<&JsonValue>) -> (out: String)
    ensures
        out@ == text_or_braces(deref_opt(v)),
{
    match text_of(v) {
        Some(t) => to_owned(t),
        None => to_owned("{}"),
    }
}

/// Reads the tool calls of a chat message (its `tool_calls` member).
pub fn parse_openai_tool_calls(value: Option<&JsonValue>) -> (out: Result<Vec<WireToolCall>, String>)
    ensures
        match chat_tool_calls(items_or_none(deref_opt(value))) {
            Ok(calls) => out is Ok && calls_view(out->Ok_0@) == calls,
            Err(e) => out is Err && out->Err_0@ == e,
        },
{
    let mut out: Vec<WireToolCall> = Vec::new();
    let items = match items_of(value) {
        Some(items) => items,
        None => {
            assert(calls_view(out@) =~= Seq::<(Seq<char>, Seq<char>, Seq<char>)>::empty());
            return Ok(out);
        },
    };
    let ghost all = items@;
    let mut i: usize = 0;
    assert(all.take(0) =~= Seq::<JsonValue>::empty());
    assert(calls_view(out@) =~= Seq::<(Seq<char>, Seq<char>, Seq<char>)>::empty());
    while i < items.len()
        invariant
            i <= items.len(),
            all == items@,
            all == items_or_none(deref_opt(value)),
            chat_tool_calls(all.take(i as int)) == Ok::<Seq<(Seq<char>, Seq<char>, Seq<char>)>, Seq<char>>(calls_view(out@)),
        decreases items.len() - i,
    {
        assert(all.take(i + 1).drop_last() =~= all.take(i as int));
        assert(all.take(i + 1).last() == all[i as int]);
        let tc = &items[i];
        let id = match text_of(get_field(tc, "id")) {
            Some(t) => to_owned(t),
            None => {
                proof { lemma_chat_calls_error_stays(all, i + 1, "OpenAI tool call missing id"@); }
                return Err(to_owned("OpenAI tool call missing id"));
            },
        };
        let function = match get_field(tc, "function") {
            Some(f) => f,
            None => {
                proof { lemma_chat_calls_error_stays(all, i + 1, "OpenAI tool call missing function"@); }
                return Err(to_owned("OpenAI tool call missing function"));
            },
        };
        let name = match text_of(get_field(function, "name")) {
            Some(t) => to_owned(t),
            None => {
                proof {
                    lemma_chat_calls_error_stays(all, i + 1, "OpenAI tool call missing function name"@);
                }
                return Err(to_owned("OpenAI tool call missing function name"));
            },
        };
        let arguments_json = text_or_braces_in(get_field(function, "arguments"));
        let call = WireToolCall { id, name, arguments_json };
        let ghost prev = calls_view(out@);
        out.push(call);
        assert(calls_view(out@) =~= prev.push(call_view(call)));
        i += 1;
    }
    assert(all.take(items.len() as int) =~= all);
    Ok(out)
}

fn openai_message_content(value: Option<&JsonValue>) -> (out: Option<String>)
    ensures
        opt_seq(out) == message_content(deref_opt(value)),
{
    match value {
        Some(JsonValue::Str(t)) => if is_blank(t.as_str()) {
            None
        } else {
            Some(to_owned(t.as_str()))
        },
        Some(JsonValue::Array(parts)) => {
            let mut joined = String::new();
            let mut i: usize = 0;
            while i < parts.len()
                invariant
                    i <= parts.len(),
                    joined@ == part_texts(parts@.take(i as int)),
                decreases parts.len() - i,
            {
                assert(parts@.take(i + 1).drop_last() =~= parts@.take(i as int));
                assert(parts@.take(i + 1).last() == parts@[i as int]);
                match text_of(get_field(&parts[i], "text")) {
                    Some(t) => push_str(&mut joined, t),
                    None => {
                        assert(joined@ + Seq::<char>::empty() =~= joined@);
                    },
                }
                i += 1;
            }
            assert(parts@.take(parts.len() as int) =~= parts@);
            if is_blank(joined.as_str()) {
                None
            } else {
                Some(joined)
            }
        },
        _ => None,
    }
}

/// The text of a chat message.
pub fn openai_message_text(message: &JsonValue) -> (out: Option<String>)
    ensures
        opt_seq(out) == message_text(*message),
{
    match openai_message_content(get_field(message, "content")) {
        Some(t) => Some(t),
        None => match text_of(get_field(message, "reasoning_content")) {
            Some(r) => {
                let t = trim_str(r);
                if t.as_str().is_empty() {
                    None
                } else {
                    Some(t)
                }
            },
            None => None,
        },
    }
}


// ---------------------------------------------------------------------------
// OpenAI Responses

/// The `call_id` member of an item, else its `id`.
pub open spec fn call_id_or_id(item: JsonValue) -> Option<JsonValue> {
    match field(item, "call_id"@) {
        Some(x) => Some(x),
        None => field(item, "id"@),
    }
}

/// The `output_text` texts of a message item's content parts.
pub open spec fn output_texts(parts: Seq<JsonValue>) -> Seq<char>
    decreases parts.len(),
{
    if parts.len() == 0 {
        Seq::empty()
    } else {
        output_texts(parts.drop_last()) + if text_field(parts.last(), "type"@) == Some("output_text"@) {
            text_or_empty(field(parts.last(), "text"@))
        } else {
            Seq::empty()
        }
    }
}

/// A `function_call` output item as a tool call.
pub open spec fn responses_call(item: JsonValue) -> Result<(Seq<char>, Seq<char>, Seq<char>), Seq<char>> {
    match as_text(call_id_or_id(item)) {
        None => Err("OpenAI Responses function_call missing call_id"@),
        Some(id) => match text_field(item, "name"@) {
            None => Err("OpenAI Responses function_call missing name"@),
            Some(name) => Ok((id, name, text_or_braces(field(item, "arguments"@)))),
        },
    }
}

/// The text and tool calls of the output items, or the first item's error.
pub open spec fn responses_output(items: Seq<JsonValue>) -> Result<(Seq<char>, Seq<(Seq<char>, Seq<char>, Seq<char>)>), Seq<char>>
    decreases items.len(),
{
    if items.len() == 0 {
        Ok((Seq::empty(), Seq::empty()))
    } else {
        match responses_output(items.drop_last()) {
            Err(e) => Err(e),
            Ok((text, calls)) => {
                let item = items.last();
                let kind = text_or_empty(field(item, "type"@));
                if kind == "message"@ {
                    Ok((text + output_texts(items_or_none(field(item, "content"@))), calls))
                } else if kind == "function_call"@ {
                    match responses_call(item) {
                        Err(e) => Err(e),
                        Ok(c) => Ok((text, calls.push(c))),
                    }
                } else {
                    Ok((text, calls))
                }
            },
        }
    }
}

/// What a Responses API reply gives, or why it cannot be read.
pub open spec fn responses_reply(body: JsonValue) -> Result<(Option<Seq<char>>, Seq<(Seq<char>, Seq<char>, Seq<char>)>), Seq<char>> {
    match as_items(field(body, "output"@)) {
        None => Err("OpenAI Responses response missing output"@),
        Some(items) => match responses_output(items) {
            Err(e) => Err(e),
            Ok((text, calls)) => Ok((filled(text), calls)),
        },
    }
}

proof fn lemma_responses_error_stays(items: Seq<JsonValue>, i: int, e: Seq<char>)
    requires
        0 <= i <= items.len(),
        responses_output(items.take(i)) is Err,
        responses_output(items.take(i))->Err_0 == e,
    ensures
        responses_output(items) is Err,
        responses_output(items)->Err_0 == e,
    decreases items.len() - i,
{
    if i < items.len() {
        assert(items.take(i + 1).drop_last() =~= items.take(i));
        lemma_responses_error_stays(items, i + 1, e);
    } else {
        assert(items.take(i) =~= items);
    }
}

fn push_output_texts(text: &mut String, parts: Option<&Vec<JsonValue>>)
    ensures
        final(text)@ == old(text)@ + output_texts(
            match parts {
                Some(p) => p@,
                None => Seq::empty(),
            },
        ),
{
    let ghost start = text@;
    match parts {
        Some(parts) => {
            let mut i: usize = 0;
            assert(parts@.take(0) =~= Seq::<JsonValue>::empty());
            assert(text@ =~= start + output_texts(parts@.take(0)));
            while i < parts.len()
                invariant
                    i <= parts.len(),
                    text@ == start + output_texts(parts@.take(i as int)),
                decreases parts.len() - i,
            {
                assert(parts@.take(i + 1).drop_last() =~= parts@.take(i as int));
                assert(parts@.take(i + 1).last() == parts@[i as int]);
                let part = &parts[i];
                let is_output = match text_of(get_field(part, "type")) {
                    Some(t) => str_eq(t, "output_text"),
                    None => false,
                };
                if is_output {
                    match text_of(get_field(part, "text")) {
                        Some(t) => push_str(text, t),
                        None => {},
                    }
                }
                assert(text@ =~= start + output_texts(parts@.take(i + 1)));
                i += 1;
            }
            assert(parts@.take(parts.len() as int) =~= parts@);
        },
        None => {
            assert(text@ =~= start + output_texts(Seq::<JsonValue>::empty()));
        },
    }
}

/// Reads a reply of the Responses API.
pub fn parse_openai_responses_response(body: &JsonValue) -> (out: Result<WireResponse, String>)
    ensures
        match responses_reply(*body) {
            Ok(r) => out is Ok && response_view(out->Ok_0) == r,
            Err(e) => out is Err && out->Err_0@ == e,
        },
{
    let items = match items_of(get_field(body, "output")) {
        Some(items) => items,
        None => return Err(to_owned("OpenAI Responses response missing output")),
    };
    let ghost all = items@;
    let mut text = String::new();
    let mut tool_calls: Vec<WireToolCall> = Vec::new();
    let mut i: usize = 0;
    assert(all.take(0) =~= Seq::<JsonValue>::empty());
    assert(calls_view(tool_calls@) =~= Seq::<(Seq<char>, Seq<char>, Seq<char>)>::empty());
    while i < items.len()
        invariant
            i <= items.len(),
            all == items@,
            as_items(field(*body, "output"@)) == Some(all),
            responses_output(all.take(i as int)) == Ok::<(Seq<char>, Seq<(Seq<char>, Seq<char>, Seq<char>)>), Seq<char>>((text@, calls_view(tool_calls@))),
        decreases items.len() - i,
    {
        assert(all.take(i + 1).drop_last() =~= all.take(i as int));
        assert(all.take(i + 1).last() == all[i as int]);
        let item = &items[i];
        let kind = text_in(get_field(item, "type"));
        if str_eq(kind.as_str(), "message") {
            push_output_texts(&mut text, items_of(get_field(item, "content")));
        } else if str_eq(kind.as_str(), "function_call") {
            let id_value = match get_field(item, "call_id") {
                Some(x) => Some(x),
                None => get_field(item, "id"),
            };
            let id = match text_of(id_value) {
                Some(t) => to_owned(t),
                None => {
                    proof {
                        lemma_responses_error_stays(all, i + 1, "OpenAI Responses function_call missing call_id"@);
                    }
                    return Err(to_owned("OpenAI Responses function_call missing call_id"));
                },
            };
            let name = match text_of(get_field(item, "name")) {
                Some(t) => to_owned(t),
                None => {
                    proof {
                        lemma_responses_error_stays(all, i + 1, "OpenAI Responses function_call missing name"@);
                    }
                    return Err(to_owned("OpenAI Responses function_call missing name"));
                },
            };
            let arguments_json = text_or_braces_in(get_field(item, "arguments"));
            let call = WireToolCall { id, name, arguments_json };
            let ghost prev = calls_view(tool_calls@);
            tool_calls.push(call);
            assert(calls_view(tool_calls@) =~= prev.push(call_view(call)));
        }
        i += 1;
    }
    assert(all.take(items.len() as int) =~= all);
    let content = if is_blank(text.as_str()) {
        None
    } else {
        Some(text)
    };
    Ok(WireResponse { content, tool_calls })
}

/// What a stream event says once its payload is read.
pub open spec fn responses_payload_pieces(event: JsonValue) -> Result<Seq<DeltaView>, Seq<char>> {
    {
            let kind = text_or_empty(field(event, "type"@));
            if kind == "response.output_text.delta"@ {
                Ok(content_piece(text_field(event, "delta"@)))
            } else if kind == "response.output_item.added"@ {
                match field(event, "item"@) {
                    None => Err("OpenAI Responses output_item.added missing item"@),
                    Some(item) => if text_field(item, "type"@) != Some("function_call"@) {
                        Ok(Seq::empty())
                    } else {
                        Ok(
                            seq![
                                DeltaView::ToolCall {
                                    index: index_or_zero(field(event, "output_index"@)),
                                    id: as_text(call_id_or_id(item)),
                                    name: text_field(item, "name"@),
                                    arguments: text_or_empty(field(item, "arguments"@)),
                                },
                            ],
                        )
                    },
                }
            } else if kind == "response.function_call_arguments.delta"@ {
                Ok(
                    seq![
                        DeltaView::ToolCall {
                            index: index_or_zero(field(event, "output_index"@)),
                            id: None,
                            name: None,
                            arguments: text_or_empty(field(event, "delta"@)),
                        },
                    ],
                )
            } else if kind == "response.completed"@ {
                Ok(seq![DeltaView::Done])
            } else {
                Ok(Seq::empty())
            }
        }
}

/// What a Responses API stream event gives, or why it cannot be read.
pub open spec fn responses_event_pieces(data: Seq<char>) -> Result<Seq<DeltaView>, Seq<char>> {
    match parsed_json(data) {
        None => Err("failed to decode OpenAI Responses stream event"@),
        Some(event) => responses_payload_pieces(event),
        }
}

fn one_event(d: WireStreamDelta) -> (out: Vec<WireStreamDelta>)
    ensures
        deltas_view(out@) == seq![delta_view(d)],
{
    let mut v: Vec<WireStreamDelta> = Vec::new();
    let ghost dv = delta_view(d);
    v.push(d);
    assert(deltas_view(v@) =~= seq![dv]);
    v
}

fn no_events() -> (out: Vec<WireStreamDelta>)
    ensures
        deltas_view(out@) == Seq::<DeltaView>::empty(),
{
    let v: Vec<WireStreamDelta> = Vec::new();
    assert(deltas_view(v@) =~= Seq::<DeltaView>::empty());
    v
}

/// Reads a stream event from its parsed payload.
pub fn responses_stream_event_from_json(event: &JsonValue) -> (out: Result<Vec<WireStreamDelta>, String>)
    ensures
        match responses_payload_pieces(*event) {
            Ok(pieces) => out is Ok && deltas_view(out->Ok_0@) == pieces,
            Err(message) => out is Err && out->Err_0@ == message,
        },
{
    let kind = text_in(get_field(event, "type"));
    if str_eq(kind.as_str(), "response.output_text.delta") {
        let mut events = no_events();
        let delta = text_of(get_field(event, "delta"));
        push_content(&mut events, delta);
        assert(Seq::<DeltaView>::empty() + content_piece(crate::json::str_view(delta)) =~= content_piece(crate::json::str_view(delta)));
        Ok(events)
    } else if str_eq(kind.as_str(), "response.output_item.added") {
        let item = match get_field(event, "item") {
            Some(item) => item,
            None => return Err(to_owned("OpenAI Responses output_item.added missing item")),
        };
        let is_call = match text_of(get_field(item, "type")) {
            Some(t) => str_eq(t, "function_call"),
            None => false,
        };
        if !is_call {
            return Ok(no_events());
        }
        let id_value = match get_field(item, "call_id") {
            Some(x) => Some(x),
            None => get_field(item, "id"),
        };
        Ok(
            one_event(
                WireStreamDelta::ToolCallDelta {
                    index: index_in(get_field(event, "output_index")),
                    id: owned_text(id_value),
                    name: owned_text(get_field(item, "name")),
                    arguments_fragment: text_in(get_field(item, "arguments")),
                },
            ),
        )
    } else if str_eq(kind.as_str(), "response.function_call_arguments.delta") {
        Ok(
            one_event(
                WireStreamDelta::ToolCallDelta {
                    index: index_in(get_field(event, "output_index")),
                    id: None,
                    name: None,
                    arguments_fragment: text_in(get_field(event, "delta")),
                },
            ),
        )
    } else if str_eq(kind.as_str(), "response.completed") {
        Ok(one_event(WireStreamDelta::Done))
    } else {
        Ok(no_events())
    }
}

/// Reads a Responses API stream event.
pub fn parse_openai_responses_stream_event(data: &str) -> (out: Result<Vec<WireStreamDelta>, String>)
    ensures
        match responses_event_pieces(data@) {
            Ok(pieces) => out is Ok && deltas_view(out->Ok_0@) == pieces,
            Err(message) => out is Err && out->Err_0@ == message,
        },
{
    let event = match parse_json(data) {
        Some(e) => e,
        None => return Err(to_owned("failed to decode OpenAI Responses stream event")),
    };
    responses_stream_event_from_json(&event)
}

/// Whether a stream event's name marks it as one of the Responses API.
pub open spec fn is_responses_event(event_name: Option<Seq<char>>) -> bool {
    ||| event_name == Some("response.output_item.added"@)
    ||| event_name == Some("response.function_call_arguments.delta"@)
    ||| event_name == Some("response.function_call_arguments.done"@)
    ||| event_name == Some("response.output_text.delta"@)
    ||| event_name == Some("response.completed"@)
}

/// What an OpenAI-compatible stream event gives.
pub open spec fn openai_event_pieces(event_name: Option<Seq<char>>, data: Seq<char>) -> Result<Seq<DeltaView>, Seq<char>> {
    if is_responses_event(event_name) {
        responses_event_pieces(data)
    } else {
        chat_chunk_pieces(data)
    }
}

fn names_responses_event(event_name: Option<&str>) -> (out: bool)
    ensures
        out == is_responses_event(crate::json::str_view(event_name)),
{
    match event_name {
        Some(n) => str_eq(n, "response.output_item.added") || str_eq(n, "response.function_call_arguments.delta")
            || str_eq(n, "response.function_call_arguments.done") || str_eq(n, "response.output_text.delta")
            || str_eq(n, "response.completed"),
        None => false,
    }
}

/// Reads an event of an OpenAI-compatible stream.
pub fn parse_openai_stream_event(event_name: Option<&str>, data: &str) -> (out: Result<Vec<WireStreamDelta>, String>)
    ensures
        match openai_event_pieces(crate::json::str_view(event_name), data@) {
            Ok(pieces) => out is Ok && deltas_view(out->Ok_0@) == pieces,
            Err(message) => out is Err && out->Err_0@ == message,
        },
{
    if names_responses_event(event_name) {
        parse_openai_responses_stream_event(data)
    } else {
        parse_chat_stream_chunk(data)
    }
}

/// What an OpenAI-compatible reply gives: a Responses API reply when its
/// `object` says so, else a chat completion's first choice.
pub open spec fn openai_reply(body: JsonValue) -> Result<(Option<Seq<char>>, Seq<(Seq<char>, Seq<char>, Seq<char>)>), Seq<char>> {
    if text_field(body, "object"@) == Some("response"@) {
        responses_reply(body)
    } else {
        match field_of(first_item(field(body, "choices"@)), "message"@) {
            None => Err("provider response missing choices[0].message"@),
            Some(message) => match chat_tool_calls(items_or_none(field(message, "tool_calls"@))) {
                Err(e) => Err(e),
                Ok(calls) => Ok((message_text(message), calls)),
            },
        }
    }
}

/// Reads an OpenAI-compatible reply.
pub fn parse_openai_response(body: &JsonValue) -> (out: Result<WireResponse, String>)
    ensures
        match openai_reply(*body) {
            Ok(r) => out is Ok && response_view(out->Ok_0) == r,
            Err(e) => out is Err && out->Err_0@ == e,
        },
{
    let is_responses = match text_of(get_field(body, "object")) {
        Some(t) => str_eq(t, "response"),
        None => false,
    };
    if is_responses {
        return parse_openai_responses_response(body);
    }
    let message = match field_in(first_in(get_field(body, "choices")), "message") {
        Some(m) => m,
        None => return Err(to_owned("provider response missing choices[0].message")),
    };
    let content = openai_message_text(message);
    let tool_calls = match parse_openai_tool_calls(get_field(message, "tool_calls")) {
        Ok(calls) => calls,
        Err(e) => return Err(e),
    };
    Ok(WireResponse { content, tool_calls })
}


// ---------------------------------------------------------------------------
// Anthropic

/// The JSON text of a member, `null` where it is absent.
pub open spec fn member_json(v: Option<JsonValue>) -> Seq<char> {
    match v {
        Some(x) => json_text(json_view(x)),
        None => json_text(Json::Null),
    }
}

/// The text and tool calls of an Anthropic reply's content blocks, or the
/// first block's error.
pub open spec fn anthropic_blocks(blocks: Seq<JsonValue>) -> Result<(Seq<char>, Seq<(Seq<char>, Seq<char>, Seq<char>)>), Seq<char>>
    decreases blocks.len(),
{
    if blocks.len() == 0 {
        Ok((Seq::empty(), Seq::empty()))
    } else {
        match anthropic_blocks(blocks.drop_last()) {
            Err(e) => Err(e),
            Ok((text, calls)) => {
                let block = blocks.last();
                let kind = text_or_empty(field(block, "type"@));
                if kind == "text"@ {
                    Ok((text + text_or_empty(field(block, "text"@)), calls))
                } else if kind == "tool_use"@ {
                    match text_field(block, "id"@) {
                        None => Err("anthropic tool_use missing id"@),
                        Some(id) => match text_field(block, "name"@) {
                            None => Err("anthropic tool_use missing name"@),
                            Some(name) => Ok((text, calls.push((id, name, member_json(field(block, "input"@)))))),
                        },
                    }
                } else {
                    Ok((text, calls))
                }
            },
        }
    }
}

/// What an Anthropic reply gives, or why it cannot be read.
pub open spec fn anthropic_reply(body: JsonValue) -> Result<(Option<Seq<char>>, Seq<(Seq<char>, Seq<char>, Seq<char>)>), Seq<char>> {
    match as_items(field(body, "content"@)) {
        None => Err("anthropic response missing content blocks"@),
        Some(blocks) => match anthropic_blocks(blocks) {
            Err(e) => Err(e),
            Ok((text, calls)) => Ok((filled(text), calls)),
        },
    }
}

proof fn lemma_anthropic_error_stays(items: Seq<JsonValue>, i: int, e: Seq<char>)
    requires
        0 <= i <= items.len(),
        anthropic_blocks(items.take(i)) is Err,
        anthropic_blocks(items.take(i))->Err_0 == e,
    ensures
        anthropic_blocks(items) is Err,
        anthropic_blocks(items)->Err_0 == e,
    decreases items.len() - i,
{
    if i < items.len() {
        assert(items.take(i + 1).drop_last() =~= items.take(i));
        lemma_anthropic_error_stays(items, i + 1, e);
    } else {
        assert(items.take(i) =~= items);
    }
}

fn member_json_of(v: Option<&JsonValue>) -> (out: String)
    ensures
        out@ == member_json(deref_opt(v)),
{
    match v {
        Some(x) => write_json(x),
        None => {
            let null = JsonValue::Null;
            write_json(&null)
        },
    }
}

/// Reads an Anthropic reply.
pub fn parse_anthropic_response(body: &JsonValue) -> (out: Result<WireResponse, String>)
    ensures
        match anthropic_reply(*body) {
            Ok(r) => out is Ok && response_view(out->Ok_0) == r,
            Err(e) => out is Err && out->Err_0@ == e,
        },
{
    let blocks = match items_of(get_field(body, "content")) {
        Some(items) => items,
        None => return Err(to_owned("anthropic response missing content blocks")),
    };
    let ghost all = blocks@;
    let mut text = String::new();
    let mut tool_calls: Vec<WireToolCall> = Vec::new();
    let mut i: usize = 0;
    assert(all.take(0) =~= Seq::<JsonValue>::empty());
    assert(calls_view(tool_calls@) =~= Seq::<(Seq<char>, Seq<char>, Seq<char>)>::empty());
    while i < blocks.len()
        invariant
            i <= blocks.len(),
            all == blocks@,
            as_items(field(*body, "content"@)) == Some(all),
            anthropic_blocks(all.take(i as int)) == Ok::<(Seq<char>, Seq<(Seq<char>, Seq<char>, Seq<char>)>), Seq<char>>((text@, calls_view(tool_calls@))),
        decreases blocks.len() - i,
    {
        assert(all.take(i + 1).drop_last() =~= all.take(i as int));
        assert(all.take(i + 1).last() == all[i as int]);
        let block = &blocks[i];
        let kind = text_in(get_field(block, "type"));
        if str_eq(kind.as_str(), "text") {
            let t = text_in(get_field(block, "text"));
            push_str(&mut text, t.as_str());
        } else if str_eq(kind.as_str(), "tool_use") {
            let id = match text_of(get_field(block, "id")) {
                Some(t) => to_owned(t),
                None => {
                    proof { lemma_anthropic_error_stays(all, i + 1, "anthropic tool_use missing id"@); }
                    return Err(to_owned("anthropic tool_use missing id"));
                },
            };
            let name = match text_of(get_field(block, "name")) {
                Some(t) => to_owned(t),
                None => {
                    proof { lemma_anthropic_error_stays(all, i + 1, "anthropic tool_use missing name"@); }
                    return Err(to_owned("anthropic tool_use missing name"));
                },
            };
            let arguments_json = member_json_of(get_field(block, "input"));
            let call = WireToolCall { id, name, arguments_json };
            let ghost prev = calls_view(tool_calls@);
            tool_calls.push(call);
            assert(calls_view(tool_calls@) =~= prev.push(call_view(call)));
        }
        i += 1;
    }
    assert(all.take(blocks.len() as int) =~= all);
    let content = if is_blank(text.as_str()) {
        None
    } else {
        Some(text)
    };
    Ok(WireResponse { content, tool_calls })
}

/// The arguments text a starting `tool_use` block carries: its `input` as
/// JSON, nothing where the input is absent or null.
pub open spec fn initial_input(v: Option<JsonValue>) -> Seq<char> {
    match v {
        Some(JsonValue::Null) => Seq::empty(),
        Some(x) => json_text(json_view(x)),
        None => Seq::empty(),
    }
}

/// What a stream event says once its payload is read.
pub open spec fn anthropic_payload_pieces(payload: JsonValue, name: Seq<char>) -> Result<Seq<DeltaView>, Seq<char>> {
    if name == "content_block_start"@ {
                match field(payload, "content_block"@) {
                    None => Err("anthropic content_block_start missing content_block"@),
                    Some(block) => if text_field(block, "type"@) == Some("tool_use"@) {
                        Ok(
                            seq![
                                DeltaView::ToolCall {
                                    index: index_or_zero(field(payload, "index"@)),
                                    id: text_field(block, "id"@),
                                    name: text_field(block, "name"@),
                                    arguments: initial_input(field(block, "input"@)),
                                },
                            ],
                        )
                    } else {
                        Ok(Seq::empty())
                    },
                }
            } else if name == "content_block_delta"@ {
                match field(payload, "delta"@) {
                    None => Err("anthropic content_block_delta missing delta"@),
                    Some(delta) => {
                        let kind = text_or_empty(field(delta, "type"@));
                        if kind == "text_delta"@ {
                            Ok(content_piece(text_field(delta, "text"@)))
                        } else if kind == "input_json_delta"@ {
                            Ok(
                                seq![
                                    DeltaView::ToolCall {
                                        index: index_or_zero(field(payload, "index"@)),
                                        id: None,
                                        name: None,
                                        arguments: text_or_empty(field(delta, "partial_json"@)),
                                    },
                                ],
                            )
                        } else {
                            Ok(Seq::empty())
                        }
                    },
                }
            } else {
                Ok(Seq::empty())
            }
}

/// What an Anthropic stream event gives, or why it cannot be read.
pub open spec fn anthropic_event_pieces(event_name: Option<Seq<char>>, data: Seq<char>) -> Result<Seq<DeltaView>, Seq<char>> {
    let name = match event_name {
        Some(n) => n,
        None => Seq::empty(),
    };
    if (name == "message_stop"@ || name == "message_delta"@) && trim(data).len() == 0 {
        Ok(Seq::empty())
    } else if name == "message_stop"@ {
        Ok(seq![DeltaView::Done])
    } else {
        match parsed_json(data) {
            None => Err("failed to decode anthropic stream event"@),
            Some(payload) => anthropic_payload_pieces(payload, name),
        }
    }
}

/// A streamed text piece is delivered as it came: a `content_block_delta`
/// event whose delta is a `text_delta` with a non-empty text gives exactly one
/// content piece holding that text, whatever else the payload holds, and so
/// does the raw event whose data parses to such a payload.
pub proof fn lemma_anthropic_text_delta_delivered(payload: JsonValue, data: Seq<char>, delta: JsonValue, t: Seq<char>)
    requires
        field(payload, "delta"@) == Some(delta),
        text_field(delta, "type"@) == Some("text_delta"@),
        text_field(delta, "text"@) == Some(t),
        t.len() > 0,
    ensures
        anthropic_payload_pieces(payload, "content_block_delta"@) == Ok::<Seq<DeltaView>, Seq<char>>(
            seq![DeltaView::Content(t)],
        ),
        parsed_json(data) == Some(payload) ==> anthropic_event_pieces(Some("content_block_delta"@), data)
            == Ok::<Seq<DeltaView>, Seq<char>>(seq![DeltaView::Content(t)]),
{
    reveal_strlit("content_block_delta");
    reveal_strlit("content_block_start");
    reveal_strlit("message_stop");
    reveal_strlit("message_delta");
    assert("content_block_delta"@[14] != "content_block_start"@[14]);
    assert("content_block_delta"@.len() != "message_stop"@.len());
    assert("content_block_delta"@ != "message_delta"@);
}

fn initial_input_of(v: Option<&JsonValue>) -> (out: String)
    ensures
        out@ == initial_input(deref_opt(v)),
{
    proof {
        reveal_strlit("");
    }
    match v {
        Some(JsonValue::Null) => to_owned(""),
        Some(x) => write_json(x),
        None => to_owned(""),
    }
}

/// Reads a stream event from its parsed payload.
pub fn anthropic_stream_event_from_json(payload: &JsonValue, name: &str) -> (out: Result<Vec<WireStreamDelta>, String>)
    ensures
        match anthropic_payload_pieces(*payload, name@) {
            Ok(pieces) => out is Ok && deltas_view(out->Ok_0@) == pieces,
            Err(message) => out is Err && out->Err_0@ == message,
        },
{
    if str_eq(name, "content_block_start") {
        let block = match get_field(payload, "content_block") {
            Some(b) => b,
            None => return Err(to_owned("anthropic content_block_start missing content_block")),
        };
        let is_tool = match text_of(get_field(block, "type")) {
            Some(t) => str_eq(t, "tool_use"),
            None => false,
        };
        if is_tool {
            Ok(
                one_event(
                    WireStreamDelta::ToolCallDelta {
                        index: index_in(get_field(payload, "index")),
                        id: owned_text(get_field(block, "id")),
                        name: owned_text(get_field(block, "name")),
                        arguments_fragment: initial_input_of(get_field(block, "input")),
                    },
                ),
            )
        } else {
            Ok(no_events())
        }
    } else if str_eq(name, "content_block_delta") {
        let delta = match get_field(payload, "delta") {
            Some(d) => d,
            None => return Err(to_owned("anthropic content_block_delta missing delta")),
        };
        let kind = text_in(get_field(delta, "type"));
        if str_eq(kind.as_str(), "text_delta") {
            let mut events = no_events();
            let t = text_of(get_field(delta, "text"));
            push_content(&mut events, t);
            assert(Seq::<DeltaView>::empty() + content_piece(crate::json::str_view(t)) =~= content_piece(crate::json::str_view(t)));
            Ok(events)
        } else if str_eq(kind.as_str(), "input_json_delta") {
            Ok(
                one_event(
                    WireStreamDelta::ToolCallDelta {
                        index: index_in(get_field(payload, "index")),
                        id: None,
                        name: None,
                        arguments_fragment: text_in(get_field(delta, "partial_json")),
                    },
                ),
            )
        } else {
            Ok(no_events())
        }
    } else {
        Ok(no_events())
    }
}

/// Reads an Anthropic stream event.
pub fn parse_anthropic_stream_event(event_name: Option<&str>, data: &str) -> (out: Result<Vec<WireStreamDelta>, String>)
    ensures
        match anthropic_event_pieces(crate::json::str_view(event_name), data@) {
            Ok(pieces) => out is Ok && deltas_view(out->Ok_0@) == pieces,
            Err(message) => out is Err && out->Err_0@ == message,
        },
{
    proof {
        reveal_strlit("");
    }
    let name: &str = match event_name {
        Some(n) => n,
        None => "",
    };
    assert(name@ == match crate::json::str_view(event_name) {
        Some(n) => n,
        None => Seq::<char>::empty(),
    });
    let stop = str_eq(name, "message_stop");
    if (stop || str_eq(name, "message_delta")) && is_blank(data) {
        return Ok(no_events());
    }
    if stop {
        return Ok(one_event(WireStreamDelta::Done));
    }
    let payload = match parse_json(data) {
        Some(p) => p,
        None => return Err(to_owned("failed to decode anthropic stream event")),
    };
    anthropic_stream_event_from_json(&payload, name)
}


// ---------------------------------------------------------------------------
// Gemini

/// The parts of a Gemini reply's first candidate.
pub open spec fn candidate_parts(body: JsonValue) -> Option<Seq<JsonValue>> {
    as_items(field_of(field_of(first_item(field(body, "candidates"@)), "content"@), "parts"@))
}

/// The text and tool calls of Gemini parts, or the first part's error; a call
/// is named by its part's position.
pub open spec fn gemini_parts(parts: Seq<JsonValue>) -> Result<(Seq<char>, Seq<(Seq<char>, Seq<char>, Seq<char>)>), Seq<char>>
    decreases parts.len(),
{
    if parts.len() == 0 {
        Ok((Seq::empty(), Seq::empty()))
    } else {
        match gemini_parts(parts.drop_last()) {
            Err(e) => Err(e),
            Ok((text, calls)) => {
                let part = parts.last();
                let text2 = text + text_or_empty(field(part, "text"@));
                match field(part, "functionCall"@) {
                    None => Ok((text2, calls)),
                    Some(call) => match text_field(call, "name"@) {
                        None => Err("gemini functionCall missing name"@),
                        Some(name) => Ok(
                            (
                                text2,
                                calls.push(
                                    (
                                        "gemini-tool-"@ + decimal((parts.len() - 1) as nat),
                                        name,
                                        member_json(field(call, "args"@)),
                                    ),
                                ),
                            ),
                        ),
                    },
                }
            },
        }
    }
}

/// What a Gemini reply gives, or why it cannot be read.
pub open spec fn gemini_reply(body: JsonValue) -> Result<(Option<Seq<char>>, Seq<(Seq<char>, Seq<char>, Seq<char>)>), Seq<char>> {
    match candidate_parts(body) {
        None => Err("gemini response missing candidates[0].content.parts"@),
        Some(parts) => match gemini_parts(parts) {
            Err(e) => Err(e),
            Ok((text, calls)) => Ok((filled(text), calls)),
        },
    }
}

proof fn lemma_gemini_error_stays(items: Seq<JsonValue>, i: int, e: Seq<char>)
    requires
        0 <= i <= items.len(),
        gemini_parts(items.take(i)) is Err,
        gemini_parts(items.take(i))->Err_0 == e,
    ensures
        gemini_parts(items) is Err,
        gemini_parts(items)->Err_0 == e,
    decreases items.len() - i,
{
    if i < items.len() {
        assert(items.take(i + 1).drop_last() =~= items.take(i));
        lemma_gemini_error_stays(items, i + 1, e);
    } else {
        assert(items.take(i) =~= items);
    }
}

fn candidate_parts_of(body: &JsonValue) -> (out: Option<&Vec<JsonValue>>)
    ensures
        match out {
            Some(parts) => candidate_parts(*body) == Some(parts@),
            None => candidate_parts(*body) is None,
        },
{
    items_of(field_in(field_in(first_in(get_field(body, "candidates")), "content"), "parts"))
}

/// Reads Gemini parts.
pub fn parse_gemini_parts(parts: &Vec<JsonValue>) -> (out: Result<WireResponse, String>)
    ensures
        match gemini_parts(parts@) {
            Ok((text, calls)) => out is Ok && response_view(out->Ok_0) == (filled(text), calls),
            Err(e) => out is Err && out->Err_0@ == e,
        },
{
    let ghost all = parts@;
    let mut text = String::new();
    let mut tool_calls: Vec<WireToolCall> = Vec::new();
    let mut i: usize = 0;
    assert(all.take(0) =~= Seq::<JsonValue>::empty());
    assert(calls_view(tool_calls@) =~= Seq::<(Seq<char>, Seq<char>, Seq<char>)>::empty());
    while i < parts.len()
        invariant
            i <= parts.len(),
            all == parts@,
            gemini_parts(all.take(i as int)) == Ok::<(Seq<char>, Seq<(Seq<char>, Seq<char>, Seq<char>)>), Seq<char>>((text@, calls_view(tool_calls@))),
        decreases parts.len() - i,
    {
        assert(all.take(i + 1).drop_last() =~= all.take(i as int));
        assert(all.take(i + 1).last() == all[i as int]);
        assert(all.take(i + 1).len() - 1 == i);
        let part = &parts[i];
        let t = text_in(get_field(part, "text"));
        push_str(&mut text, t.as_str());
        match get_field(part, "functionCall") {
            Some(call) => {
                let name = match text_of(get_field(call, "name")) {
                    Some(n) => to_owned(n),
                    None => {
                        proof { lemma_gemini_error_stays(all, i + 1, "gemini functionCall missing name"@); }
                        return Err(to_owned("gemini functionCall missing name"));
                    },
                };
                let mut id = to_owned("gemini-tool-");
                let n = u64_to_string(i as u64);
                push_str(&mut id, n.as_str());
                let arguments_json = member_json_of(get_field(call, "args"));
                let c = WireToolCall { id, name, arguments_json };
                let ghost prev = calls_view(tool_calls@);
                tool_calls.push(c);
                assert(calls_view(tool_calls@) =~= prev.push(call_view(c)));
            },
            None => {},
        }
        i += 1;
    }
    assert(all.take(parts.len() as int) =~= all);
    let content = if is_blank(text.as_str()) {
        None
    } else {
        Some(text)
    };
    Ok(WireResponse { content, tool_calls })
}

/// Reads a Gemini reply.
pub fn parse_gemini_response(body: &JsonValue) -> (out: Result<WireResponse, String>)
    ensures
        match gemini_reply(*body) {
            Ok(r) => out is Ok && response_view(out->Ok_0) == r,
            Err(e) => out is Err && out->Err_0@ == e,
        },
{
    match candidate_parts_of(body) {
        Some(parts) => parse_gemini_parts(parts),
        None => Err(to_owned("gemini response missing candidates[0].content.parts")),
    }
}

/// The arguments text a streamed function call carries: its `args` as JSON,
/// nothing where absent.
pub open spec fn streamed_args(v: Option<JsonValue>) -> Seq<char> {
    match v {
        Some(x) => json_text(json_view(x)),
        None => Seq::empty(),
    }
}

/// The pieces of streamed Gemini parts, a call named by its part's position.
pub open spec fn gemini_pieces(parts: Seq<JsonValue>) -> Seq<DeltaView>
    decreases parts.len(),
{
    if parts.len() == 0 {
        Seq::empty()
    } else {
        let part = parts.last();
        gemini_pieces(parts.drop_last()) + content_piece(text_field(part, "text"@)) + match field(
            part,
            "functionCall"@,
        ) {
            Some(call) => seq![
                DeltaView::ToolCall {
                    index: (parts.len() - 1) as usize,
                    id: None,
                    name: text_field(call, "name"@),
                    arguments: streamed_args(field(call, "args"@)),
                },
            ],
            None => Seq::empty(),
        }
    }
}

/// What a stream event says once its payload is read.
pub open spec fn gemini_payload_pieces(body: JsonValue) -> Result<Seq<DeltaView>, Seq<char>> {
    Ok(
            gemini_pieces(
                match candidate_parts(body) {
                    Some(parts) => parts,
                    None => Seq::empty(),
                },
            ),
        )
}

/// What a Gemini stream event gives, or why it cannot be read.
pub open spec fn gemini_event_pieces(data: Seq<char>) -> Result<Seq<DeltaView>, Seq<char>> {
    match parsed_json(data) {
        None => Err("failed to decode gemini stream event"@),
        Some(body) => gemini_payload_pieces(body),
        }
}

fn streamed_args_of(v: Option<&JsonValue>) -> (out: String)
    ensures
        out@ == streamed_args(deref_opt(v)),
{
    proof {
        reveal_strlit("");
    }
    match v {
        Some(x) => write_json(x),
        None => to_owned(""),
    }
}

/// Reads a stream event from its parsed payload.
pub fn gemini_stream_event_from_json(body: &JsonValue) -> (out: Result<Vec<WireStreamDelta>, String>)
    ensures
        match gemini_payload_pieces(*body) {
            Ok(pieces) => out is Ok && deltas_view(out->Ok_0@) == pieces,
            Err(message) => out is Err && out->Err_0@ == message,
        },
{
    let mut events = no_events();
    let parts = match candidate_parts_of(body) {
        Some(parts) => parts,
        None => {
            assert(gemini_pieces(Seq::<JsonValue>::empty()) =~= Seq::<DeltaView>::empty());
            return Ok(events);
        },
    };
    let ghost all = parts@;
    let mut i: usize = 0;
    assert(all.take(0) =~= Seq::<JsonValue>::empty());
    while i < parts.len()
        invariant
            i <= parts.len(),
            all == parts@,
            deltas_view(events@) == gemini_pieces(all.take(i as int)),
        decreases parts.len() - i,
    {
        assert(all.take(i + 1).drop_last() =~= all.take(i as int));
        assert(all.take(i + 1).last() == all[i as int]);
        assert(all.take(i + 1).len() - 1 == i);
        let part = &parts[i];
        let ghost before = deltas_view(events@);
        let t = text_of(get_field(part, "text"));
        push_content(&mut events, t);
        let ghost mid = deltas_view(events@);
        match get_field(part, "functionCall") {
            Some(call) => {
                let d = WireStreamDelta::ToolCallDelta {
                    index: i,
                    id: None,
                    name: owned_text(get_field(call, "name")),
                    arguments_fragment: streamed_args_of(get_field(call, "args")),
                };
                let ghost dv = delta_view(d);
                events.push(d);
                assert(deltas_view(events@) =~= mid.push(dv));
                assert(deltas_view(events@) =~= mid + seq![dv]);
            },
            None => {
                assert(deltas_view(events@) =~= mid + Seq::<DeltaView>::empty());
            },
        }
        i += 1;
    }
    assert(all.take(parts.len() as int) =~= all);
    Ok(events)
}

/// Reads a Gemini stream event.
pub fn parse_gemini_stream_event(data: &str) -> (out: Result<Vec<WireStreamDelta>, String>)
    ensures
        match gemini_event_pieces(data@) {
            Ok(pieces) => out is Ok && deltas_view(out->Ok_0@) == pieces,
            Err(message) => out is Err && out->Err_0@ == message,
        },
{
    let body = match parse_json(data) {
        Some(b) => b,
        None => return Err(to_owned("failed to decode gemini stream event")),
    };
    gemini_stream_event_from_json(&body)
}

// ---------------------------------------------------------------------------
// By wire format

/// What a reply gives, for each wire format.
pub open spec fn wire_reply(kind: WireKind, body: JsonValue) -> Result<(Option<Seq<char>>, Seq<(Seq<char>, Seq<char>, Seq<char>)>), Seq<char>> {
    match kind {
        WireKind::OpenAi => openai_reply(body),
        WireKind::Anthropic => anthropic_reply(body),
        WireKind::Gemini => gemini_reply(body),
    }
}

/// What a stream event gives, for each wire format.
pub open spec fn wire_event_pieces(kind: WireKind, event_name: Option<Seq<char>>, data: Seq<char>) -> Result<Seq<DeltaView>, Seq<char>> {
    match kind {
        WireKind::OpenAi => openai_event_pieces(event_name, data),
        WireKind::Anthropic => anthropic_event_pieces(event_name, data),
        WireKind::Gemini => gemini_event_pieces(data),
    }
}

/// Reads a provider's reply in its wire format.
pub fn parse_response(kind: WireKind, body: &JsonValue) -> (out: Result<WireResponse, String>)
    ensures
        match wire_reply(kind, *body) {
            Ok(r) => out is Ok && response_view(out->Ok_0) == r,
            Err(e) => out is Err && out->Err_0@ == e,
        },
{
    match kind {
        WireKind::OpenAi => parse_openai_response(body),
        WireKind::Anthropic => parse_anthropic_response(body),
        WireKind::Gemini => parse_gemini_response(body),
    }
}

/// Reads a streamed event in a provider's wire format.
pub fn parse_stream_event(kind: WireKind, event_name: Option<&str>, data: &str) -> (out: Result<Vec<WireStreamDelta>, String>)
    ensures
        match wire_event_pieces(kind, crate::json::str_view(event_name), data@) {
            Ok(pieces) => out is Ok && deltas_view(out->Ok_0@) == pieces,
            Err(message) => out is Err && out->Err_0@ == message,
        },
{
    match kind {
        WireKind::OpenAi => parse_openai_stream_event(event_name, data),
        WireKind::Anthropic => parse_anthropic_stream_event(event_name, data),
        WireKind::Gemini => parse_gemini_stream_event(data),
    }
}

} // verus!
