use vstd::prelude::*;

verus! {

broadcast use vstd::string::group_string_axioms;

/// A JSON value as the library reads and builds it. A number keeps its text,
/// with its value where it is an integer that fits `u64` or `i64`. An object
/// keeps its members in the order given and is looked up by a key's first
/// occurrence. On the wire it is `serde_json`'s value: an object read from
/// text comes with its keys sorted and each key once, and one written out has
/// its keys sorted, a later member of a repeated key taking the place of an
/// earlier one.
#[derive(Debug)]
pub enum JsonValue {
    Null,
    Bool(bool),
    Number { unsigned: Option<u64>, signed: Option<i64>, text: String },
    Str(String),
    Array(Vec<JsonValue>),
    Object(Vec<(String, JsonValue)>),
}

#[verifier::external_type_specification]
#[verifier::external_body]
pub struct ExOutsideJson(serde_json::Value);

/// The mathematical value of a JSON value.
pub enum Json {
    Null,
    Bool(bool),
    Number(Option<u64>, Option<i64>, Seq<char>),
    Str(Seq<char>),
    Array(Seq<Json>),
    Object(Seq<(Seq<char>, Json)>),
}

impl View for JsonValue {
    type V = Json;

    open spec fn view(&self) -> Json {
        json_view(*self)
    }
}

pub open spec fn json_view(v: JsonValue) -> Json
    decreases v,
{
    match v {
        JsonValue::Null => Json::Null,
        JsonValue::Bool(b) => Json::Bool(b),
        JsonValue::Number { unsigned, signed, text } => Json::Number(unsigned, signed, text@),
        JsonValue::Str(s) => Json::Str(s@),
        JsonValue::Array(items) => Json::Array(items_view(items@)),
        JsonValue::Object(entries) => Json::Object(entries_view(entries@)),
    }
}

pub open spec fn items_view(items: Seq<JsonValue>) -> Seq<Json>
    decreases items,
{
    if items.len() == 0 {
        Seq::empty()
    } else {
        items_view(items.subrange(0, items.len() - 1)).push(json_view(items[items.len() - 1]))
    }
}

pub open spec fn entries_view(entries: Seq<(String, JsonValue)>) -> Seq<(Seq<char>, Json)>
    decreases entries,
{
    if entries.len() == 0 {
        Seq::empty()
    } else {
        entries_view(entries.subrange(0, entries.len() - 1)).push(
            (entries[entries.len() - 1].0@, json_view(entries[entries.len() - 1].1)),
        )
    }
}

/// The first member of `entries` named `key`.
pub open spec fn lookup(entries: Seq<(String, JsonValue)>, key: Seq<char>) -> Option<JsonValue>
    decreases entries.len(),
{
    if entries.len() == 0 {
        None
    } else if entries[0].0@ == key {
        Some(entries[0].1)
    } else {
        lookup(entries.drop_first(), key)
    }
}

/// The member `key` of an object; nothing for any other value.
pub open spec fn field(v: JsonValue, key: Seq<char>) -> Option<JsonValue> {
    match v {
        JsonValue::Object(entries) => lookup(entries@, key),
        _ => None,
    }
}

/// The text of a string value.
pub open spec fn as_text(v: Option<JsonValue>) -> Option<Seq<char>> {
    match v {
        Some(JsonValue::Str(s)) => Some(s@),
        _ => None,
    }
}

/// The value of a number that is a non-negative integer fitting `u64`.
pub open spec fn as_uint(v: Option<JsonValue>) -> Option<u64> {
    match v {
        Some(JsonValue::Number { unsigned, .. }) => unsigned,
        _ => None,
    }
}

/// The value of a number that is an integer fitting `i64`.
pub open spec fn as_int(v: Option<JsonValue>) -> Option<i64> {
    match v {
        Some(JsonValue::Number { signed, .. }) => signed,
        _ => None,
    }
}

/// The items of an array value.
pub open spec fn as_items(v: Option<JsonValue>) -> Option<Seq<JsonValue>> {
    match v {
        Some(JsonValue::Array(items)) => Some(items@),
        _ => None,
    }
}

/// The value of a boolean.
pub open spec fn as_flag(v: Option<JsonValue>) -> Option<bool> {
    match v {
        Some(JsonValue::Bool(b)) => Some(b),
        _ => None,
    }
}

/// A borrowed optional value, as a value.
pub open spec fn deref_opt(v: Option<&JsonValue>) -> Option<JsonValue> {
    match v {
        Some(r) => Some(*r),
        None => None,
    }
}

/// The text of the string member `key`.
pub open spec fn text_field(v: JsonValue, key: Seq<char>) -> Option<Seq<char>> {
    as_text(field(v, key))
}

/// The optional-text view of a borrowed string.
pub open spec fn str_view(s: Option<&str>) -> Option<Seq<char>> {
    match s {
        Some(t) => Some(t@),
        None => None,
    }
}

proof fn lemma_lookup_skip(entries: Seq<(String, JsonValue)>, key: Seq<char>, i: int)
    requires
        0 <= i < entries.len(),
        entries[i].0@ != key,
    ensures
        lookup(entries.subrange(i, entries.len() as int), key) == lookup(
            entries.subrange(i + 1, entries.len() as int),
            key,
        ),
{
    assert(entries.subrange(i, entries.len() as int).drop_first() =~= entries.subrange(
        i + 1,
        entries.len() as int,
    ));
}

/// The member `key` of `v` when `v` is an object.
pub fn get_field<'a>(v: &'a JsonValue, key: &str) -> (out: Option<&'a JsonValue>)
    ensures
        deref_opt(out) == field(*v, key@),
{
    match v {
        JsonValue::Object(entries) => {
            let mut i: usize = 0;
            assert(entries@.subrange(0, entries@.len() as int) =~= entries@);
            while i < entries.len()
                invariant
                    i <= entries.len(),
                    field(*v, key@) == lookup(entries@, key@),
                    lookup(entries@, key@) == lookup(
                        entries@.subrange(i as int, entries@.len() as int),
                        key@,
                    ),
                decreases entries.len() - i,
            {
                if crate::text::str_eq(entries[i].0.as_str(), key) {
                    let ghost rest = entries@.subrange(i as int, entries@.len() as int);
                    assert(rest[0] == entries@[i as int]);
                    assert(rest.len() > 0);
                    assert(lookup(rest, key@) == Some(entries@[i as int].1));
                    return Some(&entries[i].1);
                }
                proof {
                    lemma_lookup_skip(entries@, key@, i as int);
                }
                i += 1;
            }
            assert(entries@.subrange(i as int, entries@.len() as int).len() == 0);
            None
        },
        _ => None,
    }
}

/// The text of `v` when it is a string.
pub fn text_of<'a>(v: Option<&'a JsonValue>) -> (out: Option<&'a str>)
    ensures
        str_view(out) == as_text(deref_opt(v)),
{
    match v {
        Some(JsonValue::Str(s)) => Some(s.as_str()),
        _ => None,
    }
}

/// The value of `v` when it is a number that is a non-negative integer.
pub fn uint_of(v: Option<&JsonValue>) -> (out: Option<u64>)
    ensures
        out == as_uint(deref_opt(v)),
{
    match v {
        Some(JsonValue::Number { unsigned, .. }) => *unsigned,
        _ => None,
    }
}

/// The value of `v` when it is a number that is an integer fitting `i64`.
pub fn int_of(v: Option<&JsonValue>) -> (out: Option<i64>)
    ensures
        out == as_int(deref_opt(v)),
{
    match v {
        Some(JsonValue::Number { signed, .. }) => *signed,
        _ => None,
    }
}

/// The items of `v` when it is an array.
pub fn items_of<'a>(v: Option<&'a JsonValue>) -> (out: Option<&'a Vec<JsonValue>>)
    ensures
        match out {
            Some(items) => as_items(deref_opt(v)) == Some(items@),
            None => as_items(deref_opt(v)) is None,
        },
{
    match v {
        Some(JsonValue::Array(items)) => Some(items),
        _ => None,
    }
}

/// The value of `v` when it is a boolean.
pub fn flag_of(v: Option<&JsonValue>) -> (out: Option<bool>)
    ensures
        out == as_flag(deref_opt(v)),
{
    match v {
        Some(JsonValue::Bool(b)) => Some(*b),
        _ => None,
    }
}

/// What `serde_json` makes of a text: the value it holds, or nothing where the
/// text is not one JSON value.
pub uninterp spec fn parsed_json(text: Seq<char>) -> Option<JsonValue>;

/// The compact JSON text `serde_json` writes for a value.
pub uninterp spec fn json_text(v: Json) -> Seq<char>;

/// Copies a `serde_json` value into a library value, member for member.
#[verifier::external_body]
fn from_outside(v: &serde_json::Value) -> JsonValue {
    match v {
        serde_json::Value::Null => JsonValue::Null,
        serde_json::Value::Bool(b) => JsonValue::Bool(*b),
        serde_json::Value::Number(n) => JsonValue::Number { unsigned: n.as_u64(), signed: n.as_i64(), text: n.to_string() },
        serde_json::Value::String(s) => JsonValue::Str(s.clone()),
        serde_json::Value::Array(a) => JsonValue::Array(a.iter().map(from_outside).collect()),
        serde_json::Value::Object(o) => JsonValue::Object(o.iter().map(|(k, x)| (k.clone(), from_outside(x))).collect()),
    }
}

/// Copies a library value into a `serde_json` value; a number is read back
/// from its text.
#[verifier::external_body]
fn to_outside(v: &JsonValue) -> serde_json::Value {
    match v {
        JsonValue::Null => serde_json::Value::Null,
        JsonValue::Bool(b) => serde_json::Value::Bool(*b),
        JsonValue::Number { text, .. } => text.parse::<serde_json::Number>().map(serde_json::Value::Number).unwrap_or(serde_json::Value::Null),
        JsonValue::Str(s) => serde_json::Value::String(s.clone()),
        JsonValue::Array(a) => serde_json::Value::Array(a.iter().map(to_outside).collect()),
        JsonValue::Object(o) => serde_json::Value::Object(o.iter().map(|(k, x)| (k.clone(), to_outside(x))).collect()),
    }
}

/// `serde_json::from_str` into a `serde_json::Value`: the contract names the
/// result and says nothing more of JSON's grammar.
#[verifier::external_body]
pub(crate) fn parse_json(text: &str) -> (out: Option<JsonValue>)
    ensures
        out == parsed_json(text@),
{
    serde_json::from_str::<serde_json::Value>(text).ok().map(|v| from_outside(&v))
}

/// `serde_json::to_string` of a value: the contract names the text it writes.
#[verifier::external_body]
pub(crate) fn write_json(v: &JsonValue) -> (out: String)
    ensures
        out@ == json_text(v@),
{
    serde_json::to_string(&to_outside(v)).unwrap_or_default()
}

/// A number value for an unsigned integer.
pub fn uint_value(n: u64) -> (out: JsonValue)
    ensures
        out matches JsonValue::Number { unsigned, signed, text } && unsigned == Some(n) && text@
            == crate::text::decimal(n as nat) && (n <= i64::MAX ==> signed == Some(n as i64)) && (n
            > i64::MAX ==> signed is None),
        json_view(out) == Json::Number(
            Some(n),
            if n <= i64::MAX {
                Some(n as i64)
            } else {
                None
            },
            crate::text::decimal(n as nat),
        ),
{
    let text = crate::text::u64_to_string(n);
    let signed = if n <= 9223372036854775807u64 {
        Some(n as i64)
    } else {
        None
    };
    JsonValue::Number { unsigned: Some(n), signed, text }
}

/// A string value.
pub fn str_value(s: &str) -> (out: JsonValue)
    ensures
        out matches JsonValue::Str(t) && t@ == s@,
        json_view(out) == Json::Str(s@),
{
    JsonValue::Str(crate::text::to_owned(s))
}


pub proof fn lemma_items_view_push(s: Seq<JsonValue>, x: JsonValue)
    ensures
        items_view(s.push(x)) == items_view(s).push(json_view(x)),
{
    assert(s.push(x).subrange(0, s.len() as int) =~= s);
}

pub proof fn lemma_entries_view_push(s: Seq<(String, JsonValue)>, k: String, x: JsonValue)
    ensures
        entries_view(s.push((k, x))) == entries_view(s).push((k@, json_view(x))),
{
    assert(s.push((k, x)).subrange(0, s.len() as int) =~= s);
}

pub proof fn lemma_items_view_len(s: Seq<JsonValue>)
    ensures
        items_view(s).len() == s.len(),
        forall|i: int| 0 <= i < s.len() ==> #[trigger] items_view(s)[i] == json_view(s[i]),
    decreases s.len(),
{
    if s.len() > 0 {
        lemma_items_view_len(s.subrange(0, s.len() - 1));
    }
}

/// Appends an item to an array under construction.
pub fn push_item(items: &mut Vec<JsonValue>, v: JsonValue)
    ensures
        items_view(final(items)@) == items_view(old(items)@).push(json_view(v)),
{
    let ghost before = items@;
    let ghost jv = json_view(v);
    items.push(v);
    proof {
        lemma_items_view_push(before, v);
    }
}

/// Appends a member to an object under construction.
pub fn push_member(entries: &mut Vec<(String, JsonValue)>, key: &str, v: JsonValue)
    ensures
        entries_view(final(entries)@) == entries_view(old(entries)@).push((key@, json_view(v))),
{
    let ghost before = entries@;
    let k = to_owned_str(key);
    let ghost kk = k;
    let ghost vv = v;
    entries.push((k, v));
    proof {
        lemma_entries_view_push(before, kk, vv);
    }
}

fn to_owned_str(s: &str) -> (out: String)
    ensures
        out@ == s@,
{
    crate::text::to_owned(s)
}

/// An object of one string member.
pub fn text_object(key: &str, text: &str) -> (out: JsonValue)
    ensures
        json_view(out) == Json::Object(seq![(key@, Json::Str(text@))]),
{
    let mut entries = no_members();
    push_member(&mut entries, key, str_value(text));
    JsonValue::Object(entries)
}

/// An object under construction, with no members yet.
pub fn no_members() -> (out: Vec<(String, JsonValue)>)
    ensures
        entries_view(out@) == Seq::<(Seq<char>, Json)>::empty(),
{
    let out: Vec<(String, JsonValue)> = Vec::new();
    assert(entries_view(out@) =~= Seq::<(Seq<char>, Json)>::empty());
    out
}

/// An array under construction, with no items yet.
pub fn no_items() -> (out: Vec<JsonValue>)
    ensures
        items_view(out@) == Seq::<Json>::empty(),
{
    let out: Vec<JsonValue> = Vec::new();
    assert(items_view(out@) =~= Seq::<Json>::empty());
    out
}

} // verus!
