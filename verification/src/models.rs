use vstd::prelude::*;

use crate::json::{as_text, field, get_field, parse_json, parsed_json, JsonValue};
use crate::numbers::{parse_usize, unsigned_text_value};
use crate::provider::{base_url_fits, base_url_of, model_list_endpoint, RuntimeProviderConfig};
use crate::requests::{header_value_accepted, pairs_view};
use crate::settings::ProviderType;
use crate::text::{push_str, to_owned, trim, trim_str};

verus! {

broadcast use vstd::string::group_string_axioms;

/// A model a provider lists: its id, and its context window where the
/// listing gives one.
#[derive(Debug, Clone)]
pub struct ModelDescriptor {
    pub id: String,
    pub context_window_tokens: Option<usize>,
}

/// The request that asks a provider for its models.
#[derive(Debug, Clone)]
pub struct ModelListRequest {
    pub url: String,
    pub headers: Vec<(String, String)>,
}

/// A context window as a listing writes it: a whole number, or a text that
/// reads as one after trimming.
pub open spec fn context_window_of(v: JsonValue) -> Option<usize> {
    match v {
        JsonValue::Number { unsigned, .. } => match unsigned {
            Some(u) => if u <= usize::MAX {
                Some(u as usize)
            } else {
                None
            },
            None => None,
        },
        JsonValue::Str(s) => match unsigned_text_value(trim(s@)) {
            Some(n) => if n <= usize::MAX {
                Some(n as usize)
            } else {
                None
            },
            None => None,
        },
        _ => None,
    }
}

/// Reads a context window value.
pub fn parse_context_window_value(value: &JsonValue) -> (out: Option<usize>)
    ensures
        out == context_window_of(*value),
{
    match value {
        JsonValue::Number { unsigned, .. } => match unsigned {
            Some(u) => {
                if *u <= usize::MAX as u64 {
                    Some(*u as usize)
                } else {
                    None
                }
            },
            None => None,
        },
        JsonValue::Str(s) => {
            let t = trim_str(s.as_str());
            parse_usize(t.as_str())
        },
        _ => None,
    }
}

/// The first of the three context window fields that is present and reads
/// as a number.
pub open spec fn entry_context_window(v: JsonValue) -> Option<usize> {
    let a = field(v, "context_window"@);
    let b = field(v, "max_input_tokens"@);
    let c = field(v, "input_token_limit"@);
    if a is Some && context_window_of(a->0) is Some {
        context_window_of(a->0)
    } else if b is Some && context_window_of(b->0) is Some {
        context_window_of(b->0)
    } else if c is Some {
        context_window_of(c->0)
    } else {
        None
    }
}

/// What a listing entry describes: its `id` (else its `name`) as text, and
/// its context window; or why it describes nothing.
pub open spec fn descriptor_of(v: JsonValue) -> Result<(Seq<char>, Option<usize>), Seq<char>> {
    if !(v is Object) {
        Err("provider model entry was not an object"@)
    } else {
        let named = match field(v, "id"@) {
            Some(x) => Some(x),
            None => field(v, "name"@),
        };
        match as_text(named) {
            None => Err("provider model entry missing string id"@),
            Some(id) => Ok((id, entry_context_window(v))),
        }
    }
}

fn window_in(entry: &JsonValue, key: &str) -> (out: Option<usize>)
    ensures
        out == match field(*entry, key@) {
            Some(x) => context_window_of(x),
            None => None,
        },
{
    match get_field(entry, key) {
        Some(x) => parse_context_window_value(x),
        None => None,
    }
}

impl ModelDescriptor {
    /// Reads one entry of a provider's model listing.
    pub fn from_value(value: &JsonValue) -> (out: Result<ModelDescriptor, String>)
        ensures
            match descriptor_of(*value) {
                Ok(d) => out matches Ok(m) && m.id@ == d.0 && m.context_window_tokens == d.1,
                Err(e) => out matches Err(m) && m@ == e,
            },
    {
        match value {
            JsonValue::Object(_) => {},
            _ => return Err(to_owned("provider model entry was not an object")),
        }
        let named = match get_field(value, "id") {
            Some(x) => Some(x),
            None => get_field(value, "name"),
        };
        let id = match named {
            Some(JsonValue::Str(s)) => to_owned(s.as_str()),
            _ => return Err(to_owned("provider model entry missing string id")),
        };
        let window = match window_in(value, "context_window") {
            Some(w) => Some(w),
            None => match window_in(value, "max_input_tokens") {
                Some(w) => Some(w),
                None => window_in(value, "input_token_limit"),
            },
        };
        Ok(ModelDescriptor { id, context_window_tokens: window })
    }
}

/// The entries a listing body holds: `data` unless it is empty, else
/// `models`, each missing one taken as empty; an array body holds `data`
/// and `models` in that order, as `serde` reads a struct from an array.
pub open spec fn listing_entries(body: JsonValue) -> Result<Seq<JsonValue>, Seq<char>> {
    let (data, models) = match body {
        JsonValue::Object(_) => (field(body, "data"@), field(body, "models"@)),
        JsonValue::Array(items) => (
            if items@.len() > 0 { Some(items@[0]) } else { None },
            if items@.len() > 1 { Some(items@[1]) } else { None },
        ),
        _ => (None, None),
    };
    if !(body is Object || (body is Array && body->Array_0@.len() <= 2)) {
        Err("failed to decode model list response"@)
    } else if (data is Some && !(data->0 is Array)) || (models is Some && !(models->0 is Array)) {
        Err("failed to decode model list response"@)
    } else {
        let d = match data {
            Some(JsonValue::Array(items)) => items@,
            _ => Seq::empty(),
        };
        let m = match models {
            Some(JsonValue::Array(items)) => items@,
            _ => Seq::empty(),
        };
        if d.len() > 0 {
            Ok(d)
        } else {
            Ok(m)
        }
    }
}

/// The descriptors of the entries, or the first entry's error.
pub open spec fn descriptors_of(entries: Seq<JsonValue>) -> Result<Seq<(Seq<char>, Option<usize>)>, Seq<char>>
    decreases entries.len(),
{
    if entries.len() == 0 {
        Ok(Seq::empty())
    } else {
        match descriptors_of(entries.drop_last()) {
            Err(e) => Err(e),
            Ok(prev) => match descriptor_of(entries.last()) {
                Err(e) => Err(e),
                Ok(d) => Ok(prev.push(d)),
            },
        }
    }
}

pub open spec fn descriptors_view(v: Seq<ModelDescriptor>) -> Seq<(Seq<char>, Option<usize>)> {
    v.map_values(|m: ModelDescriptor| (m.id@, m.context_window_tokens))
}

/// What a listing says: its descriptors, or why it cannot be read.
pub open spec fn listing_of(body: JsonValue) -> Result<Seq<(Seq<char>, Option<usize>)>, Seq<char>> {
    match listing_entries(body) {
        Err(e) => Err(e),
        Ok(entries) => descriptors_of(entries),
    }
}

fn array_or_empty(v: Option<&JsonValue>) -> (out: Option<&Vec<JsonValue>>)
    ensures
        match v {
            None => out is None,
            Some(JsonValue::Array(items)) => out == Some(items),
            Some(_) => out is None,
        },
{
    match v {
        Some(JsonValue::Array(items)) => Some(items),
        _ => None,
    }
}

/// Reads the models out of a provider's parsed model listing.
pub fn model_descriptors_from_json(body: &JsonValue) -> (out: Result<Vec<ModelDescriptor>, String>)
    ensures
        match listing_of(*body) {
            Ok(ds) => out matches Ok(v) && descriptors_view(v@) == ds,
            Err(e) => out matches Err(m) && m@ == e,
        },
{
    let (data, models): (Option<&JsonValue>, Option<&JsonValue>) = match body {
        JsonValue::Object(_) => (get_field(body, "data"), get_field(body, "models")),
        JsonValue::Array(items) => {
            if items.len() > 2 {
                return Err(to_owned("failed to decode model list response"));
            }
            (
                if items.len() > 0 { Some(&items[0]) } else { None },
                if items.len() > 1 { Some(&items[1]) } else { None },
            )
        },
        _ => return Err(to_owned("failed to decode model list response")),
    };
    let d = array_or_empty(data);
    let m = array_or_empty(models);
    if (data.is_some() && d.is_none()) || (models.is_some() && m.is_none()) {
        return Err(to_owned("failed to decode model list response"));
    }
    let empty: Vec<JsonValue> = Vec::new();
    let entries: &Vec<JsonValue> = match d {
        Some(items) => if items.len() > 0 {
            items
        } else {
            match m {
                Some(ms) => ms,
                None => &empty,
            }
        },
        None => match m {
            Some(ms) => ms,
            None => &empty,
        },
    };
    let ghost es = entries@;
    assert(listing_entries(*body) == Ok::<Seq<JsonValue>, Seq<char>>(es));
    let mut out: Vec<ModelDescriptor> = Vec::new();
    let mut i: usize = 0;
    assert(descriptors_view(out@) =~= Seq::<(Seq<char>, Option<usize>)>::empty());
    while i < entries.len()
        invariant
            i <= entries@.len(),
            es == entries@,
            listing_entries(*body) == Ok::<Seq<JsonValue>, Seq<char>>(es),
            descriptors_of(es.take(i as int)) == Ok::<Seq<(Seq<char>, Option<usize>)>, Seq<char>>(descriptors_view(out@)),
        decreases entries.len() - i,
    {
        assert(es.take(i + 1).drop_last() =~= es.take(i as int));
        assert(es.take(i + 1).last() == es[i as int]);
        match ModelDescriptor::from_value(&entries[i]) {
            Ok(d) => {
                let ghost before = out@;
                out.push(d);
                assert(descriptors_view(out@) =~= descriptors_view(before).push((d.id@, d.context_window_tokens)));
            },
            Err(e) => {
                assert(descriptors_of(es.take(i + 1)) == Err::<Seq<(Seq<char>, Option<usize>)>, Seq<char>>(e@));
                proof {
                    lemma_descriptors_error_stays(es, i as int + 1);
                }
                return Err(e);
            },
        }
        i += 1;
    }
    assert(es.take(i as int) =~= es);
    Ok(out)
}

proof fn lemma_descriptors_error_stays(es: Seq<JsonValue>, n: int)
    requires
        0 <= n <= es.len(),
        descriptors_of(es.take(n)) is Err,
    ensures
        descriptors_of(es) == descriptors_of(es.take(n)),
    decreases es.len() - n,
{
    if n < es.len() {
        assert(es.take(n + 1).drop_last() =~= es.take(n));
        lemma_descriptors_error_stays(es, n + 1);
    } else {
        assert(es.take(n) =~= es);
    }
}

/// Reads a provider's model listing from its body text.
pub fn parse_model_list(body: &str) -> (out: Result<Vec<ModelDescriptor>, String>)
    ensures
        match parsed_json(body@) {
            None => out matches Err(m) && m@ == "failed to decode model list response"@,
            Some(v) => match listing_of(v) {
                Ok(ds) => out matches Ok(x) && descriptors_view(x@) == ds,
                Err(e) => out matches Err(m) && m@ == e,
            },
        },
{
    match parse_json(body) {
        None => Err(to_owned("failed to decode model list response")),
        Some(v) => model_descriptors_from_json(&v),
    }
}

/// The request for a provider's model listing: none for Anthropic-style
/// providers; the key as a query parameter for Gemini, as a bearer token
/// for the others, and nothing of it when it is blank.
pub open spec fn model_list_request_of(config: RuntimeProviderConfig) -> Option<
    Result<(Seq<char>, Seq<(Seq<char>, Seq<char>)>), Seq<char>>,
> {
    if config.provider_type == ProviderType::Anthropic {
        None
    } else {
        let base = base_url_of(config) + "/models"@;
        let key = config.api_key@;
        if trim(key).len() == 0 {
            Some(Ok((base, Seq::empty())))
        } else if config.provider_type == ProviderType::Gemini {
            Some(Ok((base + "?key="@ + key, Seq::empty())))
        } else if !header_value_accepted("Bearer "@ + key) {
            Some(Err("failed to request model list"@))
        } else {
            Some(Ok((base, seq![("authorization"@, "Bearer "@ + key)])))
        }
    }
}

/// Builds the request for a provider's model listing.
pub fn model_list_request(config: &RuntimeProviderConfig) -> (out: Option<Result<ModelListRequest, String>>)
    requires
        base_url_fits(*config),
    ensures
        match model_list_request_of(*config) {
            None => out is None,
            Some(Err(e)) => out matches Some(Err(m)) && m@ == e,
            Some(Ok(r)) => out matches Some(Ok(q)) && q.url@ == r.0 && pairs_view(q.headers@) == r.1,
        },
{
    let mut url = match model_list_endpoint(config) {
        Some(u) => u,
        None => return None,
    };
    let mut headers: Vec<(String, String)> = Vec::new();
    assert(pairs_view(headers@) =~= Seq::<(Seq<char>, Seq<char>)>::empty());
    let key = trim_str(config.api_key.as_str());
    if key.as_str().is_empty() {
        return Some(Ok(ModelListRequest { url, headers }));
    }
    if config.provider_type.uses_gemini_api() {
        push_str(&mut url, "?key=");
        push_str(&mut url, config.api_key.as_str());
        return Some(Ok(ModelListRequest { url, headers }));
    }
    let mut value = to_owned("Bearer ");
    push_str(&mut value, config.api_key.as_str());
    if !crate::requests::header_value_ok(value.as_str()) {
        return Some(Err(to_owned("failed to request model list")));
    }
    headers.push((to_owned("authorization"), value));
    assert(pairs_view(headers@) =~= seq![("authorization"@, "Bearer "@ + config.api_key@)]);
    Some(Ok(ModelListRequest { url, headers }))
}

} // verus!
