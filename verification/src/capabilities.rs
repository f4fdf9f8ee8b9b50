use vstd::prelude::*;

use crate::text::str_eq;

verus! {

broadcast use vstd::string::group_string_axioms;

/// The token limits of a model.
#[derive(Debug, Clone, Copy, PartialEq, Eq, Structural)]
pub struct ModelCapabilities {
    pub context_window: usize,
    pub max_output_tokens: usize,
}

/// The built-in table of known models, by model id.
pub open spec fn known_models() -> Seq<(Seq<char>, ModelCapabilities)> {
    seq![("gpt-4o"@, ModelCapabilities { context_window: 128000, max_output_tokens: 16384 })]
}

fn known_model_table() -> (out: Vec<(&'static str, ModelCapabilities)>)
    ensures
        out@.map_values(|e: (&'static str, ModelCapabilities)| (e.0@, e.1)) == known_models(),
{
    let out = vec![("gpt-4o", ModelCapabilities { context_window: 128000, max_output_tokens: 16384 })];
    assert(out@.map_values(|e: (&'static str, ModelCapabilities)| (e.0@, e.1)) =~= known_models());
    out
}

/// The capabilities the first entry of `table` with the given id records.
pub open spec fn lookup_capabilities(table: Seq<(Seq<char>, ModelCapabilities)>, model_id: Seq<char>) -> Option<
    ModelCapabilities,
>
    decreases table.len(),
{
    if table.len() == 0 {
        None
    } else if table[0].0 == model_id {
        Some(table[0].1)
    } else {
        lookup_capabilities(table.drop_first(), model_id)
    }
}

/// The known capabilities of a model, if it is in the built-in table.
pub fn get_model_capabilities(model_id: &str) -> (out: Option<ModelCapabilities>)
    ensures
        out == lookup_capabilities(known_models(), model_id@),
{
    let table = known_model_table();
    let ghost tv = table@.map_values(|e: (&'static str, ModelCapabilities)| (e.0@, e.1));
    let mut i: usize = 0;
    assert(tv.skip(0) =~= tv);
    while i < table.len()
        invariant
            i <= table.len(),
            tv == table@.map_values(|e: (&'static str, ModelCapabilities)| (e.0@, e.1)),
            tv == known_models(),
            lookup_capabilities(tv.skip(i as int), model_id@) == lookup_capabilities(tv, model_id@),
        decreases table.len() - i,
    {
        assert(tv.skip(i as int)[0] == (table@[i as int].0@, table@[i as int].1));
        assert(tv.skip(i as int).drop_first() =~= tv.skip(i + 1));
        if str_eq(table[i].0, model_id) {
            return Some(table[i].1);
        }
        i += 1;
    }
    None
}

/// A rough token count for a text of the given size in bytes: a third of it.
pub fn estimate_tokens_from_bytes(bytes: usize) -> (out: usize)
    ensures
        out == bytes / 3,
{
    bytes / 3
}

/// The context window assumed for a model not in the table.
pub const DEFAULT_CONTEXT_WINDOW: usize = 128000;

/// The context window of a model: from the table, or the default.
pub fn get_context_window_for_model(model_id: &str) -> (out: usize)
    ensures
        out == match lookup_capabilities(known_models(), model_id@) {
            Some(c) => c.context_window,
            None => DEFAULT_CONTEXT_WINDOW,
        },
{
    match get_model_capabilities(model_id) {
        Some(c) => c.context_window,
        None => DEFAULT_CONTEXT_WINDOW,
    }
}

} // verus!
