use vstd::prelude::*;

use crate::memory::contains_string;
use crate::search::distinct_in_order;
use crate::text::{chars_of, chars_starts_with, starts_with, string_from_chars, strings_view, sub_chars};

verus! {

broadcast use vstd::string::group_string_axioms;

/// The prefix of Windows verbatim paths.
pub const VERBATIM_PREFIX: &'static str = "\\\\?\\";

/// `std::path::MAIN_SEPARATOR`: `\` on Windows, `/` elsewhere.
#[verifier::external_body]
fn main_separator() -> (out: char)
    ensures
        out == '/' || out == '\\',
{
    std::path::MAIN_SEPARATOR
}

/// A path without the Windows verbatim prefix, when paths are Windows paths.
pub open spec fn cleaned_path(path: Seq<char>, windows: bool) -> Seq<char> {
    if windows && starts_with(path, VERBATIM_PREFIX@) {
        path.skip(VERBATIM_PREFIX@.len() as int)
    } else {
        path
    }
}

/// Drops the verbatim prefix (`\\?\`) from a Windows path, so that paths
/// shown and stored are the ordinary ones.
pub fn clean_path_for(path: &str, windows: bool) -> (out: String)
    ensures
        out@ == cleaned_path(path@, windows),
{
    let chars = chars_of(path);
    let prefix = chars_of(VERBATIM_PREFIX);
    if windows && chars_starts_with(chars.as_slice(), prefix.as_slice()) {
        let rest = sub_chars(chars.as_slice(), prefix.len(), chars.len());
        assert(rest@ =~= chars@.skip(prefix@.len() as int));
        string_from_chars(rest.as_slice())
    } else {
        string_from_chars(chars.as_slice())
    }
}

/// Drops the verbatim prefix from a path on Windows; elsewhere the path is
/// returned unchanged.
pub fn clean_path(path: &str) -> (out: String)
    ensures
        out@ == cleaned_path(path@, false) || out@ == cleaned_path(path@, true),
{
    let windows = main_separator() == '\\';
    clean_path_for(path, windows)
}


/// The paths cleaned, each kept once, in order of first appearance.
pub open spec fn cleaned_unique(paths: Seq<Seq<char>>, windows: bool) -> Seq<Seq<char>> {
    distinct_in_order(paths.map_values(|p: Seq<char>| cleaned_path(p, windows)))
}

fn clean_unique_paths_for(paths: &Vec<String>, windows: bool) -> (out: Vec<String>)
    ensures
        strings_view(out@) == cleaned_unique(strings_view(paths@), windows),
{
    let ghost cv = strings_view(paths@).map_values(|p: Seq<char>| cleaned_path(p, windows));
    let mut unique: Vec<String> = Vec::new();
    let mut i: usize = 0;
    while i < paths.len()
        invariant
            i <= paths.len(),
            cv == strings_view(paths@).map_values(|p: Seq<char>| cleaned_path(p, windows)),
            strings_view(unique@) == distinct_in_order(cv.take(i as int)),
        decreases paths.len() - i,
    {
        assert(cv.take(i + 1).drop_last() =~= cv.take(i as int));
        assert(cv.take(i + 1).last() == cleaned_path(paths@[i as int]@, windows));
        let path = clean_path_for(paths[i].as_str(), windows);
        if !contains_string(&unique, path.as_str()) {
            let ghost before = unique@;
            unique.push(path);
            assert(strings_view(unique@) =~= strings_view(before).push(unique@.last()@));
        }
        i += 1;
    }
    assert(cv.take(paths.len() as int) =~= cv);
    unique
}

/// The paths without the Windows verbatim prefix (on Windows), each kept once.
pub fn clean_unique_paths(paths: &Vec<String>) -> (out: Vec<String>)
    ensures
        strings_view(out@) == cleaned_unique(strings_view(paths@), false) || strings_view(out@)
            == cleaned_unique(strings_view(paths@), true),
{
    let windows = main_separator() == '\\';
    clean_unique_paths_for(paths, windows)
}

} // verus!
