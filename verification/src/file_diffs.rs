use vstd::prelude::*;

use crate::text::{
    chars_of, char_vecs_view, decimal, join, join_chars, lines, lines_chars, push_chars, push_str,
    string_from_chars, to_owned, u64_to_string,
};

verus! {

broadcast use vstd::string::group_string_axioms;

/// The most diff lines shown after a file edit.
pub const MAX_DIFF_LINES: usize = 200;

/// The lines of context kept around each change.
pub const DIFF_CONTEXT_RADIUS: usize = 3;

/// The unified line diff `similar` writes from `before` to `after`, with
/// `context` lines of context and the two file names in its header.
pub uninterp spec fn unified_diff_text(
    before: Seq<char>,
    after: Seq<char>,
    context: usize,
    old_name: Seq<char>,
    new_name: Seq<char>,
) -> Seq<char>;

/// `similar::TextDiff::from_lines(..).unified_diff()` with a context radius
/// and a header, written out: the contract names the text.
#[verifier::external_body]
fn unified_diff(before: &str, after: &str, context: usize, old_name: &str, new_name: &str) -> (out:
    String)
    ensures
        out@ == unified_diff_text(before@, after@, context, old_name@, new_name@),
{
    similar::TextDiff::from_lines(before, after).unified_diff().context_radius(context).header(old_name, new_name).to_string()
}

/// The diff shown after a file edit: the unified diff of the file's text
/// before and after, headed `a/<path>` and `b/<path>`; past 200 lines, its
/// first 200 lines and a line that gives the full count.
pub open spec fn file_diff_text(path: Seq<char>, before: Seq<char>, after: Seq<char>) -> Seq<char> {
    let unified = unified_diff_text(before, after, 3, "a/"@ + path, "b/"@ + path);
    let total = lines(unified).len();
    if total <= 200 {
        unified
    } else {
        join(lines(unified).take(200), "\n"@) + "\n"@ + "[diff 共 "@ + decimal(total) + " 行，仅显示前 200 行]"@
    }
}

/// A rendered file diff.
pub struct FileDiff {
    pub rendered: String,
}

pub fn format_file_diff(path: &str, before: &str, after: &str) -> (out: FileDiff)
    ensures
        out.rendered@ == file_diff_text(path@, before@, after@),
{
    let mut old_name = to_owned("a/");
    push_str(&mut old_name, path);
    let mut new_name = to_owned("b/");
    push_str(&mut new_name, path);
    let unified = unified_diff(before, after, DIFF_CONTEXT_RADIUS, old_name.as_str(), new_name.as_str());
    let chars = chars_of(unified.as_str());
    let ls = lines_chars(chars.as_slice());
    let total = ls.len();
    if total <= MAX_DIFF_LINES {
        return FileDiff { rendered: unified };
    }
    let mut head: Vec<Vec<char>> = Vec::new();
    let mut i: usize = 0;
    while i < MAX_DIFF_LINES
        invariant
            i <= MAX_DIFF_LINES < ls.len(),
            char_vecs_view(head@) == char_vecs_view(ls@).take(i as int),
        decreases MAX_DIFF_LINES - i,
    {
        let ghost prev = head@;
        let line = sub_copy(&ls[i]);
        let ghost lv = line@;
        head.push(line);
        assert(char_vecs_view(head@) =~= char_vecs_view(prev).push(lv));
        assert(char_vecs_view(ls@)[i as int] == lv);
        assert(char_vecs_view(ls@).take(i + 1) =~= char_vecs_view(ls@).take(i as int).push(lv));
        i += 1;
    }
    let sep = chars_of("\n");
    let joined = join_chars(&head, sep.as_slice());
    let mut rendered = string_from_chars(joined.as_slice());
    push_str(&mut rendered, "\n");
    push_str(&mut rendered, "[diff 共 ");
    let n = u64_to_string(total as u64);
    push_str(&mut rendered, n.as_str());
    push_str(&mut rendered, " 行，仅显示前 200 行]");
    FileDiff { rendered }
}

fn sub_copy(v: &Vec<char>) -> (out: Vec<char>)
    ensures
        out@ == v@,
{
    let mut out: Vec<char> = Vec::new();
    let mut i: usize = 0;
    while i < v.len()
        invariant
            i <= v.len(),
            out@ == v@.take(i as int),
        decreases v.len() - i,
    {
        out.push(v[i]);
        assert(out@ =~= v@.take(i + 1));
        i += 1;
    }
    assert(v@.take(v.len() as int) =~= v@);
    out
}

} // verus!
