use vstd::prelude::*;

use crate::text::{
    chars_of, decimal, join, push_str, string_from_chars, strings_view, u64_to_string,
};

verus! {

broadcast use vstd::string::group_string_axioms;

/// A file's text before and after a line-based edit.
pub struct FileEditResult {
    pub before: String,
    pub after: String,
}

/// Pieces of `s` between `sep` characters, scanned left to right: the
/// finished pieces and the piece in progress.
pub open spec fn split_state(s: Seq<char>, sep: char) -> (Seq<Seq<char>>, Seq<char>)
    decreases s.len(),
{
    if s.len() == 0 {
        (Seq::empty(), Seq::empty())
    } else {
        let (acc, cur) = split_state(s.drop_last(), sep);
        if s.last() == sep {
            (acc.push(cur), Seq::empty())
        } else {
            (acc, cur.push(s.last()))
        }
    }
}

/// `str::split(sep)` with a character separator; never empty.
pub open spec fn split_on(s: Seq<char>, sep: char) -> Seq<Seq<char>> {
    let (acc, cur) = split_state(s, sep);
    acc.push(cur)
}

/// `str::trim_end_matches(c)` with a single character.
pub open spec fn trim_end_char(s: Seq<char>, c: char) -> Seq<char>
    decreases s.len(),
{
    if s.len() > 0 && s.last() == c {
        trim_end_char(s.drop_last(), c)
    } else {
        s
    }
}

/// The lines a block of new content becomes when spliced into a file: none for
/// empty content, otherwise its `\n`-separated pieces after trailing newlines
/// are dropped.
pub open spec fn content_lines(new_content: Seq<char>) -> Seq<Seq<char>> {
    if new_content.len() == 0 {
        Seq::empty()
    } else {
        split_on(trim_end_char(new_content, '\n'), '\n')
    }
}

fn split_on_chars(s: &[char], sep: char) -> (out: Vec<String>)
    ensures
        strings_view(out@) == split_on(s@, sep),
{
    let mut acc: Vec<String> = Vec::new();
    let mut cur: Vec<char> = Vec::new();
    let mut i: usize = 0;
    while i < s.len()
        invariant
            i <= s.len(),
            (strings_view(acc@), cur@) == split_state(s@.take(i as int), sep),
        decreases s.len() - i,
    {
        assert(s@.take(i + 1).drop_last() == s@.take(i as int));
        let c = s[i];
        if c == sep {
            let w = string_from_chars(cur.as_slice());
            cur = Vec::new();
            acc.push(w);
            assert(strings_view(acc@) == strings_view(acc@.drop_last()).push(w@));
        } else {
            cur.push(c);
        }
        i += 1;
    }
    assert(s@.take(s.len() as int) == s@);
    let w = string_from_chars(cur.as_slice());
    acc.push(w);
    assert(strings_view(acc@) == strings_view(acc@.drop_last()).push(w@));
    acc
}

pub(crate) fn trim_end_char_vec(s: Vec<char>, c: char) -> (out: Vec<char>)
    ensures
        out@ == trim_end_char(s@, c),
{
    let ghost orig = s@;
    let mut s = s;
    while s.len() > 0 && s[s.len() - 1] == c
        invariant
            trim_end_char(s@, c) == trim_end_char(orig, c),
        decreases s.len(),
    {
        s.pop();
    }
    s
}

/// The lines that `new_content` contributes to a line-based edit.
pub fn new_content_lines(new_content: &str) -> (out: Vec<String>)
    ensures
        strings_view(out@) == content_lines(new_content@),
{
    let chars = chars_of(new_content);
    if chars.len() == 0 {
        return Vec::new();
    }
    let trimmed = trim_end_char_vec(chars, '\n');
    split_on_chars(trimmed.as_slice(), '\n')
}

/// The message for an invalid 1-based inclusive line range.
pub open spec fn invalid_range_message(start: nat, end: nat, count: nat) -> Seq<char> {
    "invalid line range "@ + decimal(start) + "-"@ + decimal(end) + " for "@ + decimal(count)
        + " lines"@
}

/// A 1-based inclusive line range that exists in a file of `count` lines.
pub open spec fn valid_line_range(start: int, end: int, count: int) -> bool {
    1 <= start <= end <= count
}

/// Checks that `start_line..=end_line` (1-based) names existing lines.
pub fn validate_line_range(lines: &[String], start_line: usize, end_line: usize) -> (out: Result<
    (),
    String,
>)
    ensures
        out is Ok <==> valid_line_range(start_line as int, end_line as int, lines@.len() as int),
        out matches Err(message) ==> message@ == invalid_range_message(
            start_line as nat,
            end_line as nat,
            lines@.len() as nat,
        ),
{
    if start_line == 0 || end_line == 0 || start_line > end_line || end_line > lines.len() {
        let mut message = "invalid line range ".to_owned();
        let a = u64_to_string(start_line as u64);
        push_str(&mut message, a.as_str());
        push_str(&mut message, "-");
        let b = u64_to_string(end_line as u64);
        push_str(&mut message, b.as_str());
        push_str(&mut message, " for ");
        let c = u64_to_string(lines.len() as u64);
        push_str(&mut message, c.as_str());
        push_str(&mut message, " lines");
        return Err(message);
    }
    Ok(())
}

fn splice_lines(lines: &mut Vec<String>, from: usize, to: usize, insertion: Vec<String>)
    requires
        from <= to <= old(lines)@.len(),
    ensures
        final(lines)@ == old(lines)@.take(from as int) + insertion@ + old(lines)@.skip(to as int),
{
    let mut tail = lines.split_off(to);
    lines.truncate(from);
    let mut insertion = insertion;
    lines.append(&mut insertion);
    lines.append(&mut tail);
}

/// `lines` with the 1-based inclusive range `start..=end` replaced by `repl`.
pub open spec fn replace_range(
    lines: Seq<Seq<char>>,
    start: int,
    end: int,
    repl: Seq<Seq<char>>,
) -> Seq<Seq<char>> {
    lines.take(start - 1) + repl + lines.skip(end)
}

/// Replaces the lines `start_line..=end_line` (1-based, inclusive) with the lines
/// of `new_content`.
pub fn replace_line_range(
    lines: &mut Vec<String>,
    start_line: usize,
    end_line: usize,
    new_content: &str,
) -> (out: Result<(), String>)
    ensures
        out is Ok <==> valid_line_range(
            start_line as int,
            end_line as int,
            old(lines)@.len() as int,
        ),
        out is Ok ==> strings_view(final(lines)@) == replace_range(
            strings_view(old(lines)@),
            start_line as int,
            end_line as int,
            content_lines(new_content@),
        ),
        out matches Err(message) ==> final(lines)@ == old(lines)@ && message@
            == invalid_range_message(start_line as nat, end_line as nat, old(lines)@.len() as nat),
{
    match validate_line_range(lines.as_slice(), start_line, end_line) {
        Err(message) => Err(message),
        Ok(()) => {
            let replacement = new_content_lines(new_content);
            let ghost before = lines@;
            splice_lines(lines, start_line - 1, end_line, replacement);
            assert(strings_view(lines@) == strings_view(before).take(start_line - 1)
                + strings_view(replacement@) + strings_view(before).skip(end_line as int));
            Ok(())
        },
    }
}

/// `lines` with `block` inserted after line `after` (0 inserts at the top).
pub open spec fn insert_block(lines: Seq<Seq<char>>, after: int, block: Seq<Seq<char>>) -> Seq<
    Seq<char>,
> {
    lines.take(after) + block + lines.skip(after)
}

/// The message for an insertion point past the end of the file.
pub open spec fn insert_out_of_range_message(after: nat, count: nat) -> Seq<char> {
    "insert_lines after_line "@ + decimal(after) + " is out of range for "@ + decimal(count)
        + " lines"@
}

/// Inserts the lines of `new_content` after line `after_line` (0 prepends).
pub fn insert_line_block(lines: &mut Vec<String>, after_line: usize, new_content: &str) -> (out:
    Result<(), String>)
    ensures
        out is Ok <==> after_line <= old(lines)@.len(),
        out is Ok ==> strings_view(final(lines)@) == insert_block(
            strings_view(old(lines)@),
            after_line as int,
            content_lines(new_content@),
        ),
        out matches Err(message) ==> final(lines)@ == old(lines)@ && message@
            == insert_out_of_range_message(after_line as nat, old(lines)@.len() as nat),
{
    if after_line > lines.len() {
        let mut message = "insert_lines after_line ".to_owned();
        let a = u64_to_string(after_line as u64);
        push_str(&mut message, a.as_str());
        push_str(&mut message, " is out of range for ");
        let c = u64_to_string(lines.len() as u64);
        push_str(&mut message, c.as_str());
        push_str(&mut message, " lines");
        return Err(message);
    }
    let insertion = new_content_lines(new_content);
    let ghost before = lines@;
    splice_lines(lines, after_line, after_line, insertion);
    assert(strings_view(lines@) == strings_view(before).take(after_line as int) + strings_view(
        insertion@,
    ) + strings_view(before).skip(after_line as int));
    Ok(())
}

/// Deletes the lines `start_line..=end_line` (1-based, inclusive).
pub fn delete_line_range(lines: &mut Vec<String>, start_line: usize, end_line: usize) -> (out:
    Result<(), String>)
    ensures
        out is Ok <==> valid_line_range(
            start_line as int,
            end_line as int,
            old(lines)@.len() as int,
        ),
        out is Ok ==> final(lines)@ == old(lines)@.take(start_line - 1) + old(lines)@.skip(
            end_line as int,
        ),
        out matches Err(message) ==> final(lines)@ == old(lines)@ && message@
            == invalid_range_message(start_line as nat, end_line as nat, old(lines)@.len() as nat),
{
    match validate_line_range(lines.as_slice(), start_line, end_line) {
        Err(message) => Err(message),
        Ok(()) => {
            splice_lines(lines, start_line - 1, end_line, Vec::new());
            Ok(())
        },
    }
}

/// Inserting a block of lines and then deleting exactly those lines gives the
/// original lines back.
pub proof fn lemma_delete_undoes_insert(lines: Seq<Seq<char>>, after: int, block: Seq<Seq<char>>)
    requires
        0 <= after <= lines.len(),
        block.len() > 0,
    ensures
        ({
            let inserted = insert_block(lines, after, block);
            inserted.take(after) + inserted.skip(after + block.len()) == lines
        }),
{
    let inserted = insert_block(lines, after, block);
    assert(inserted.take(after) =~= lines.take(after));
    assert(inserted.skip(after + block.len()) =~= lines.skip(after));
    assert(lines.take(after) + lines.skip(after) =~= lines);
}

/// Replacing a range changes the line count by the size of the replacement
/// minus the size of the range.
pub proof fn lemma_replace_line_count(
    lines: Seq<Seq<char>>,
    start: int,
    end: int,
    repl: Seq<Seq<char>>,
)
    requires
        valid_line_range(start, end, lines.len() as int),
    ensures
        replace_range(lines, start, end, repl).len() == lines.len() - (end - start + 1)
            + repl.len(),
{
}

/// The lines of a file as line-based edits see them: `\n`-separated, without
/// the empty piece after a final newline.
pub open spec fn file_lines(content: Seq<char>) -> Seq<Seq<char>> {
    if content.len() == 0 {
        Seq::empty()
    } else {
        let pieces = split_on(content, '\n');
        if pieces.last().len() == 0 {
            pieces.drop_last()
        } else {
            pieces
        }
    }
}

/// A file's text rebuilt from its lines, keeping its final newline if it had one.
pub open spec fn file_text(lines: Seq<Seq<char>>, trailing_newline: bool) -> Seq<char> {
    if trailing_newline {
        join(lines, "\n"@) + "\n"@
    } else {
        join(lines, "\n"@)
    }
}

/// Splits file content into the lines that line-based edits work on, and
/// whether it ends with a newline.
pub fn split_file_lines(content: &str) -> (out: (Vec<String>, bool))
    ensures
        strings_view(out.0@) == file_lines(content@),
        out.1 == (content@.len() > 0 && content@.last() == '\n'),
{
    let chars = chars_of(content);
    let trailing = chars.len() > 0 && chars[chars.len() - 1] == '\n';
    if chars.len() == 0 {
        return (Vec::new(), trailing);
    }
    let mut pieces = split_on_chars(chars.as_slice(), '\n');
    let n = pieces.len();
    assert(strings_view(pieces@).len() == pieces@.len());
    assert(n > 0);
    let last_empty = pieces[n - 1].as_str().is_empty();
    assert(strings_view(pieces@).last() == pieces@[n - 1]@);
    let ghost all = pieces@;
    if last_empty {
        pieces.pop();
        assert(strings_view(pieces@) =~= strings_view(all).drop_last());
    }
    (pieces, trailing)
}

/// Rebuilds file content from lines.
pub fn join_file_lines(lines: &Vec<String>, trailing_newline: bool) -> (out: String)
    ensures
        out@ == file_text(strings_view(lines@), trailing_newline),
{
    let mut output = crate::text::join_strings(lines, "\n");
    if trailing_newline {
        push_str(&mut output, "\n");
    }
    output
}

/// Applies a line-based edit to file content: splits it into lines, runs
/// `mutate` on them and joins the lines it returns, keeping a final newline.
pub fn edit_text<F>(content: &str, mutate: F) -> (out: Result<FileEditResult, String>) where
    F: FnOnce(Vec<String>) -> Result<Vec<String>, String>,

    requires
        forall|lines: Vec<String>| #[trigger] mutate.requires((lines,)),
    ensures
        exists|before_lines: Vec<String>, result: Result<Vec<String>, String>|
            #![trigger call_ensures(mutate, (before_lines,), result)]
            strings_view(before_lines@) == file_lines(content@) && call_ensures(
                mutate,
                (before_lines,),
                result,
            ) && match (result, out) {
                (Ok(after_lines), Ok(edit)) => edit.before@ == content@ && edit.after@ == file_text(
                    strings_view(after_lines@),
                    content@.len() > 0 && content@.last() == '\n',
                ),
                (Err(m1), Err(m2)) => m1 == m2,
                _ => false,
            },
{
    let (lines, trailing) = split_file_lines(content);
    let ghost before_lines = lines;
    let result = mutate(lines);
    let ghost r = result;
    match result {
        Err(message) => {
            assert(call_ensures(mutate, (before_lines,), r));
            Err(message)
        },
        Ok(after_lines) => {
            let after = join_file_lines(&after_lines, trailing);
            assert(call_ensures(mutate, (before_lines,), r));
            Ok(FileEditResult { before: content.to_owned(), after })
        },
    }
}

} // verus!

verus! {

/// Dropping trailing characters never lengthens a text.
pub proof fn lemma_trim_end_char_len(s: Seq<char>, c: char)
    ensures
        trim_end_char(s, c).len() <= s.len(),
    decreases s.len(),
{
    if s.len() > 0 && s.last() == c {
        lemma_trim_end_char_len(s.drop_last(), c);
    }
}

} // verus!
