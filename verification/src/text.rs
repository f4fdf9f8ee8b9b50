use vstd::prelude::*;

verus! {

broadcast use vstd::string::group_string_axioms;

/// Appends one character to a string (std `String::push`).
#[verifier::external_body]
pub(crate) fn push_char(s: &mut String, c: char)
    ensures
        final(s)@ == old(s)@.push(c),
{
    s.push(c);
}

/// The characters of `s`, in order.
pub fn chars_of(s: &str) -> (out: Vec<char>)
    ensures
        out@ == s@,
{
    let mut out: Vec<char> = Vec::new();
    for c in it: s.chars()
        invariant
            it.seq() == s@,
            out@ == s@.take(it.index()),
    {
        out.push(c);
    }
    out
}

/// A string holding exactly the given characters.
pub fn string_from_chars(chars: &[char]) -> (out: String)
    ensures
        out@ == chars@,
{
    let mut out = String::new();
    let mut i: usize = 0;
    while i < chars.len()
        invariant
            i <= chars.len(),
            out@ == chars@.take(i as int),
        decreases chars.len() - i,
    {
        push_char(&mut out, chars[i]);
        assert(chars@.take(i + 1) == chars@.take(i as int).push(chars@[i as int]));
        i += 1;
    }
    assert(chars@.take(chars.len() as int) == chars@);
    out
}

} // verus!

verus! {

/// Rust's `char::is_whitespace`: the Unicode `White_Space` property.
pub open spec fn is_ws(c: char) -> bool {
    ||| c == ' ' || c == '\t' || c == '\n' || c == '\r'
    ||| c == '\u{0B}' || c == '\u{0C}' || c == '\u{85}' || c == '\u{A0}'
    ||| c == '\u{1680}' || ('\u{2000}' <= c && c <= '\u{200A}')
    ||| c == '\u{2028}' || c == '\u{2029}' || c == '\u{202F}' || c == '\u{205F}'
    ||| c == '\u{3000}'
}

pub fn char_is_ws(c: char) -> (b: bool)
    ensures
        b == is_ws(c),
{
    c == ' ' || c == '\t' || c == '\n' || c == '\r' || c == '\u{0B}' || c == '\u{0C}'
        || c == '\u{85}' || c == '\u{A0}' || c == '\u{1680}' || ('\u{2000}' <= c && c
        <= '\u{200A}') || c == '\u{2028}' || c == '\u{2029}' || c == '\u{202F}' || c
        == '\u{205F}' || c == '\u{3000}'
}

/// Index of the first non-whitespace character at or after `i`.
pub open spec fn ws_prefix_end(s: Seq<char>, i: int) -> int
    decreases s.len() - i,
{
    if 0 <= i < s.len() && is_ws(s[i]) {
        ws_prefix_end(s, i + 1)
    } else {
        i
    }
}

/// Index just past the last non-whitespace character at or before `j`.
pub open spec fn ws_suffix_start(s: Seq<char>, j: int) -> int
    decreases j,
{
    if 0 < j <= s.len() && is_ws(s[j - 1]) {
        ws_suffix_start(s, j - 1)
    } else {
        j
    }
}

/// `str::trim_start`.
pub open spec fn trim_start(s: Seq<char>) -> Seq<char> {
    s.skip(ws_prefix_end(s, 0))
}

/// `str::trim_end`.
pub open spec fn trim_end(s: Seq<char>) -> Seq<char> {
    s.take(ws_suffix_start(s, s.len() as int))
}

/// `str::trim`.
pub open spec fn trim(s: Seq<char>) -> Seq<char> {
    trim_end(trim_start(s))
}

pub proof fn lemma_ws_prefix_end_bounds(s: Seq<char>, i: int)
    requires
        0 <= i <= s.len(),
    ensures
        i <= ws_prefix_end(s, i) <= s.len(),
        forall|k: int| i <= k < ws_prefix_end(s, i) ==> is_ws(#[trigger] s[k]),
        ws_prefix_end(s, i) < s.len() ==> !is_ws(s[ws_prefix_end(s, i)]),
    decreases s.len() - i,
{
    if i < s.len() && is_ws(s[i]) {
        lemma_ws_prefix_end_bounds(s, i + 1);
    }
}

pub proof fn lemma_ws_suffix_start_bounds(s: Seq<char>, j: int)
    requires
        0 <= j <= s.len(),
    ensures
        0 <= ws_suffix_start(s, j) <= j,
        forall|k: int| ws_suffix_start(s, j) <= k < j ==> is_ws(#[trigger] s[k]),
        ws_suffix_start(s, j) > 0 ==> !is_ws(s[ws_suffix_start(s, j) - 1]),
    decreases j,
{
    if 0 < j && is_ws(s[j - 1]) {
        lemma_ws_suffix_start_bounds(s, j - 1);
    }
}

/// The characters of `s` with leading and trailing whitespace removed.
pub fn trim_chars(s: &[char]) -> (out: Vec<char>)
    ensures
        out@ == trim(s@),
{
    let mut i: usize = 0;
    while i < s.len() && char_is_ws(s[i])
        invariant
            i <= s.len(),
            ws_prefix_end(s@, i as int) == ws_prefix_end(s@, 0),
        decreases s.len() - i,
    {
        i += 1;
    }
    let ghost rest = s@.skip(i as int);
    let mut j: usize = s.len();
    while j > i && char_is_ws(s[j - 1])
        invariant
            i <= j <= s.len(),
            rest == s@.skip(i as int),
            ws_suffix_start(rest, j - i) == ws_suffix_start(rest, rest.len() as int),
        decreases j,
    {
        assert(rest[j - i - 1] == s@[j - 1]);
        j -= 1;
    }
    proof {
        if j > i {
            assert(rest[j - i - 1] == s@[j - 1]);
        }
    }
    let mut out: Vec<char> = Vec::new();
    let mut k: usize = i;
    while k < j
        invariant
            i <= k <= j <= s.len(),
            out@ == s@.subrange(i as int, k as int),
        decreases j - k,
    {
        out.push(s[k]);
        assert(s@.subrange(i as int, k + 1) == s@.subrange(i as int, k as int).push(s@[k as int]));
        k += 1;
    }
    assert(trim_start(s@) == rest);
    assert(out@ == rest.take(j - i));
    out
}

/// `str::trim` on a string slice, as an owned string.
pub fn trim_str(s: &str) -> (out: String)
    ensures
        out@ == trim(s@),
{
    let chars = chars_of(s);
    let t = trim_chars(chars.as_slice());
    string_from_chars(t.as_slice())
}

} // verus!

verus! {

/// `char::to_ascii_lowercase`.
pub open spec fn lower_char(c: char) -> char {
    if 'A' <= c && c <= 'Z' {
        ((c as u32) + 32) as char
    } else {
        c
    }
}

/// `str::to_ascii_lowercase`.
pub open spec fn ascii_lower(s: Seq<char>) -> Seq<char> {
    s.map_values(|c: char| lower_char(c))
}

pub fn char_to_ascii_lower(c: char) -> (out: char)
    ensures
        out == lower_char(c),
{
    if 'A' <= c && c <= 'Z' {
        let b: u8 = c as u8;
        assert(b == c as u32);
        ((b + 32) as char)
    } else {
        c
    }
}

pub fn lower_chars(s: &[char]) -> (out: Vec<char>)
    ensures
        out@ == ascii_lower(s@),
{
    let mut out: Vec<char> = Vec::new();
    let mut i: usize = 0;
    while i < s.len()
        invariant
            i <= s.len(),
            out@ == ascii_lower(s@.take(i as int)),
        decreases s.len() - i,
    {
        let c = char_to_ascii_lower(s[i]);
        out.push(c);
        assert(ascii_lower(s@.take(i + 1)) == ascii_lower(s@.take(i as int)).push(lower_char(s@[i as int])));
        i += 1;
    }
    assert(s@.take(s.len() as int) == s@);
    out
}

/// `str::to_ascii_lowercase`, as an owned string.
pub fn to_ascii_lowercase(s: &str) -> (out: String)
    ensures
        out@ == ascii_lower(s@),
{
    let chars = chars_of(s);
    let l = lower_chars(chars.as_slice());
    string_from_chars(l.as_slice())
}

/// Equality of two character slices.
pub fn chars_eq(a: &[char], b: &[char]) -> (eq: bool)
    ensures
        eq == (a@ == b@),
{
    if a.len() != b.len() {
        return false;
    }
    let mut i: usize = 0;
    while i < a.len()
        invariant
            i <= a.len() == b.len(),
            a@.take(i as int) == b@.take(i as int),
        decreases a.len() - i,
    {
        if a[i] != b[i] {
            assert(a@[i as int] != b@[i as int]);
            return false;
        }
        assert(a@.take(i + 1) == a@.take(i as int).push(a@[i as int]));
        assert(b@.take(i + 1) == b@.take(i as int).push(b@[i as int]));
        i += 1;
    }
    assert(a@ == a@.take(a.len() as int));
    assert(b@ == b@.take(b.len() as int));
    true
}

/// Equality of two strings.
pub fn str_eq(a: &str, b: &str) -> (eq: bool)
    ensures
        eq == (a@ == b@),
{
    let x = chars_of(a);
    let y = chars_of(b);
    chars_eq(x.as_slice(), y.as_slice())
}

/// `str::eq_ignore_ascii_case`.
pub fn eq_ignore_ascii_case(a: &str, b: &str) -> (eq: bool)
    ensures
        eq == (ascii_lower(a@) == ascii_lower(b@)),
{
    let x = to_ascii_lowercase(a);
    let y = to_ascii_lowercase(b);
    str_eq(x.as_str(), y.as_str())
}

/// `s` begins with `p`.
pub open spec fn starts_with(s: Seq<char>, p: Seq<char>) -> bool {
    p.len() <= s.len() && s.take(p.len() as int) == p
}

/// `s` ends with `p`.
pub open spec fn ends_with(s: Seq<char>, p: Seq<char>) -> bool {
    p.len() <= s.len() && s.skip(s.len() - p.len()) == p
}

/// `p` occurs in `s` at position `i`.
pub open spec fn occurs_at(s: Seq<char>, p: Seq<char>, i: int) -> bool {
    0 <= i && i + p.len() <= s.len() && s.subrange(i, i + p.len()) == p
}

/// `str::contains` with a string pattern.
pub open spec fn contains_seq(s: Seq<char>, p: Seq<char>) -> bool {
    exists|i: int| occurs_at(s, p, i)
}

/// Whether `p` occurs in `s` at position `at`.
pub fn chars_occur_at(s: &[char], p: &[char], at: usize) -> (b: bool)
    ensures
        b == occurs_at(s@, p@, at as int),
{
    if p.len() > s.len() || at > s.len() - p.len() {
        return false;
    }
    let mut k: usize = 0;
    while k < p.len()
        invariant
            at + p.len() <= s.len(),
            k <= p.len(),
            forall|m: int| 0 <= m < k ==> s@[at + m] == p@[m],
        decreases p.len() - k,
    {
        if s[at + k] != p[k] {
            assert(s@.subrange(at as int, at + p.len())[k as int] != p@[k as int]);
            return false;
        }
        k += 1;
    }
    assert(s@.subrange(at as int, at + p.len()) =~= p@);
    true
}

pub fn chars_starts_with(s: &[char], p: &[char]) -> (b: bool)
    ensures
        b == starts_with(s@, p@),
{
    let r = chars_occur_at(s, p, 0);
    proof {
        if p@.len() <= s@.len() {
            assert(s@.subrange(0, p@.len() as int) == s@.take(p@.len() as int));
        }
    }
    r
}

pub fn chars_ends_with(s: &[char], p: &[char]) -> (b: bool)
    ensures
        b == ends_with(s@, p@),
{
    if p.len() > s.len() {
        return false;
    }
    let r = chars_occur_at(s, p, s.len() - p.len());
    assert(s@.subrange(s.len() - p.len(), s.len() as int) == s@.skip(s.len() - p.len()));
    r
}

/// Whether `p` occurs anywhere in `s`.
pub fn chars_contains(s: &[char], p: &[char]) -> (b: bool)
    ensures
        b == contains_seq(s@, p@),
{
    if p.len() > s.len() {
        proof {
            assert forall|i: int| !occurs_at(s@, p@, i) by {}
        }
        return false;
    }
    let limit = s.len() - p.len();
    let mut i: usize = 0;
    loop
        invariant_except_break
            p.len() <= s.len(),
            limit == s.len() - p.len(),
            i <= limit,
            forall|k: int| 0 <= k < i ==> !occurs_at(s@, p@, k),
        ensures
            forall|k: int| 0 <= k <= limit ==> !occurs_at(s@, p@, k),
        decreases limit - i,
    {
        if chars_occur_at(s, p, i) {
            return true;
        }
        if i == limit {
            break;
        }
        i += 1;
    }
    proof {
        assert forall|k: int| !occurs_at(s@, p@, k) by {
            if 0 <= k <= limit {
            }
        }
    }
    false
}

/// Whether the string contains the pattern.
pub fn str_contains(s: &str, p: &str) -> (b: bool)
    ensures
        b == contains_seq(s@, p@),
{
    let x = chars_of(s);
    let y = chars_of(p);
    chars_contains(x.as_slice(), y.as_slice())
}

/// Whether the string contains the character.
pub fn chars_contain_char(s: &[char], c: char) -> (b: bool)
    ensures
        b == s@.contains(c),
{
    let mut i: usize = 0;
    while i < s.len()
        invariant
            i <= s.len(),
            forall|k: int| 0 <= k < i ==> s@[k] != c,
        decreases s.len() - i,
    {
        if s[i] == c {
            assert(s@[i as int] == c);
            return true;
        }
        i += 1;
    }
    false
}

/// Appends the characters of `t` to the string `s`.
pub fn push_chars(s: &mut String, t: &[char])
    ensures
        final(s)@ == old(s)@ + t@,
{
    let mut i: usize = 0;
    while i < t.len()
        invariant
            i <= t.len(),
            s@ == old(s)@ + t@.take(i as int),
        decreases t.len() - i,
    {
        push_char(s, t[i]);
        assert(t@.take(i + 1) == t@.take(i as int).push(t@[i as int]));
        i += 1;
    }
    assert(t@.take(t.len() as int) == t@);
}

/// Appends `t` to the string `s`.
pub fn push_str(s: &mut String, t: &str)
    ensures
        final(s)@ == old(s)@ + t@,
{
    let c = chars_of(t);
    push_chars(s, c.as_slice());
}

/// An owned copy of a string slice.
pub fn to_owned(s: &str) -> (out: String)
    ensures
        out@ == s@,
{
    let mut out = String::new();
    push_str(&mut out, s);
    out
}

} // verus!

verus! {

/// Finished words and the word in progress after scanning `s` left to right.
pub open spec fn words_state(s: Seq<char>) -> (Seq<Seq<char>>, Seq<char>)
    decreases s.len(),
{
    if s.len() == 0 {
        (Seq::empty(), Seq::empty())
    } else {
        let (acc, cur) = words_state(s.drop_last());
        let c = s.last();
        if is_ws(c) {
            if cur.len() > 0 {
                (acc.push(cur), Seq::empty())
            } else {
                (acc, cur)
            }
        } else {
            (acc, cur.push(c))
        }
    }
}

/// `str::split_whitespace`: the maximal runs of non-whitespace characters.
pub open spec fn split_ws(s: Seq<char>) -> Seq<Seq<char>> {
    let (acc, cur) = words_state(s);
    if cur.len() > 0 {
        acc.push(cur)
    } else {
        acc
    }
}

/// Views of a vector of character vectors.
pub open spec fn char_vecs_view(v: Seq<Vec<char>>) -> Seq<Seq<char>> {
    v.map_values(|w: Vec<char>| w@)
}

/// Views of a vector of strings.
pub open spec fn strings_view(v: Seq<String>) -> Seq<Seq<char>> {
    v.map_values(|w: String| w@)
}

/// The whitespace-separated words of `s`.
pub fn split_whitespace_chars(s: &[char]) -> (out: Vec<Vec<char>>)
    ensures
        char_vecs_view(out@) == split_ws(s@),
{
    let mut acc: Vec<Vec<char>> = Vec::new();
    let mut cur: Vec<char> = Vec::new();
    let mut i: usize = 0;
    while i < s.len()
        invariant
            i <= s.len(),
            (char_vecs_view(acc@), cur@) == words_state(s@.take(i as int)),
        decreases s.len() - i,
    {
        assert(s@.take(i + 1).drop_last() == s@.take(i as int));
        let c = s[i];
        if char_is_ws(c) {
            if cur.len() > 0 {
                let w = cur;
                cur = Vec::new();
                acc.push(w);
                assert(char_vecs_view(acc@) == char_vecs_view(acc@.drop_last()).push(w@));
            }
        } else {
            cur.push(c);
        }
        i += 1;
    }
    assert(s@.take(s.len() as int) == s@);
    if cur.len() > 0 {
        let w = cur;
        acc.push(w);
        assert(char_vecs_view(acc@) == char_vecs_view(acc@.drop_last()).push(w@));
    }
    acc
}

/// `sep`-separated concatenation of `parts` (`[T]::join`).
pub open spec fn join(parts: Seq<Seq<char>>, sep: Seq<char>) -> Seq<char>
    decreases parts.len(),
{
    if parts.len() == 0 {
        Seq::empty()
    } else if parts.len() == 1 {
        parts[0]
    } else {
        join(parts.drop_last(), sep) + sep + parts.last()
    }
}

/// Joins character vectors with a separator.
pub fn join_chars(parts: &Vec<Vec<char>>, sep: &[char]) -> (out: Vec<char>)
    ensures
        out@ == join(char_vecs_view(parts@), sep@),
{
    let mut out: Vec<char> = Vec::new();
    let mut i: usize = 0;
    while i < parts.len()
        invariant
            i <= parts.len(),
            out@ == join(char_vecs_view(parts@.take(i as int)), sep@),
        decreases parts.len() - i,
    {
        let ghost before = out@;
        assert(char_vecs_view(parts@.take(i + 1)).drop_last() == char_vecs_view(parts@.take(i as int)));
        assert(char_vecs_view(parts@.take(i + 1)).last() == parts@[i as int]@);
        if i > 0 {
            let mut k: usize = 0;
            while k < sep.len()
                invariant
                    k <= sep.len(),
                    out@ == before + sep@.take(k as int),
                decreases sep.len() - k,
            {
                out.push(sep[k]);
                assert(sep@.take(k + 1) == sep@.take(k as int).push(sep@[k as int]));
                k += 1;
            }
            assert(sep@.take(sep.len() as int) == sep@);
        }
        let ghost mid = out@;
        let part = &parts[i];
        let mut k: usize = 0;
        while k < part.len()
            invariant
                k <= part.len(),
                out@ == mid + part@.take(k as int),
            decreases part.len() - k,
        {
            out.push(part[k]);
            assert(part@.take(k + 1) == part@.take(k as int).push(part@[k as int]));
            k += 1;
        }
        assert(part@.take(part.len() as int) == part@);
        proof {
            if i == 0 {
                assert(char_vecs_view(parts@.take(1)).len() == 1);
                assert(before == Seq::<char>::empty());
                assert(out@ == part@);
            }
        }
        i += 1;
    }
    assert(parts@.take(parts.len() as int) == parts@);
    out
}

/// Joins strings with a separator.
pub fn join_strings(parts: &Vec<String>, sep: &str) -> (out: String)
    ensures
        out@ == join(strings_view(parts@), sep@),
{
    let mut cv: Vec<Vec<char>> = Vec::new();
    let mut i: usize = 0;
    while i < parts.len()
        invariant
            i <= parts.len(),
            char_vecs_view(cv@) == strings_view(parts@.take(i as int)),
        decreases parts.len() - i,
    {
        let c = chars_of(parts[i].as_str());
        cv.push(c);
        assert(strings_view(parts@.take(i + 1)) == strings_view(parts@.take(i as int)).push(parts@[i as int]@));
        assert(char_vecs_view(cv@) == char_vecs_view(cv@.drop_last()).push(c@));
        i += 1;
    }
    assert(parts@.take(parts.len() as int) == parts@);
    let s = chars_of(sep);
    let j = join_chars(&cv, s.as_slice());
    string_from_chars(j.as_slice())
}

/// Lines of `s` after the last line break and the completed lines before it, for `str::lines`.
pub open spec fn lines_state(s: Seq<char>) -> (Seq<Seq<char>>, Seq<char>)
    decreases s.len(),
{
    if s.len() == 0 {
        (Seq::empty(), Seq::empty())
    } else {
        let (acc, cur) = lines_state(s.drop_last());
        let c = s.last();
        if c == '\n' {
            (acc.push(strip_cr(cur)), Seq::empty())
        } else {
            (acc, cur.push(c))
        }
    }
}

/// A line without its trailing carriage return.
pub open spec fn strip_cr(line: Seq<char>) -> Seq<char> {
    if line.len() > 0 && line.last() == '\r' {
        line.drop_last()
    } else {
        line
    }
}

/// `str::lines`: split at `\n`, drop a `\r` before it, no empty last line.
pub open spec fn lines(s: Seq<char>) -> Seq<Seq<char>> {
    let (acc, cur) = lines_state(s);
    if cur.len() > 0 {
        acc.push(cur)
    } else {
        acc
    }
}

fn strip_cr_vec(line: Vec<char>) -> (out: Vec<char>)
    ensures
        out@ == strip_cr(line@),
{
    let mut line = line;
    if line.len() > 0 && line[line.len() - 1] == '\r' {
        line.pop();
    }
    line
}

/// The lines of `s` (`str::lines`).
pub fn lines_chars(s: &[char]) -> (out: Vec<Vec<char>>)
    ensures
        char_vecs_view(out@) == lines(s@),
{
    let mut acc: Vec<Vec<char>> = Vec::new();
    let mut cur: Vec<char> = Vec::new();
    let mut i: usize = 0;
    while i < s.len()
        invariant
            i <= s.len(),
            (char_vecs_view(acc@), cur@) == lines_state(s@.take(i as int)),
        decreases s.len() - i,
    {
        assert(s@.take(i + 1).drop_last() == s@.take(i as int));
        let c = s[i];
        if c == '\n' {
            let w = strip_cr_vec(cur);
            cur = Vec::new();
            acc.push(w);
            assert(char_vecs_view(acc@) == char_vecs_view(acc@.drop_last()).push(w@));
        } else {
            cur.push(c);
        }
        i += 1;
    }
    assert(s@.take(s.len() as int) == s@);
    if cur.len() > 0 {
        let w = cur;
        acc.push(w);
        assert(char_vecs_view(acc@) == char_vecs_view(acc@.drop_last()).push(w@));
    }
    acc
}

/// The decimal digit for `d < 10`.
pub open spec fn digit_char(d: nat) -> char {
    (('0' as u32) + d) as char
}

/// Decimal representation of a natural number, without leading zeros.
pub open spec fn decimal(n: nat) -> Seq<char>
    decreases n,
{
    if n < 10 {
        seq![digit_char(n)]
    } else {
        decimal(n / 10).push(digit_char(n % 10))
    }
}

fn digit(d: u64) -> (c: char)
    requires
        d < 10,
    ensures
        c == digit_char(d as nat),
{
    let b: u8 = d as u8;
    (b + 48) as char
}

/// Decimal representation of `n` (`u64::to_string`).
pub fn u64_decimal_chars(n: u64) -> (out: Vec<char>)
    ensures
        out@ == decimal(n as nat),
    decreases n,
{
    if n < 10 {
        let mut v: Vec<char> = Vec::new();
        v.push(digit(n));
        assert(v@ == seq![digit_char(n as nat)]);
        v
    } else {
        let mut v = u64_decimal_chars(n / 10);
        v.push(digit(n % 10));
        v
    }
}

/// `u64::to_string`.
pub fn u64_to_string(n: u64) -> (out: String)
    ensures
        out@ == decimal(n as nat),
{
    let v = u64_decimal_chars(n);
    string_from_chars(v.as_slice())
}

/// Decimal representation of an integer, with a leading `-` when negative.
pub open spec fn signed_decimal(n: int) -> Seq<char> {
    if n < 0 {
        seq!['-'] + decimal((-n) as nat)
    } else {
        decimal(n as nat)
    }
}

/// `i64::to_string`.
pub fn i64_to_string(n: i64) -> (out: String)
    ensures
        out@ == signed_decimal(n as int),
{
    if n < 0 {
        let m: u64 = if n == i64::MIN {
            9223372036854775808u64
        } else {
            (-n) as u64
        };
        let mut out = String::new();
        push_char(&mut out, '-');
        let d = u64_decimal_chars(m);
        push_chars(&mut out, d.as_slice());
        out
    } else {
        u64_to_string(n as u64)
    }
}

/// Lexicographic order of character sequences by code point (`String`'s `Ord`).
pub open spec fn chars_lt(a: Seq<char>, b: Seq<char>) -> bool
    decreases a.len(),
{
    if a.len() == 0 {
        b.len() > 0
    } else if b.len() == 0 {
        false
    } else if a[0] != b[0] {
        (a[0] as u32) < (b[0] as u32)
    } else {
        chars_lt(a.drop_first(), b.drop_first())
    }
}

/// Whether `a` orders before `b`.
pub fn str_lt(a: &str, b: &str) -> (lt: bool)
    ensures
        lt == chars_lt(a@, b@),
{
    let x = chars_of(a);
    let y = chars_of(b);
    let mut i: usize = 0;
    assert(x@.skip(0) == x@);
    assert(y@.skip(0) == y@);
    while i < x.len() && i < y.len() && x[i] == y[i]
        invariant
            i <= x.len(),
            i <= y.len(),
            chars_lt(x@.skip(i as int), y@.skip(i as int)) == chars_lt(x@, y@),
        decreases x.len() - i,
    {
        assert(x@.skip(i as int).drop_first() == x@.skip(i + 1));
        assert(y@.skip(i as int).drop_first() == y@.skip(i + 1));
        i += 1;
    }
    if i == x.len() {
        i < y.len()
    } else if i == y.len() {
        false
    } else {
        assert(x@.skip(i as int)[0] == x@[i as int]);
        assert(y@.skip(i as int)[0] == y@[i as int]);
        (x[i] as u32) < (y[i] as u32)
    }
}

} // verus!

verus! {

/// First position at or after `i` where `p` occurs in `s`, or -1.
pub open spec fn find_from(s: Seq<char>, p: Seq<char>, i: int) -> int
    decreases s.len() + 1 - i,
{
    if i < 0 || i + p.len() > s.len() {
        -1
    } else if occurs_at(s, p, i) {
        i
    } else {
        find_from(s, p, i + 1)
    }
}

/// First position where `p` occurs in `s`, or -1 (`str::find`).
pub open spec fn first_occurrence(s: Seq<char>, p: Seq<char>) -> int {
    find_from(s, p, 0)
}

pub proof fn lemma_find_from(s: Seq<char>, p: Seq<char>, i: int)
    requires
        0 <= i,
    ensures
        find_from(s, p, i) == -1 || (i <= find_from(s, p, i) && occurs_at(s, p, find_from(s, p, i))),
        forall|k: int|
            i <= k && (find_from(s, p, i) == -1 || k < find_from(s, p, i)) ==> !#[trigger] occurs_at(
                s,
                p,
                k,
            ),
    decreases s.len() + 1 - i,
{
    if i + p.len() <= s.len() && !occurs_at(s, p, i) {
        lemma_find_from(s, p, i + 1);
    }
}

/// Position of the first occurrence of `p` in `s`.
pub fn chars_find(s: &[char], p: &[char]) -> (out: Option<usize>)
    ensures
        match out {
            Some(k) => k as int == first_occurrence(s@, p@),
            None => first_occurrence(s@, p@) == -1,
        },
{
    if p.len() > s.len() {
        return None;
    }
    let limit = s.len() - p.len();
    let mut i: usize = 0;
    loop
        invariant_except_break
            p.len() <= s.len(),
            limit == s.len() - p.len(),
            i <= limit,
            find_from(s@, p@, i as int) == first_occurrence(s@, p@),
        ensures
            find_from(s@, p@, limit + 1) == first_occurrence(s@, p@),
        decreases limit - i,
    {
        if chars_occur_at(s, p, i) {
            return Some(i);
        }
        if i == limit {
            break;
        }
        i += 1;
    }
    None
}

/// Position of the first occurrence of the character `c` in `s`, or -1.
pub open spec fn find_char_from(s: Seq<char>, c: char, i: int) -> int
    decreases s.len() - i,
{
    if i < 0 || i >= s.len() {
        -1
    } else if s[i] == c {
        i
    } else {
        find_char_from(s, c, i + 1)
    }
}

pub proof fn lemma_find_char_from(s: Seq<char>, c: char, i: int)
    requires
        0 <= i,
    ensures
        find_char_from(s, c, i) == -1 || (i <= find_char_from(s, c, i) < s.len() && s[find_char_from(
            s,
            c,
            i,
        )] == c),
        forall|k: int|
            i <= k < s.len() && (find_char_from(s, c, i) == -1 || k < find_char_from(s, c, i))
                ==> #[trigger] s[k] != c,
    decreases s.len() - i,
{
    if i < s.len() && s[i] != c {
        lemma_find_char_from(s, c, i + 1);
    }
}

/// Position of the first `c` in `s`.
pub fn chars_find_char(s: &[char], c: char) -> (out: Option<usize>)
    ensures
        match out {
            Some(k) => k as int == find_char_from(s@, c, 0) && k < s@.len(),
            None => find_char_from(s@, c, 0) == -1,
        },
{
    let mut i: usize = 0;
    while i < s.len()
        invariant
            i <= s.len(),
            find_char_from(s@, c, i as int) == find_char_from(s@, c, 0),
        decreases s.len() - i,
    {
        if s[i] == c {
            return Some(i);
        }
        i += 1;
    }
    None
}

/// `s` with each `\r\n` turned into `\n` (`str::replace("\r\n", "\n")`).
pub open spec fn replace_crlf(s: Seq<char>) -> Seq<char>
    decreases s.len(),
{
    if s.len() < 2 {
        s
    } else if s[0] == '\r' && s[1] == '\n' {
        seq!['\n'] + replace_crlf(s.skip(2))
    } else {
        seq![s[0]] + replace_crlf(s.skip(1))
    }
}

/// Turns every `\r\n` into `\n`.
pub fn replace_crlf_chars(s: &[char]) -> (out: Vec<char>)
    ensures
        out@ == replace_crlf(s@),
{
    let mut out: Vec<char> = Vec::new();
    let mut i: usize = 0;
    assert(s@.skip(0) == s@);
    while i < s.len()
        invariant
            i <= s.len(),
            out@ + replace_crlf(s@.skip(i as int)) == replace_crlf(s@),
        decreases s.len() - i,
    {
        let ghost rest = s@.skip(i as int);
        if i + 1 < s.len() && s[i] == '\r' && s[i + 1] == '\n' {
            assert(rest[0] == '\r' && rest[1] == '\n');
            assert(rest.skip(2) == s@.skip(i + 2));
            out.push('\n');
            assert(out@ + replace_crlf(s@.skip(i + 2)) =~= replace_crlf(s@));
            i += 2;
        } else {
            assert(rest.skip(1) == s@.skip(i + 1));
            assert(rest[0] == s@[i as int]);
            out.push(s[i]);
            proof {
                if rest.len() < 2 {
                    assert(rest =~= seq![s@[i as int]]);
                    assert(s@.skip(i + 1) =~= Seq::<char>::empty());
                }
            }
            assert(out@ + replace_crlf(s@.skip(i + 1)) =~= replace_crlf(s@));
            i += 1;
        }
    }
    assert(s@.skip(s.len() as int) =~= Seq::<char>::empty());
    assert(out@ + Seq::<char>::empty() == out@);
    out
}

/// The characters from `from` up to `to` of `s`.
pub fn sub_chars(s: &[char], from: usize, to: usize) -> (out: Vec<char>)
    requires
        from <= to <= s@.len(),
    ensures
        out@ == s@.subrange(from as int, to as int),
{
    let mut out: Vec<char> = Vec::new();
    let mut k: usize = from;
    while k < to
        invariant
            from <= k <= to <= s.len(),
            out@ == s@.subrange(from as int, k as int),
        decreases to - k,
    {
        out.push(s[k]);
        assert(s@.subrange(from as int, k + 1) == s@.subrange(from as int, k as int).push(s@[k as int]));
        k += 1;
    }
    out
}

} // verus!

verus! {

/// `str::trim_end`, as an owned string.
pub fn trim_end_str(s: &str) -> (out: String)
    ensures
        out@ == trim_end(s@),
{
    let chars = chars_of(s);
    let mut j: usize = chars.len();
    while j > 0 && char_is_ws(chars[j - 1])
        invariant
            j <= chars.len(),
            ws_suffix_start(chars@, j as int) == ws_suffix_start(chars@, chars@.len() as int),
        decreases j,
    {
        j -= 1;
    }
    let kept = sub_chars(chars.as_slice(), 0, j);
    assert(kept@ =~= chars@.take(j as int));
    string_from_chars(kept.as_slice())
}

} // verus!

verus! {

/// No sequence orders before itself.
pub proof fn lemma_chars_lt_irreflexive(a: Seq<char>)
    ensures
        !chars_lt(a, a),
    decreases a.len(),
{
    if a.len() > 0 {
        lemma_chars_lt_irreflexive(a.drop_first());
    }
}

/// Of two different sequences, exactly one orders before the other.
pub proof fn lemma_chars_lt_total(a: Seq<char>, b: Seq<char>)
    ensures
        a != b ==> (chars_lt(a, b) || chars_lt(b, a)),
        !(chars_lt(a, b) && chars_lt(b, a)),
    decreases a.len(),
{
    if a.len() > 0 && b.len() > 0 && a[0] == b[0] {
        lemma_chars_lt_total(a.drop_first(), b.drop_first());
        if a.drop_first() == b.drop_first() {
            assert(a =~= seq![a[0]] + a.drop_first());
            assert(b =~= seq![b[0]] + b.drop_first());
            assert(a == b);
        }
    } else if a.len() > 0 && b.len() > 0 {
        vstd::utf8::char_u32_cast(a[0], a[0] as u32);
        vstd::utf8::char_u32_cast(b[0], b[0] as u32);
    } else if a.len() == 0 && b.len() == 0 {
        assert(a =~= b);
    }
}

/// The order of sequences is transitive.
pub proof fn lemma_chars_lt_transitive(a: Seq<char>, b: Seq<char>, c: Seq<char>)
    requires
        chars_lt(a, b),
        chars_lt(b, c),
    ensures
        chars_lt(a, c),
    decreases a.len(),
{
    if a.len() > 0 && b.len() > 0 && c.len() > 0 && a[0] == b[0] && b[0] == c[0] {
        lemma_chars_lt_transitive(a.drop_first(), b.drop_first(), c.drop_first());
    }
}

} // verus!

verus! {

/// Trimming a trimmed text changes nothing.
pub proof fn lemma_trim_idempotent(s: Seq<char>)
    ensures
        trim(trim(s)) == trim(s),
{
    lemma_ws_prefix_end_bounds(s, 0);
    let ts = trim_start(s);
    lemma_ws_suffix_start_bounds(ts, ts.len() as int);
    let t = trim(s);
    if t.len() > 0 {
        assert(t[0] == ts[0]);
        assert(ts[0] == s[ws_prefix_end(s, 0)]);
        assert(t.last() == ts[ws_suffix_start(ts, ts.len() as int) - 1]);
    }
    lemma_trim_unchanged(t);
}

/// A character lowered to ASCII lower case is unchanged by lowering again,
/// and is whitespace exactly when the character was.
pub proof fn lemma_lower_char(c: char)
    ensures
        lower_char(lower_char(c)) == lower_char(c),
        is_ws(lower_char(c)) == is_ws(c),
{
    if 'A' <= c && c <= 'Z' {
        let l = lower_char(c);
        assert(97 <= (c as u32) + 32 <= 122);
        assert(l as u32 == (c as u32) + 32);
        assert('a' <= l && l <= 'z');
    }
}

/// Trimming and ASCII lowercasing a text that was already trimmed and
/// lowercased changes nothing.
pub proof fn lemma_key_normal_idempotent(x: Seq<char>)
    ensures
        ascii_lower(trim(ascii_lower(trim(x)))) == ascii_lower(trim(x)),
{
    lemma_trim_idempotent(x);
    let t = trim(x);
    let l = ascii_lower(t);
    if t.len() > 0 {
        lemma_trimmed_ends(t);
        lemma_lower_char(t[0]);
        lemma_lower_char(t.last());
        assert(l[0] == lower_char(t[0]));
        assert(l.last() == lower_char(t.last()));
    }
    lemma_trim_unchanged(l);
    assert forall|i: int| 0 <= i < l.len() implies #[trigger] lower_char(l[i]) == l[i] by {
        lemma_lower_char(t[i]);
    }
    assert(ascii_lower(l) =~= l);
}

/// Trimming never lengthens a text.
pub proof fn lemma_trim_len(s: Seq<char>)
    ensures
        trim(s).len() <= s.len(),
{
    lemma_ws_prefix_end_bounds(s, 0);
    let t = trim_start(s);
    lemma_ws_suffix_start_bounds(t, t.len() as int);
}

} // verus!

verus! {

/// A text without whitespace at either end is its own trim.
pub proof fn lemma_trim_unchanged(s: Seq<char>)
    requires
        s.len() == 0 || (!is_ws(s[0]) && !is_ws(s.last())),
    ensures
        trim(s) == s,
{
    assert(ws_prefix_end(s, 0) == 0);
    assert(s.skip(0) =~= s);
    assert(ws_suffix_start(s, s.len() as int) == s.len());
    assert(s.take(s.len() as int) =~= s);
}

/// Whitespace in front of a trimmed text is all that trimming removes.
pub proof fn lemma_trim_after_space(v: Seq<char>)
    requires
        trim(v) == v,
    ensures
        trim(seq![' '] + v) == v,
{
    lemma_trim_after_ws(' ', v);
}

/// A whitespace character in front of a trimmed text is all that trimming removes.
pub proof fn lemma_trim_after_ws(c: char, v: Seq<char>)
    requires
        is_ws(c),
        trim(v) == v,
    ensures
        trim(seq![c] + v) == v,
{
    let s = seq![c] + v;
    assert(s.drop_first() =~= v);
    lemma_ws_prefix_end_bounds(v, 0);
    assert(s[0] == c);
    lemma_ws_prefix_end_from(s, v, c, 0);
    assert(trim_start(s) =~= trim_start(v));
}

proof fn lemma_ws_prefix_end_from(s: Seq<char>, v: Seq<char>, c: char, i: int)
    requires
        s == seq![c] + v,
        0 <= i <= v.len(),
    ensures
        ws_prefix_end(s, i + 1) == ws_prefix_end(v, i) + 1,
    decreases v.len() - i,
{
    if i < v.len() {
        assert(s[i + 1] == v[i]);
        if is_ws(v[i]) {
            lemma_ws_prefix_end_from(s, v, c, i + 1);
        }
    }
}

/// A text with no carriage return is left as it is by turning `\r\n` into `\n`.
pub proof fn lemma_replace_crlf_unchanged(s: Seq<char>)
    requires
        forall|i: int| 0 <= i < s.len() ==> s[i] != '\r',
    ensures
        replace_crlf(s) == s,
    decreases s.len(),
{
    if s.len() >= 2 {
        assert(s[0] != '\r');
        lemma_replace_crlf_unchanged(s.skip(1));
        assert(seq![s[0]] + s.skip(1) =~= s);
    }
}

/// `lines` of a text whose last line is still open.
pub proof fn lemma_lines_state_append_line(p: Seq<char>, l: Seq<char>)
    requires
        forall|i: int| 0 <= i < l.len() ==> l[i] != '\n',
    ensures
        lines_state(p + l) == (lines_state(p).0, lines_state(p).1 + l),
    decreases l.len(),
{
    if l.len() == 0 {
        assert(p + l =~= p);
        assert(lines_state(p).1 + l =~= lines_state(p).1);
    } else {
        lemma_lines_state_append_line(p, l.drop_last());
        assert((p + l).drop_last() =~= p + l.drop_last());
        assert((p + l).last() == l.last());
        assert(lines_state(p).1 + l =~= (lines_state(p).1 + l.drop_last()).push(l.last()));
    }
}

/// `str::lines` of lines joined by `\n`: the same lines, when none holds a
/// line break, none ends with a carriage return, and the last is not empty.
pub proof fn lemma_lines_of_joined(ls: Seq<Seq<char>>)
    requires
        ls.len() > 0,
        ls.last().len() > 0,
        forall|k: int, i: int| 0 <= k < ls.len() && 0 <= i < ls[k].len() ==> #[trigger] ls[k][i] != '\n',
        forall|k: int| 0 <= k < ls.len() && (#[trigger] ls[k]).len() > 0 ==> ls[k].last() != '\r',
    ensures
        lines(join(ls, "\n"@)) == ls,
{
    lemma_lines_state_of_joined(ls);
}

proof fn lemma_lines_state_of_joined(ls: Seq<Seq<char>>)
    requires
        ls.len() > 0,
        forall|k: int, i: int| 0 <= k < ls.len() && 0 <= i < ls[k].len() ==> #[trigger] ls[k][i] != '\n',
        forall|k: int| 0 <= k < ls.len() && (#[trigger] ls[k]).len() > 0 ==> ls[k].last() != '\r',
    ensures
        lines_state(join(ls, "\n"@)) == (ls.drop_last(), ls.last()),
    decreases ls.len(),
{
    reveal_strlit("\n");
    let last = ls.last();
    assert forall|i: int| 0 <= i < last.len() implies last[i] != '\n' by {
        assert(ls[ls.len() - 1][i] != '\n');
    }
    if ls.len() == 1 {
        lemma_lines_state_append_line(Seq::empty(), last);
        assert(Seq::<char>::empty() + last =~= last);
        assert(Seq::<char>::empty() + last =~= last);
        assert(ls.drop_last() =~= Seq::<Seq<char>>::empty());
    } else {
        let init = ls.drop_last();
        assert forall|k: int, i: int| 0 <= k < init.len() && 0 <= i < init[k].len() implies #[trigger] init[k][i] != '\n' by {
            assert(init[k] == ls[k]);
        }
        assert forall|k: int| 0 <= k < init.len() && (#[trigger] init[k]).len() > 0 implies init[k].last() != '\r' by {
            assert(init[k] == ls[k]);
        }
        lemma_lines_state_of_joined(init);
        let j = join(init, "\n"@);
        let jn = j + "\n"@;
        assert(jn.drop_last() =~= j);
        assert(jn.last() == '\n');
        assert(lines_state(jn) == (init.drop_last().push(strip_cr(init.last())), Seq::<char>::empty()));
        assert(strip_cr(init.last()) == init.last()) by {
            assert(init.last() == ls[ls.len() - 2]);
        }
        assert(init.drop_last().push(init.last()) =~= init);
        lemma_lines_state_append_line(jn, last);
        assert(join(ls, "\n"@) == jn + last);
        assert(Seq::<char>::empty() + last =~= last);
    }
}

} // verus!

verus! {

proof fn lemma_words_state_append_word(p: Seq<char>, w: Seq<char>)
    requires
        forall|i: int| 0 <= i < w.len() ==> !is_ws(#[trigger] w[i]),
    ensures
        words_state(p + w) == (words_state(p).0, words_state(p).1 + w),
    decreases w.len(),
{
    if w.len() == 0 {
        assert(p + w =~= p);
        assert(words_state(p).1 + w =~= words_state(p).1);
    } else {
        lemma_words_state_append_word(p, w.drop_last());
        assert((p + w).drop_last() =~= p + w.drop_last());
        assert((p + w).last() == w.last());
        assert(words_state(p).1 + w =~= (words_state(p).1 + w.drop_last()).push(w.last()));
    }
}

proof fn lemma_words_state_of_joined(ws: Seq<Seq<char>>)
    requires
        ws.len() > 0,
        forall|k: int| 0 <= k < ws.len() ==> (#[trigger] ws[k]).len() > 0,
        forall|k: int, i: int| 0 <= k < ws.len() && 0 <= i < ws[k].len() ==> !is_ws(#[trigger] ws[k][i]),
    ensures
        words_state(join(ws, " "@)) == (ws.drop_last(), ws.last()),
    decreases ws.len(),
{
    reveal_strlit(" ");
    let last = ws.last();
    assert forall|i: int| 0 <= i < last.len() implies !is_ws(#[trigger] last[i]) by {
        assert(!is_ws(ws[ws.len() - 1][i]));
    }
    if ws.len() == 1 {
        lemma_words_state_append_word(Seq::empty(), last);
        assert(Seq::<char>::empty() + last =~= last);
        assert(ws.drop_last() =~= Seq::<Seq<char>>::empty());
    } else {
        let init = ws.drop_last();
        assert forall|k: int| 0 <= k < init.len() implies (#[trigger] init[k]).len() > 0 by {
            assert(init[k] == ws[k]);
        }
        assert forall|k: int, i: int| 0 <= k < init.len() && 0 <= i < init[k].len() implies !is_ws(#[trigger] init[k][i]) by {
            assert(init[k] == ws[k]);
        }
        lemma_words_state_of_joined(init);
        let j = join(init, " "@);
        let js = j + " "@;
        assert(js.drop_last() =~= j);
        assert(js.last() == ' ');
        assert(init.last().len() > 0) by {
            assert(init.last() == ws[ws.len() - 2]);
        }
        assert(init.drop_last().push(init.last()) =~= init);
        lemma_words_state_append_word(js, last);
        assert(join(ws, " "@) == js + last);
        assert(Seq::<char>::empty() + last =~= last);
    }
}

/// The words of words joined by single spaces are those words, when none is
/// empty or holds whitespace.
pub proof fn lemma_split_joined_words(ws: Seq<Seq<char>>)
    requires
        forall|k: int| 0 <= k < ws.len() ==> (#[trigger] ws[k]).len() > 0,
        forall|k: int, i: int| 0 <= k < ws.len() && 0 <= i < ws[k].len() ==> !is_ws(#[trigger] ws[k][i]),
    ensures
        split_ws(join(ws, " "@)) == ws,
{
    if ws.len() == 0 {
        assert(words_state(Seq::<char>::empty()) == (Seq::<Seq<char>>::empty(), Seq::<char>::empty()));
    } else {
        lemma_words_state_of_joined(ws);
        assert(ws.last() == ws[ws.len() - 1]);
        assert(ws.drop_last().push(ws.last()) =~= ws);
    }
}

} // verus!

verus! {

/// A non-empty trimmed text starts and ends with a character that is not whitespace.
pub proof fn lemma_trimmed_ends(s: Seq<char>)
    requires
        trim(s) == s,
        s.len() > 0,
    ensures
        !is_ws(s[0]),
        !is_ws(s.last()),
{
    lemma_ws_prefix_end_bounds(s, 0);
    let t = trim_start(s);
    lemma_ws_suffix_start_bounds(t, t.len() as int);
    if is_ws(s[0]) {
        assert(ws_prefix_end(s, 0) >= 1);
    }
    if is_ws(s.last()) {
        if ws_prefix_end(s, 0) == 0 {
            assert(t =~= s);
            assert(is_ws(t[t.len() - 1]));
            assert(ws_suffix_start(t, t.len() as int) < t.len());
        }
    }
}

/// Trimming a text that is made of a part without whitespace at its ends,
/// followed by whitespace, gives that part.
pub proof fn lemma_trim_ws_tail(x: Seq<char>, tail: Seq<char>)
    requires
        x.len() > 0,
        !is_ws(x[0]),
        !is_ws(x.last()),
        forall|i: int| 0 <= i < tail.len() ==> is_ws(#[trigger] tail[i]),
    ensures
        trim(x + tail) == x,
{
    let s = x + tail;
    assert(ws_prefix_end(s, 0) == 0);
    assert(s.skip(0) =~= s);
    lemma_ws_suffix_tail(s, x.len() as int, s.len() as int);
    assert(s.take(x.len() as int) =~= x);
}

proof fn lemma_ws_suffix_tail(s: Seq<char>, n: int, j: int)
    requires
        0 < n <= j <= s.len(),
        !is_ws(s[n - 1]),
        forall|i: int| n <= i < s.len() ==> is_ws(#[trigger] s[i]),
    ensures
        ws_suffix_start(s, j) == n,
    decreases j,
{
    if j > n {
        lemma_ws_suffix_tail(s, n, j - 1);
    }
}

/// After a text whose last line is closed, the lines of what follows are added as they are.
pub proof fn lemma_lines_state_concat(a: Seq<char>, q: Seq<char>)
    requires
        lines_state(a).1.len() == 0,
    ensures
        lines_state(a + q) == (lines_state(a).0 + lines_state(q).0, lines_state(q).1),
    decreases q.len(),
{
    if q.len() == 0 {
        assert(a + q =~= a);
        assert(lines_state(a).0 + Seq::<Seq<char>>::empty() =~= lines_state(a).0);
    } else {
        lemma_lines_state_concat(a, q.drop_last());
        assert((a + q).drop_last() =~= a + q.drop_last());
        assert((a + q).last() == q.last());
        let (qa, qc) = lines_state(q.drop_last());
        if q.last() == '\n' {
            assert(lines_state(a).0 + qa.push(strip_cr(qc)) =~= (lines_state(a).0 + qa).push(strip_cr(qc)));
        }
    }
}

/// The closed lines and the open line of a text, joined by line breaks, give
/// back the text when it holds no carriage return.
proof fn lemma_join_lines_state(s: Seq<char>)
    requires
        forall|i: int| 0 <= i < s.len() ==> s[i] != '\r',
    ensures
        join(lines_state(s).0.push(lines_state(s).1), "\n"@) == s,
    decreases s.len(),
{
    reveal_strlit("\n");
    if s.len() == 0 {
        assert(lines_state(s).0.push(lines_state(s).1) =~= seq![Seq::<char>::empty()]);
    } else {
        let p = s.drop_last();
        lemma_join_lines_state(p);
        let (acc, cur) = lines_state(p);
        let c = s.last();
        if c == '\n' {
            assert(cur.len() == 0 || cur.last() != '\r') by {
                if cur.len() > 0 {
                    lemma_lines_state_cur_suffix(p);
                }
            }
            assert(strip_cr(cur) == cur);
            let l2 = acc.push(cur).push(Seq::<char>::empty());
            assert(l2.drop_last() =~= acc.push(cur));
            assert(join(l2, "\n"@) == join(acc.push(cur), "\n"@) + "\n"@ + Seq::<char>::empty());
            assert(s =~= p + "\n"@ + Seq::<char>::empty());
        } else {
            let l2 = acc.push(cur.push(c));
            if acc.len() == 0 {
                assert(l2 =~= seq![cur.push(c)]);
                assert(acc.push(cur) =~= seq![cur]);
                assert(s =~= p.push(c));
            } else {
                assert(l2.drop_last() =~= acc);
                assert(acc.push(cur).drop_last() =~= acc);
                assert(join(l2, "\n"@) =~= join(acc.push(cur), "\n"@).push(c));
                assert(s =~= p.push(c));
            }
        }
    }
}

/// The open line of a text is a suffix of it.
proof fn lemma_lines_state_cur_suffix(s: Seq<char>)
    requires
        lines_state(s).1.len() > 0,
    ensures
        lines_state(s).1.last() == s.last(),
    decreases s.len(),
{
}

/// A text without carriage returns that does not end with a line break is
/// its lines joined by line breaks.
pub proof fn lemma_join_of_lines(s: Seq<char>)
    requires
        s.len() > 0,
        s.last() != '\n',
        forall|i: int| 0 <= i < s.len() ==> s[i] != '\r',
    ensures
        join(lines(s), "\n"@) == s,
        lines(s).len() > 0,
{
    lemma_join_lines_state(s);
    let (acc, cur) = lines_state(s);
    assert(cur == lines_state(s.drop_last()).1.push(s.last()));
}

/// Lines joined after an empty first line are a line break and the rest joined.
pub proof fn lemma_join_after_empty(ls: Seq<Seq<char>>)
    requires
        ls.len() > 0,
    ensures
        join(seq![Seq::<char>::empty()] + ls, "\n"@) == "\n"@ + join(ls, "\n"@),
    decreases ls.len(),
{
    let l2 = seq![Seq::<char>::empty()] + ls;
    if ls.len() == 1 {
        assert(l2.drop_last() =~= seq![Seq::<char>::empty()]);
        assert(join(seq![Seq::<char>::empty()], "\n"@) == Seq::<char>::empty());
        assert(Seq::<char>::empty() + "\n"@ + ls.last() =~= "\n"@ + ls[0]);
    } else {
        lemma_join_after_empty(ls.drop_last());
        assert(l2.drop_last() =~= seq![Seq::<char>::empty()] + ls.drop_last());
        assert(l2.last() == ls.last());
        assert(("\n"@ + join(ls.drop_last(), "\n"@)) + "\n"@ + ls.last() =~= "\n"@ + (join(
            ls.drop_last(),
            "\n"@,
        ) + "\n"@ + ls.last()));
    }
}

/// In lines joined by line breaks, each break is followed by the first
/// character of a non-empty line.
pub proof fn lemma_joined_breaks(ls: Seq<Seq<char>>, i: int)
    requires
        forall|k: int| 0 <= k < ls.len() ==> (#[trigger] ls[k]).len() > 0,
        forall|k: int, j: int| 0 <= k < ls.len() && 0 <= j < ls[k].len() ==> #[trigger] ls[k][j] != '\n',
        0 <= i < join(ls, "\n"@).len(),
        join(ls, "\n"@)[i] == '\n',
    ensures
        i + 1 < join(ls, "\n"@).len(),
        exists|k: int| 0 <= k < ls.len() && join(ls, "\n"@)[i + 1] == (#[trigger] ls[k])[0],
    decreases ls.len(),
{
    reveal_strlit("\n");
    if ls.len() == 1 {
        assert(join(ls, "\n"@) == ls[0]);
        assert(ls[0][i] != '\n');
    } else {
        let init = ls.drop_last();
        let j = join(init, "\n"@);
        let last = ls.last();
        assert(join(ls, "\n"@) == j + "\n"@ + last);
        if i < j.len() {
            assert forall|k: int| 0 <= k < init.len() implies (#[trigger] init[k]).len() > 0 by {
                assert(init[k] == ls[k]);
            }
            assert forall|k: int, m: int| 0 <= k < init.len() && 0 <= m < init[k].len() implies #[trigger] init[k][m] != '\n' by {
                assert(init[k] == ls[k]);
            }
            assert(j[i] == '\n');
            lemma_joined_breaks(init, i);
            let k = choose|k: int| 0 <= k < init.len() && j[i + 1] == (#[trigger] init[k])[0];
            assert(init[k] == ls[k]);
        } else if i == j.len() {
            assert(join(ls, "\n"@)[i + 1] == last[0]);
            assert(ls[ls.len() - 1] == last);
        } else {
            assert(last[i - j.len() - 1] != '\n') by {
                assert(ls[ls.len() - 1] == last);
            }
        }
    }
}

} // verus!

verus! {

/// Every character of words joined by a separator comes from a word or from the separator.
pub proof fn lemma_join_char_source(ws: Seq<Seq<char>>, sep: Seq<char>, i: int)
    requires
        0 <= i < join(ws, sep).len(),
    ensures
        (exists|k: int, j: int| 0 <= k < ws.len() && 0 <= j < ws[k].len() && #[trigger] ws[k][j] == join(ws, sep)[i])
            || (exists|j: int| 0 <= j < sep.len() && #[trigger] sep[j] == join(ws, sep)[i]),
    decreases ws.len(),
{
    if ws.len() == 1 {
        assert(ws[0][i] == join(ws, sep)[i]);
    } else if ws.len() > 1 {
        let init = ws.drop_last();
        let j0 = join(init, sep);
        let s = join(ws, sep);
        assert(s == j0 + sep + ws.last());
        if i < j0.len() {
            lemma_join_char_source(init, sep, i);
            if exists|k: int, j: int| 0 <= k < init.len() && 0 <= j < init[k].len() && #[trigger] init[k][j] == j0[i] {
                let (k, j) = choose|k: int, j: int| 0 <= k < init.len() && 0 <= j < init[k].len() && #[trigger] init[k][j] == j0[i];
                assert(ws[k][j] == s[i]);
            }
        } else if i < j0.len() + sep.len() {
            assert(sep[i - j0.len()] == s[i]);
        } else {
            assert(ws[ws.len() - 1][i - j0.len() - sep.len()] == s[i]);
        }
    }
}

/// Words without whitespace, joined by spaces, are not followed or preceded by whitespace.
pub proof fn lemma_joined_words_trimmed(ws: Seq<Seq<char>>)
    requires
        forall|k: int| 0 <= k < ws.len() ==> (#[trigger] ws[k]).len() > 0,
        forall|k: int, i: int| 0 <= k < ws.len() && 0 <= i < ws[k].len() ==> !is_ws(#[trigger] ws[k][i]),
    ensures
        trim(join(ws, " "@)) == join(ws, " "@),
    decreases ws.len(),
{
    let s = join(ws, " "@);
    if ws.len() == 0 {
        lemma_trim_unchanged(s);
    } else if ws.len() == 1 {
        assert(s == ws[0]);
        assert(!is_ws(ws[0][0]));
        assert(!is_ws(ws[0][ws[0].len() - 1]));
        lemma_trim_unchanged(s);
    } else {
        let init = ws.drop_last();
        assert(s == join(init, " "@) + " "@ + ws.last());
        lemma_join_first_char(ws);
        assert(s.last() == ws.last().last());
        assert(!is_ws(ws[ws.len() - 1][ws[ws.len() - 1].len() - 1]));
        lemma_trim_unchanged(s);
    }
}

/// Words joined by a separator start with the first word's first character.
pub proof fn lemma_join_first_char(ws: Seq<Seq<char>>)
    requires
        ws.len() > 0,
        ws[0].len() > 0,
    ensures
        join(ws, " "@).len() > 0,
        join(ws, " "@)[0] == ws[0][0],
    decreases ws.len(),
{
    if ws.len() > 1 {
        let init = ws.drop_last();
        assert(init[0] == ws[0]);
        lemma_join_first_char(init);
        assert(join(ws, " "@) == join(init, " "@) + " "@ + ws.last());
    }
}

} // verus!
