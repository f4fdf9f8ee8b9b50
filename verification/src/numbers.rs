use vstd::prelude::*;

verus! {

/// An ASCII decimal digit.
pub open spec fn is_digit(c: char) -> bool {
    '0' <= c && c <= '9'
}

/// The value of a string of decimal digits.
pub open spec fn digits_value(s: Seq<char>) -> nat
    decreases s.len(),
{
    if s.len() == 0 {
        0
    } else {
        digits_value(s.drop_last()) * 10 + ((s.last() as u32) - ('0' as u32)) as nat
    }
}

/// Non-empty and made only of decimal digits.
pub open spec fn all_digits(s: Seq<char>) -> bool {
    s.len() > 0 && forall|i: int| 0 <= i < s.len() ==> is_digit(#[trigger] s[i])
}

/// The value of an optional `+` followed by decimal digits (`FromStr` for
/// unsigned integers, before the range check).
pub open spec fn unsigned_text_value(s: Seq<char>) -> Option<nat> {
    let d = if s.len() > 0 && s[0] == '+' {
        s.skip(1)
    } else {
        s
    };
    if all_digits(d) {
        Some(digits_value(d))
    } else {
        None
    }
}

/// The value of an optional sign followed by decimal digits (`FromStr` for
/// signed integers, before the range check).
pub open spec fn signed_text_value(s: Seq<char>) -> Option<int> {
    if s.len() > 0 && s[0] == '-' {
        if all_digits(s.skip(1)) {
            Some(-(digits_value(s.skip(1)) as int))
        } else {
            None
        }
    } else {
        match unsigned_text_value(s) {
            Some(v) => Some(v as int),
            None => None,
        }
    }
}

/// What `str::parse::<u32>` accepts, and the value it gives.
pub open spec fn parsed_u32(s: Seq<char>) -> Option<u32> {
    match unsigned_text_value(s) {
        Some(v) => if v <= u32::MAX {
            Some(v as u32)
        } else {
            None
        },
        None => None,
    }
}

/// What `str::parse::<i64>` accepts, and the value it gives.
pub open spec fn parsed_i64(s: Seq<char>) -> Option<i64> {
    match signed_text_value(s) {
        Some(v) => if i64::MIN <= v <= i64::MAX {
            Some(v as i64)
        } else {
            None
        },
        None => None,
    }
}

/// A bound past every value a parsed integer can take.
pub open spec fn parse_limit() -> nat {
    0x1_0000_0000_0000_0000
}

/// The value of decimal digits while it stays within `parse_limit`.
fn digits_up_to_limit(d: &[char]) -> (out: Option<u128>)
    ensures
        match out {
            Some(v) => all_digits(d@) && v == digits_value(d@) && v <= parse_limit(),
            None => !all_digits(d@) || digits_value(d@) > parse_limit(),
        },
{
    if d.len() == 0 {
        return None;
    }
    let mut acc: u128 = 0;
    let mut over = false;
    let mut i: usize = 0;
    assert(d@.take(0) =~= Seq::<char>::empty());
    while i < d.len()
        invariant
            i <= d@.len(),
            forall|k: int| 0 <= k < i ==> is_digit(#[trigger] d@[k]),
            !over ==> acc == digits_value(d@.take(i as int)) && acc <= parse_limit(),
            over ==> digits_value(d@.take(i as int)) > parse_limit(),
        decreases d.len() - i,
    {
        let c = d[i];
        if !('0' <= c && c <= '9') {
            assert(!is_digit(d@[i as int]));
            return None;
        }
        let digit: u128 = ((c as u32) - ('0' as u32)) as u128;
        assert(d@.take(i + 1).drop_last() =~= d@.take(i as int));
        assert(d@.take(i + 1).last() == c);
        if !over {
            if acc > 0x1_0000_0000_0000_0000u128 / 10 {
                over = true;
            } else {
                acc = acc * 10 + digit;
                if acc > 0x1_0000_0000_0000_0000u128 {
                    over = true;
                }
            }
        }
        i += 1;
    }
    assert(d@.take(i as int) =~= d@);
    if over {
        None
    } else {
        Some(acc)
    }
}

/// The characters of `s` after an optional leading `prefix` character.
fn after_optional(chars: &Vec<char>, prefix: char) -> (out: Vec<char>)
    ensures
        out@ == (if chars@.len() > 0 && chars@[0] == prefix {
            chars@.skip(1)
        } else {
            chars@
        }),
{
    if chars.len() > 0 && chars[0] == prefix {
        crate::text::sub_chars(chars.as_slice(), 1, chars.len())
    } else {
        crate::text::sub_chars(chars.as_slice(), 0, chars.len())
    }
}

/// `str::parse::<u32>`: an optional `+` and decimal digits, with no other
/// characters, failing when the value does not fit.
pub(crate) fn parse_u32(s: &str) -> (out: Option<u32>)
    ensures
        out == parsed_u32(s@),
{
    let chars = crate::text::chars_of(s);
    let d = after_optional(&chars, '+');
    match digits_up_to_limit(d.as_slice()) {
        Some(v) => if v <= u32::MAX as u128 {
            Some(v as u32)
        } else {
            None
        },
        None => None,
    }
}

/// `str::parse::<usize>`: as for `u32`, within the range of `usize`.
pub(crate) fn parse_usize(s: &str) -> (out: Option<usize>)
    ensures
        out == (match unsigned_text_value(s@) {
            Some(v) => if v <= usize::MAX {
                Some(v as usize)
            } else {
                None
            },
            None => None,
        }),
{
    let chars = crate::text::chars_of(s);
    let d = after_optional(&chars, '+');
    match digits_up_to_limit(d.as_slice()) {
        Some(v) => if v <= usize::MAX as u128 {
            Some(v as usize)
        } else {
            None
        },
        None => None,
    }
}

/// `str::parse::<i64>`: an optional sign and decimal digits, with no other
/// characters, failing when the value does not fit.
pub(crate) fn parse_i64(s: &str) -> (out: Option<i64>)
    ensures
        out == parsed_i64(s@),
{
    let chars = crate::text::chars_of(s);
    if chars.len() > 0 && chars[0] == '-' {
        let d = crate::text::sub_chars(chars.as_slice(), 1, chars.len());
        match digits_up_to_limit(d.as_slice()) {
            Some(v) => if v <= 0x8000_0000_0000_0000u128 {
                let n: i128 = -(v as i128);
                Some(n as i64)
            } else {
                None
            },
            None => None,
        }
    } else {
        let d = after_optional(&chars, '+');
        match digits_up_to_limit(d.as_slice()) {
            Some(v) => if v <= i64::MAX as u128 {
                Some(v as i64)
            } else {
                None
            },
            None => None,
        }
    }
}

} // verus!

verus! {

/// The decimal text of a number is all digits, and reads back as the number.
pub proof fn lemma_decimal_digits(n: nat)
    ensures
        all_digits(crate::text::decimal(n)),
        digits_value(crate::text::decimal(n)) == n,
    decreases n,
{
    let d = crate::text::decimal(n);
    if n < 10 {
        assert(d == seq![crate::text::digit_char(n)]);
        assert(d.drop_last() =~= Seq::<char>::empty());
        assert((d.last() as u32) == ('0' as u32) + n);
        assert(digits_value(d.drop_last()) == 0);
        assert(digits_value(d) == digits_value(d.drop_last()) * 10 + ((d.last() as u32) - ('0' as u32)) as nat);
    } else {
        lemma_decimal_digits(n / 10);
        let p = crate::text::decimal(n / 10);
        assert(d.drop_last() =~= p);
        assert(d.last() == crate::text::digit_char(n % 10));
        assert((d.last() as u32) == ('0' as u32) + n % 10);
        assert(n == (n / 10) * 10 + n % 10) by (nonlinear_arith);
        assert(digits_value(d) == digits_value(d.drop_last()) * 10 + ((d.last() as u32) - ('0' as u32)) as nat);
        assert(digits_value(d) == (n / 10) * 10 + n % 10);
        assert forall|i: int| 0 <= i < d.len() implies is_digit(#[trigger] d[i]) by {
            if i < p.len() {
                assert(d[i] == p[i]);
            }
        }
    }
}

/// What `u32::to_string` writes, `str::parse::<u32>` reads back.
pub proof fn lemma_parse_u32_decimal(n: u32)
    ensures
        parsed_u32(crate::text::decimal(n as nat)) == Some(n),
{
    lemma_decimal_digits(n as nat);
    let d = crate::text::decimal(n as nat);
    assert(is_digit(d[0]));
}

/// What a non-negative `i64` is written as, `str::parse::<i64>` reads back.
pub proof fn lemma_parse_i64_decimal(n: u64)
    requires
        n <= i64::MAX,
    ensures
        parsed_i64(crate::text::decimal(n as nat)) == Some(n as i64),
{
    lemma_decimal_digits(n as nat);
    let d = crate::text::decimal(n as nat);
    assert(is_digit(d[0]));
}

} // verus!
