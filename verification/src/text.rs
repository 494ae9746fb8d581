//! Verified handling of decimal integer text: parsing, formatting, and plain
//! string comparison.

use crate::error::SCError;
use vstd::prelude::*;
use vstd::string::{StrSliceExecFns, StringExecFns};

verus! {

/// Whether a character is a decimal digit.
pub open spec fn is_digit(c: char) -> bool {
    48 <= c as int <= 57
}

/// The numeric value of a digit character.
pub open spec fn digit_val(c: char) -> int {
    c as int - 48
}

/// Whether the text is one or more decimal digits.
pub open spec fn is_digits(s: Seq<char>) -> bool {
    s.len() > 0 && forall|i: int| 0 <= i < s.len() ==> is_digit(#[trigger] s[i])
}

/// The numeric value of a digit string.
pub open spec fn digits_val(s: Seq<char>) -> int
    decreases s.len(),
{
    if s.len() == 0 {
        0
    } else {
        digits_val(s.drop_last()) * 10 + digit_val(s.last())
    }
}

/// Whether the text is an optionally signed decimal integer.
pub open spec fn is_int_text(s: Seq<char>) -> bool {
    if s.len() > 0 && (s[0] == '-' || s[0] == '+') {
        is_digits(s.skip(1))
    } else {
        is_digits(s)
    }
}

/// The numeric value of optionally signed integer text.
pub open spec fn int_text_val(s: Seq<char>) -> int {
    if s.len() > 0 && s[0] == '-' {
        -digits_val(s.skip(1))
    } else if s.len() > 0 && s[0] == '+' {
        digits_val(s.skip(1))
    } else {
        digits_val(s)
    }
}

/// Whether the text is an unsigned decimal integer (a plus sign is taken).
pub open spec fn is_uint_text(s: Seq<char>) -> bool {
    if s.len() > 0 && s[0] == '+' {
        is_digits(s.skip(1))
    } else {
        is_digits(s)
    }
}

/// The numeric value of unsigned integer text.
pub open spec fn uint_text_val(s: Seq<char>) -> int {
    if s.len() > 0 && s[0] == '+' {
        digits_val(s.skip(1))
    } else {
        digits_val(s)
    }
}

/// What parsing text as an unsigned machine integer yields: its value when
/// the text is unsigned decimal and the value fits, an error otherwise.
pub open spec fn spec_parse_usize(s: Seq<char>) -> Result<usize, SCError> {
    if is_uint_text(s) && uint_text_val(s) <= usize::MAX {
        Ok(uint_text_val(s) as usize)
    } else {
        Err(SCError::ParseInt)
    }
}

/// What parsing text as a 32-bit integer yields: its value when the text is
/// signed decimal and the value fits, an error otherwise.
pub open spec fn spec_parse_i32(s: Seq<char>) -> Result<i32, SCError> {
    if is_int_text(s) && i32::MIN <= int_text_val(s) <= i32::MAX {
        Ok(int_text_val(s) as i32)
    } else {
        Err(SCError::ParseInt)
    }
}

/// A digit string's value is never negative.
proof fn lemma_digits_val_nonneg(s: Seq<char>)
    requires
        forall|i: int| 0 <= i < s.len() ==> is_digit(#[trigger] s[i]),
    ensures
        digits_val(s) >= 0,
    decreases s.len(),
{
    if s.len() > 0 {
        lemma_digits_val_nonneg(s.drop_last());
    }
}

/// Taking in one more digit multiplies the value by ten and adds the digit.
proof fn lemma_digits_val_snoc(s: Seq<char>, a: int, j: int)
    requires
        0 <= a <= j < s.len(),
    ensures
        digits_val(s.subrange(a, j + 1)) == digits_val(s.subrange(a, j)) * 10 + digit_val(s[j]),
{
    assert(s.subrange(a, j + 1).drop_last() =~= s.subrange(a, j));
    assert(s.subrange(a, j + 1).last() == s[j]);
}

/// A digit string's value is at least the value of each of its prefixes.
proof fn lemma_digits_val_prefix_le(s: Seq<char>, a: int, j: int, k: int)
    requires
        0 <= a <= j <= k <= s.len(),
        forall|i: int| a <= i < k ==> is_digit(#[trigger] s[i]),
    ensures
        digits_val(s.subrange(a, j)) <= digits_val(s.subrange(a, k)),
    decreases k - j,
{
    if j < k {
        lemma_digits_val_prefix_le(s, a, j, k - 1);
        lemma_digits_val_snoc(s, a, k - 1);
        assert forall|i: int| 0 <= i < s.subrange(a, k - 1).len() implies is_digit(
            #[trigger] s.subrange(a, k - 1)[i],
        ) by {
            assert(s.subrange(a, k - 1)[i] == s[a + i]);
        }
        lemma_digits_val_nonneg(s.subrange(a, k - 1));
    }
}

/// Parses the digits of `s` from position `start` on; `Ok` exactly when all
/// of them are digits, there is at least one, and the value fits the machine.
fn parse_digits(s: &str, start: usize) -> (r: Result<usize, SCError>)
    requires
        start as int <= s@.len(),
    ensures
        match r {
            Ok(v) => is_digits(s@.skip(start as int)) && v == digits_val(s@.skip(start as int)),
            Err(e) => e == SCError::ParseInt && !(is_digits(s@.skip(start as int)) && digits_val(
                s@.skip(start as int),
            ) <= usize::MAX),
        },
{
    let len = s.unicode_len();
    proof {
        assert(s@.skip(start as int) =~= s@.subrange(start as int, len as int));
    }
    if start >= len {
        return Err(SCError::ParseInt);
    }
    let mut val: usize = 0;
    let mut i: usize = start;
    proof {
        assert(s@.subrange(start as int, start as int) =~= Seq::<char>::empty());
    }
    while i < len
        invariant
            start <= i <= len,
            len == s@.len(),
            forall|k: int| start <= k < i ==> is_digit(#[trigger] s@[k]),
            val == digits_val(s@.subrange(start as int, i as int)),
        decreases len - i,
    {
        let c = s.get_char(i);
        let d = c as u32;
        if d < 48 || d > 57 {
            proof {
                assert(s@.skip(start as int)[i - start] == s@[i as int]);
                assert(!is_digits(s@.skip(start as int)));
            }
            return Err(SCError::ParseInt);
        }
        let dv = (d - 48) as usize;
        proof {
            lemma_digits_val_snoc(s@, start as int, i as int);
        }
        let next = match val.checked_mul(10) {
            Some(v) => v.checked_add(dv),
            None => None,
        };
        match next {
            Some(v) => {
                val = v;
            },
            None => {
                // the value of the whole digit string can only grow further
                proof {
                    if is_digits(s@.skip(start as int)) {
                        assert forall|t: int| start <= t < len implies is_digit(
                            #[trigger] s@[t],
                        ) by {
                            assert(s@.skip(start as int)[t - start] == s@[t]);
                        }
                        lemma_digits_val_prefix_le(s@, start as int, i + 1, len as int);
                        assert(digits_val(s@.skip(start as int)) > usize::MAX);
                    }
                }
                return Err(SCError::ParseInt);
            },
        }
        i += 1;
    }
    proof {
        assert forall|t: int| 0 <= t < s@.skip(start as int).len() implies is_digit(
            #[trigger] s@.skip(start as int)[t],
        ) by {
            assert(s@.skip(start as int)[t] == s@[t + start]);
        }
        assert(is_digits(s@.skip(start as int)));
    }
    Ok(val)
}

/// Parses text as an unsigned machine integer, as the surrounding language's
/// standard parser does: optional plus sign, then decimal digits.
pub fn parse_usize(s: &str) -> (r: Result<usize, SCError>)
    ensures
        r == spec_parse_usize(s@),
{
    let len = s.unicode_len();
    let start: usize = if len > 0 && s.get_char(0) == '+' {
        1
    } else {
        0
    };
    proof {
        assert(s@.skip(0) =~= s@);
    }
    parse_digits(s, start)
}

/// Parses text as a 32-bit integer, as the surrounding language's standard
/// parser does: optional sign, then decimal digits.
pub fn parse_i32(s: &str) -> (r: Result<i32, SCError>)
    ensures
        r == spec_parse_i32(s@),
{
    let len = s.unicode_len();
    let negative = len > 0 && s.get_char(0) == '-';
    let start: usize = if negative || (len > 0 && s.get_char(0) == '+') {
        1
    } else {
        0
    };
    proof {
        assert(s@.skip(0) =~= s@);
    }
    let mag = match parse_digits(s, start) {
        Ok(v) => v,
        Err(e) => {
            return Err(e);
        },
    };
    if negative {
        if mag > 0x8000_0000usize {
            return Err(SCError::ParseInt);
        }
        Ok((-(mag as i64)) as i32)
    } else {
        if mag > 0x7fff_ffffusize {
            return Err(SCError::ParseInt);
        }
        Ok(mag as i32)
    }
}

/// The decimal digit character of a value below ten.
pub open spec fn digit_char(d: int) -> char {
    if d == 0 {
        '0'
    } else if d == 1 {
        '1'
    } else if d == 2 {
        '2'
    } else if d == 3 {
        '3'
    } else if d == 4 {
        '4'
    } else if d == 5 {
        '5'
    } else if d == 6 {
        '6'
    } else if d == 7 {
        '7'
    } else if d == 8 {
        '8'
    } else {
        '9'
    }
}

/// The decimal digit text of a non-negative value.
pub open spec fn digits_text(v: int) -> Seq<char>
    decreases v,
{
    if v < 0 {
        Seq::empty()
    } else if v < 10 {
        seq![digit_char(v)]
    } else {
        digits_text(v / 10) + seq![digit_char(v % 10)]
    }
}

/// The decimal text of an integer, a minus sign before a negative one.
pub open spec fn int_text(v: int) -> Seq<char> {
    if v < 0 {
        seq!['-'] + digits_text(-v)
    } else {
        digits_text(v)
    }
}

/// The one-character string of a decimal digit.
fn digit_str(d: u64) -> (r: &'static str)
    requires
        d < 10,
    ensures
        r@ == seq![digit_char(d as int)],
{
    let r: &'static str = match d {
        0 => "0",
        1 => "1",
        2 => "2",
        3 => "3",
        4 => "4",
        5 => "5",
        6 => "6",
        7 => "7",
        8 => "8",
        _ => "9",
    };
    proof {
        reveal_strlit("0");
        reveal_strlit("1");
        reveal_strlit("2");
        reveal_strlit("3");
        reveal_strlit("4");
        reveal_strlit("5");
        reveal_strlit("6");
        reveal_strlit("7");
        reveal_strlit("8");
        reveal_strlit("9");
        assert(r@ =~= seq![digit_char(d as int)]);
    }
    r
}

/// Formats a non-negative value in decimal.
fn digits_string(v: u64) -> (r: String)
    ensures
        r@ == digits_text(v as int),
    decreases v,
{
    if v < 10 {
        let mut s = String::new();
        s.append(digit_str(v));
        proof {
            assert(s@ =~= digits_text(v as int));
        }
        s
    } else {
        let mut s = digits_string(v / 10);
        s.append(digit_str(v % 10));
        proof {
            assert(s@ =~= digits_text(v as int));
        }
        s
    }
}

/// Formats an integer in decimal, a minus sign before a negative one.
pub fn int_to_string(n: i32) -> (r: String)
    ensures
        r@ == int_text(n as int),
{
    if n < 0 {
        let mag = -(n as i64);
        let mut s = String::new();
        s.append("-");
        let d = digits_string(mag as u64);
        s.append(d.as_str());
        proof {
            reveal_strlit("-");
            assert(s@ =~= int_text(n as int));
        }
        s
    } else {
        digits_string(n as u64)
    }
}

/// The decimal text of a non-negative value is all digits and reads back as
/// that value.
proof fn lemma_digits_text_val(v: int)
    requires
        v >= 0,
    ensures
        is_digits(digits_text(v)),
        digits_val(digits_text(v)) == v,
    decreases v,
{
    if v < 10 {
        assert(digits_text(v) =~= seq![digit_char(v)]);
        assert(seq![digit_char(v)].drop_last() =~= Seq::<char>::empty());
        assert(digits_val(Seq::<char>::empty()) == 0);
        assert(digits_val(seq![digit_char(v)]) == digit_val(digit_char(v)));
    } else {
        lemma_digits_text_val(v / 10);
        let whole = digits_text(v);
        assert(whole =~= digits_text(v / 10) + seq![digit_char(v % 10)]);
        assert(whole.drop_last() =~= digits_text(v / 10));
        assert(whole.last() == digit_char(v % 10));
        assert(digits_val(whole) == digits_val(digits_text(v / 10)) * 10 + digit_val(
            digit_char(v % 10),
        ));
        assert(v == (v / 10) * 10 + v % 10);
    }
}

/// The decimal text of an integer is integer text and reads back as that
/// value.
pub proof fn lemma_int_text_val(v: int)
    ensures
        is_int_text(int_text(v)),
        int_text_val(int_text(v)) == v,
{
    if v < 0 {
        lemma_digits_text_val(-v);
        let s = int_text(v);
        assert(s == seq!['-'] + digits_text(-v));
        assert(s[0] == '-');
        assert(s.skip(1) =~= digits_text(-v));
        assert(s.len() > 0);
    } else {
        lemma_digits_text_val(v);
        let s = int_text(v);
        assert(s == digits_text(v));
        assert(is_digits(s));
        assert(s[0] != '-' && s[0] != '+') by {
            assert(is_digit(s[0]));
        }
    }
}

/// Parsing the decimal text of a 32-bit value yields exactly that value.
pub proof fn lemma_parse_int_text(v: int)
    requires
        i32::MIN <= v <= i32::MAX,
    ensures
        spec_parse_i32(int_text(v)) == Ok::<i32, SCError>((v as i32)),
{
    lemma_int_text_val(v);
}

/// Whether two strings hold the same characters.
pub fn str_eq(a: &str, b: &str) -> (r: bool)
    ensures
        r == (a@ == b@),
{
    let alen = a.unicode_len();
    let blen = b.unicode_len();
    if alen != blen {
        return false;
    }
    let mut i: usize = 0;
    while i < alen
        invariant
            alen == a@.len(),
            alen == b@.len(),
            i <= alen,
            forall|k: int| 0 <= k < i ==> a@[k] == b@[k],
        decreases alen - i,
    {
        if a.get_char(i) != b.get_char(i) {
            return false;
        }
        i += 1;
    }
    proof {
        assert(a@ =~= b@);
    }
    true
}

} // verus!
