//! Recognisers for the three kinds of literal an atom can be read from:
//! numbers, quoted text and symbol names.

use crate::text::{all_digits, chars_of, integer_literal_value, is_digit, parse_integer};
use vstd::prelude::*;

verus! {

/// The position of the first character at or after `i` that is no digit;
/// the length of `s` where only digits follow.
pub open spec fn digits_end(s: Seq<char>, i: int) -> int
    decreases s.len() - i,
{
    if 0 <= i < s.len() && is_digit(s[i]) {
        digits_end(s, i + 1)
    } else {
        i
    }
}

/// Whether a sign character stands at position `i` of `s`.
pub open spec fn sign_at(s: Seq<char>, i: int) -> bool {
    0 <= i < s.len() && (s[i] == '-' || s[i] == '+')
}

/// Whether the rest of `s` from position `i` is an exponent part: `e` or
/// `E`, an optional sign, then one or more digits up to the end of `s`.
pub open spec fn is_exponent_part(s: Seq<char>, i: int) -> bool {
    0 <= i < s.len() && (s[i] == 'e' || s[i] == 'E') && {
        let first = if sign_at(s, i + 1) {
            i + 2
        } else {
            i + 1
        };
        let end = digits_end(s, first);
        first < end && end == s.len()
    }
}

/// Whether `s` is a numeric literal: an optional sign; digits with at most
/// one decimal point among them, before them or after them, and at least one
/// digit; then an optional exponent part.
pub open spec fn is_numeric_literal(s: Seq<char>) -> bool {
    let start = if sign_at(s, 0) {
        1int
    } else {
        0int
    };
    let whole_end = digits_end(s, start);
    let has_point = whole_end < s.len() && s[whole_end] == '.';
    let mantissa_end = if has_point {
        digits_end(s, whole_end + 1)
    } else {
        whole_end
    };
    let digit_count = if has_point {
        mantissa_end - start - 1
    } else {
        mantissa_end - start
    };
    digit_count >= 1 && (mantissa_end == s.len() || is_exponent_part(s, mantissa_end))
}

/// Whether `s` is a text literal: it starts and ends with a double quote and
/// holds no other double quote.
pub open spec fn is_string_literal(s: Seq<char>) -> bool {
    &&& s.len() >= 2
    &&& s[0] == '"'
    &&& s[s.len() - 1] == '"'
    &&& forall|i: int| 1 <= i < s.len() - 1 ==> #[trigger] s[i] != '"'
}

/// What a text literal holds between its quotes.
pub open spec fn string_literal_contents(s: Seq<char>) -> Seq<char>
    recommends
        is_string_literal(s),
{
    s.subrange(1, s.len() - 1)
}

/// Whether `c` is an ASCII letter.
pub open spec fn is_letter(c: char) -> bool {
    ('a' <= c && c <= 'z') || ('A' <= c && c <= 'Z')
}

/// Whether a symbol name may begin with `c`: a letter or `$`.
pub open spec fn is_symbol_start(c: char) -> bool {
    is_letter(c) || c == '$'
}

/// Whether `c` may stand inside a symbol name: a letter, a digit, `$`, or the
/// context mark `` ` ``.
pub open spec fn is_symbol_char(c: char) -> bool {
    is_letter(c) || is_digit(c) || c == '$' || c == '`'
}

/// Whether `s` is a symbol name.
pub open spec fn is_symbol_literal(s: Seq<char>) -> bool {
    &&& s.len() >= 1
    &&& is_symbol_start(s[0])
    &&& forall|i: int| 1 <= i < s.len() ==> is_symbol_char(#[trigger] s[i])
}

/// No text is a literal of two kinds: a numeric literal begins with a sign,
/// a digit or a point, a text literal with a quote, a symbol with a letter
/// or `$`.
pub proof fn lemma_literal_kinds_disjoint(s: Seq<char>)
    ensures
        !(is_numeric_literal(s) && is_string_literal(s)),
        !(is_numeric_literal(s) && is_symbol_literal(s)),
        !(is_string_literal(s) && is_symbol_literal(s)),
{
    if is_numeric_literal(s) {
        if s.len() > 0 && !sign_at(s, 0) && !is_digit(s[0]) {
            assert(digits_end(s, 0) == 0);
        }
    }
}

/// A 64-bit integer literal is a numeric literal.
pub proof fn lemma_integer_literal_is_numeric(s: Seq<char>)
    requires
        integer_literal_value(s) is Some,
    ensures
        is_numeric_literal(s),
{
    let start = if sign_at(s, 0) {
        1int
    } else {
        0int
    };
    assert(crate::text::unsigned_part(s) == s.skip(start));
    lemma_all_digits_end(s, start);
}

/// Where only digits follow position `i`, the run of digits ends with `s`.
pub proof fn lemma_all_digits_end(s: Seq<char>, i: int)
    requires
        0 <= i <= s.len(),
        all_digits(s.skip(i)),
    ensures
        digits_end(s, i) == s.len(),
    decreases s.len() - i,
{
    if i < s.len() {
        assert(s.skip(i)[0] == s[i]);
        assert forall|k: int| 0 <= k < s.skip(i + 1).len() implies is_digit(
            #[trigger] s.skip(i + 1)[k],
        ) by {
            assert(s.skip(i + 1)[k] == s.skip(i)[k + 1]);
        }
        lemma_all_digits_end(s, i + 1);
    }
}

/// Steps over the digits that start at position `i`.
fn skip_digits(chars: &Vec<char>, i: usize) -> (end: usize)
    requires
        i <= chars@.len(),
    ensures
        end == digits_end(chars@, i as int),
        i <= end <= chars@.len(),
{
    let mut j: usize = i;
    while j < chars.len() && '0' <= chars[j] && chars[j] <= '9'
        invariant
            i <= j <= chars@.len(),
            digits_end(chars@, i as int) == digits_end(chars@, j as int),
        decreases chars@.len() - j,
    {
        j += 1;
    }
    j
}

/// Whether a sign character stands at position `i`.
fn is_sign_at(chars: &Vec<char>, i: usize) -> (r: bool)
    ensures
        r == sign_at(chars@, i as int),
{
    i < chars.len() && (chars[i] == '-' || chars[i] == '+')
}

/// Whether `s` can be read as a number.
pub fn representable_numeric(s: &str) -> (r: bool)
    ensures
        r == is_numeric_literal(s@),
{
    let chars = chars_of(s);
    let n: usize = chars.len();
    let start: usize = if is_sign_at(&chars, 0) {
        1
    } else {
        0
    };
    let whole_end = skip_digits(&chars, start);
    let has_point = whole_end < n && chars[whole_end] == '.';
    let mantissa_end = if has_point {
        skip_digits(&chars, whole_end + 1)
    } else {
        whole_end
    };
    let digit_count = if has_point {
        mantissa_end - start - 1
    } else {
        mantissa_end - start
    };
    if digit_count < 1 {
        return false;
    }
    if mantissa_end == n {
        return true;
    }
    if chars[mantissa_end] != 'e' && chars[mantissa_end] != 'E' {
        return false;
    }
    let first: usize = if is_sign_at(&chars, mantissa_end + 1) {
        mantissa_end + 2
    } else {
        mantissa_end + 1
    };
    let end = skip_digits(&chars, first);
    first < end && end == n
}

/// Whether `s` is a quoted text literal.
pub fn representable_string(s: &str) -> (r: bool)
    ensures
        r == is_string_literal(s@),
{
    let chars = chars_of(s);
    let n: usize = chars.len();
    if n < 2 || chars[0] != '"' || chars[n - 1] != '"' {
        return false;
    }
    let mut i: usize = 1;
    while i < n - 1
        invariant
            1 <= i <= n - 1,
            n == chars@.len(),
            chars@ == s@,
            forall|k: int| 1 <= k < i ==> #[trigger] chars@[k] != '"',
        decreases n - i,
    {
        if chars[i] == '"' {
            return false;
        }
        i += 1;
    }
    true
}

/// Whether `c` is an ASCII letter.
fn letter(c: char) -> (r: bool)
    ensures
        r == is_letter(c),
{
    ('a' <= c && c <= 'z') || ('A' <= c && c <= 'Z')
}

/// Whether `s` is a symbol name.
pub fn representable_symbol(s: &str) -> (r: bool)
    ensures
        r == is_symbol_literal(s@),
{
    let chars = chars_of(s);
    let n: usize = chars.len();
    if n < 1 || !(letter(chars[0]) || chars[0] == '$') {
        return false;
    }
    let mut i: usize = 1;
    while i < n
        invariant
            1 <= i <= n,
            n == chars@.len(),
            chars@ == s@,
            forall|k: int| 1 <= k < i ==> is_symbol_char(#[trigger] chars@[k]),
        decreases n - i,
    {
        let c = chars[i];
        if !(letter(c) || ('0' <= c && c <= '9') || c == '$' || c == '`') {
            return false;
        }
        i += 1;
    }
    true
}

/// The 64-bit integer that `s` is the literal of, if it is one.
pub fn get_representable_integer(s: &str) -> (r: Option<i64>)
    ensures
        match r {
            Some(n) => integer_literal_value(s@) == Some(n as int),
            None => integer_literal_value(s@) is None,
        },
{
    parse_integer(s)
}

} // verus!
