//! The numeric tower: 64-bit integers, 128-bit decimals and not-a-number,
//! with the arithmetic that promotes between them.

use crate::decimal_bridge::{
    decimal_add, decimal_difference, decimal_div, decimal_eq, decimal_equal, decimal_from_str,
    decimal_mul, decimal_product, decimal_quotient, decimal_sub, decimal_sum, decimal_text,
    decimal_to_string, parsed_decimal_text,
};
use crate::parsing::get_representable_integer;
use crate::text::{
    contains, contains_text, int_text, integer_literal_value, integer_to_string,
    lemma_int_text_round_trip, parse_integer,
};
use decimal::d128;
use std::borrow::Cow;
use vstd::prelude::*;
use vstd::std_specs::cmp::PartialEqSpecImpl;
use vstd::std_specs::convert::FromSpecImpl;

verus! {

/// A number: an integer, a decimal, or the mark that a value is no number.
#[derive(Debug, Copy, Clone)]
pub enum Numeric {
    LittleInteger(i64),
    LittleReal(d128),
    NaN,
}

/// What a `Numeric` is to the contracts: an integer by its value, a decimal
/// by its text.
pub enum NumericView {
    Integer(int),
    Real(Seq<char>),
    NotANumber,
}

impl View for Numeric {
    type V = NumericView;

    open spec fn view(&self) -> NumericView {
        match *self {
            Numeric::LittleInteger(i) => NumericView::Integer(i as int),
            Numeric::LittleReal(r) => NumericView::Real(decimal_text(r)),
            Numeric::NaN => NumericView::NotANumber,
        }
    }
}

/// The text `NaN`, which marks a decimal that is no number.
pub open spec fn nan_text() -> Seq<char> {
    seq!['N', 'a', 'N']
}

/// The 64-bit integer that is congruent to `v` modulo 2^64.
pub open spec fn wrap_i64(v: int) -> int {
    let r = v % 0x1_0000_0000_0000_0000;
    if r > i64::MAX {
        r - 0x1_0000_0000_0000_0000
    } else {
        r
    }
}

/// The number read from `s`: the integer, where `s` is a 64-bit integer
/// literal; else the decimal that `s` parses to, unless its text is `NaN`;
/// else not-a-number.
pub open spec fn numeric_from_text(s: Seq<char>) -> NumericView {
    match integer_literal_value(s) {
        Some(n) => NumericView::Integer(n),
        None => {
            let text = parsed_decimal_text(s);
            if text == nan_text() {
                NumericView::NotANumber
            } else {
                NumericView::Real(text)
            }
        },
    }
}

/// The text that a number is shown as.
pub open spec fn numeric_text(v: NumericView) -> Seq<char> {
    match v {
        NumericView::Integer(n) => int_text(n),
        NumericView::Real(text) => text,
        NumericView::NotANumber => nan_text(),
    }
}

/// The canonical form of a number. A decimal whose text is a 64-bit integer
/// literal is that integer; any other decimal whose text holds `NaN` is
/// not-a-number; everything else is canonical already.
pub open spec fn simplified(v: NumericView) -> NumericView {
    match v {
        NumericView::Real(text) => match integer_literal_value(text) {
            Some(n) => NumericView::Integer(n),
            None => if contains(text, nan_text()) {
                NumericView::NotANumber
            } else {
                v
            },
        },
        _ => v,
    }
}

/// The decimal text that stands for an operand of mixed arithmetic: a
/// decimal's own text, and for an integer the text of the decimal parsed
/// from the integer's digits.
pub open spec fn operand_text(v: NumericView) -> Seq<char> {
    match v {
        NumericView::Integer(n) => parsed_decimal_text(int_text(n)),
        NumericView::Real(text) => text,
        NumericView::NotANumber => nan_text(),
    }
}

/// `a + b`. Not-a-number absorbs; two integers add with wrap-around; any
/// other pair adds as decimals, and the result is simplified.
pub open spec fn sum(a: NumericView, b: NumericView) -> NumericView {
    match (a, b) {
        (NumericView::NotANumber, _) => NumericView::NotANumber,
        (_, NumericView::NotANumber) => NumericView::NotANumber,
        (NumericView::Integer(x), NumericView::Integer(y)) => NumericView::Integer(
            wrap_i64(x + y),
        ),
        _ => simplified(NumericView::Real(decimal_sum(operand_text(a), operand_text(b)))),
    }
}

/// `a - b`. Not-a-number absorbs; two integers subtract with wrap-around;
/// any other pair subtracts as decimals, and the result is simplified.
pub open spec fn difference(a: NumericView, b: NumericView) -> NumericView {
    match (a, b) {
        (NumericView::NotANumber, _) => NumericView::NotANumber,
        (_, NumericView::NotANumber) => NumericView::NotANumber,
        (NumericView::Integer(x), NumericView::Integer(y)) => NumericView::Integer(
            wrap_i64(x - y),
        ),
        _ => simplified(
            NumericView::Real(decimal_difference(operand_text(a), operand_text(b))),
        ),
    }
}

/// `a * b`. Not-a-number absorbs; two integers multiply with wrap-around;
/// any other pair multiplies as decimals, and the result is simplified.
pub open spec fn product(a: NumericView, b: NumericView) -> NumericView {
    match (a, b) {
        (NumericView::NotANumber, _) => NumericView::NotANumber,
        (_, NumericView::NotANumber) => NumericView::NotANumber,
        (NumericView::Integer(x), NumericView::Integer(y)) => NumericView::Integer(
            wrap_i64(x * y),
        ),
        _ => simplified(NumericView::Real(decimal_product(operand_text(a), operand_text(b)))),
    }
}

/// `a / b`. Not-a-number absorbs. The quotient of two integers is the
/// decimal parsed from `binary_quotient`, the text of their quotient in
/// binary floating point, which the caller supplies; any other pair divides
/// as decimals. Either way the result is simplified.
pub open spec fn quotient(
    a: NumericView,
    b: NumericView,
    binary_quotient: Seq<char>,
) -> NumericView {
    match (a, b) {
        (NumericView::NotANumber, _) => NumericView::NotANumber,
        (_, NumericView::NotANumber) => NumericView::NotANumber,
        (NumericView::Integer(_), NumericView::Integer(_)) => simplified(
            NumericView::Real(parsed_decimal_text(binary_quotient)),
        ),
        _ => simplified(
            NumericView::Real(decimal_quotient(operand_text(a), operand_text(b))),
        ),
    }
}

/// Not-a-number absorbs: an operation with it on either side gives it.
pub proof fn lemma_not_a_number_absorbs(a: NumericView, b: NumericView, binary_quotient: Seq<char>)
    requires
        a is NotANumber || b is NotANumber,
    ensures
        sum(a, b) is NotANumber,
        difference(a, b) is NotANumber,
        product(a, b) is NotANumber,
        quotient(a, b, binary_quotient) is NotANumber,
{
}

/// Simplifying twice is simplifying once.
pub proof fn lemma_simplified_idempotent(v: NumericView)
    ensures
        simplified(simplified(v)) == simplified(v),
{
}

/// A decimal whose text is the text of a 64-bit integer simplifies to that
/// integer.
pub proof fn lemma_simplified_integer_text(n: int)
    requires
        i64::MIN <= n <= i64::MAX,
    ensures
        simplified(NumericView::Real(int_text(n))) == NumericView::Integer(n),
{
    lemma_int_text_round_trip(n);
}

/// The integer operand of mixed arithmetic as a decimal: its digits, parsed.
fn promote(n: i64) -> (r: Option<d128>)
    ensures
        r matches Some(value) && decimal_text(value) == operand_text(
            NumericView::Integer(n as int),
        ),
{
    let digits = integer_to_string(n);
    decimal_from_str(digits.as_str())
}

/// Whether two numbers are equal: integers by value, decimals by number,
/// not-a-number with itself, and no number with one of another kind.
pub open spec fn numeric_equal(a: NumericView, b: NumericView) -> bool {
    match (a, b) {
        (NumericView::Integer(x), NumericView::Integer(y)) => x == y,
        (NumericView::Real(s), NumericView::Real(t)) => decimal_equal(s, t),
        (NumericView::NotANumber, NumericView::NotANumber) => true,
        _ => false,
    }
}

impl PartialEq for Numeric {
    fn eq(&self, other: &Numeric) -> (r: bool) {
        match (self, other) {
            (Numeric::LittleInteger(lhs), Numeric::LittleInteger(rhs)) => *lhs == *rhs,
            (Numeric::LittleReal(lhs), Numeric::LittleReal(rhs)) => decimal_eq(lhs, rhs),
            (Numeric::NaN, Numeric::NaN) => true,
            _ => false,
        }
    }
}

impl PartialEqSpecImpl for Numeric {
    open spec fn obeys_eq_spec() -> bool {
        true
    }

    open spec fn eq_spec(&self, other: &Numeric) -> bool {
        numeric_equal(self@, other@)
    }
}

/// The integer as a number.
impl From<i64> for Numeric {
    fn from(n: i64) -> (r: Numeric)
        ensures
            r == Numeric::LittleInteger(n),
    {
        Numeric::LittleInteger(n)
    }
}

impl FromSpecImpl<i64> for Numeric {
    open spec fn obeys_from_spec() -> bool {
        true
    }

    open spec fn from_spec(n: i64) -> Numeric {
        Numeric::LittleInteger(n)
    }
}

impl Numeric {
    /// Reads a number from text. Never fails: text that is no number gives
    /// `NaN`.
    pub fn from_str(s: &str) -> (r: Numeric)
        ensures
            r@ == numeric_from_text(s@),
    {
        match parse_integer(s) {
            Some(num) => Numeric::LittleInteger(num),
            None => match decimal_from_str(s) {
                Some(num) => {
                    let text = decimal_to_string(&num);
                    if is_nan_text(text.as_str()) {
                        Numeric::NaN
                    } else {
                        Numeric::LittleReal(num)
                    }
                },
                None => Numeric::NaN,
            },
        }
    }

    /// The number's text, borrowed where no string has to be built.
    pub fn as_str<'a>(&'a self) -> (r: Cow<'a, str>)
        ensures
            r@ == numeric_text(self@),
    {
        match self {
            Numeric::LittleInteger(i) => Cow::Owned(integer_to_string(*i)),
            Numeric::LittleReal(r) => Cow::Owned(decimal_to_string(r)),
            Numeric::NaN => {
                proof {
                    reveal_strlit("NaN");
                }
                Cow::Borrowed("NaN")
            },
        }
    }

    /// The number's text.
    pub fn to_string(&self) -> (r: String)
        ensures
            r@ == numeric_text(self@),
    {
        match self {
            Numeric::LittleInteger(i) => integer_to_string(*i),
            Numeric::LittleReal(r) => decimal_to_string(r),
            Numeric::NaN => {
                proof {
                    reveal_strlit("NaN");
                }
                String::from_str("NaN")
            },
        }
    }

    /// The canonical form of the number. What is canonical already comes
    /// back as it is.
    pub fn simplify(self) -> (r: Numeric)
        ensures
            r@ == simplified(self@),
            simplified(self@) == self@ ==> r == self,
    {
        match self {
            Numeric::LittleReal(r) => {
                let real_number = decimal_to_string(&r);
                match get_representable_integer(real_number.as_str()) {
                    Some(num) => Numeric::LittleInteger(num),
                    None => {
                        proof {
                            reveal_strlit("NaN");
                        }
                        assert("NaN"@ =~= nan_text());
                        if contains_text(real_number.as_str(), "NaN") {
                            Numeric::NaN
                        } else {
                            self
                        }
                    },
                }
            },
            _ => self,
        }
    }

    /// How many bits the number's kind takes: a hint for sizing buffers.
    pub fn capacity(&self) -> (bits: usize)
        ensures
            bits == match self@ {
                NumericView::Integer(_) => 64usize,
                NumericView::Real(_) => 128usize,
                NumericView::NotANumber => 8usize,
            },
    {
        match self {
            Numeric::LittleInteger(_) => 64,
            Numeric::LittleReal(_) => 128,
            Numeric::NaN => 8,
        }
    }

    /// The qualified name of the number's kind.
    pub fn head(&self) -> (name: &'static str)
        ensures
            name@ == match self@ {
                NumericView::Integer(_) => "Simplex`Integer"@,
                NumericView::Real(_) => "Simplex`Real"@,
                NumericView::NotANumber => "Simplex`NaN"@,
            },
    {
        match self {
            Numeric::LittleInteger(_) => "Simplex`Integer",
            Numeric::LittleReal(_) => "Simplex`Real",
            Numeric::NaN => "Simplex`NaN",
        }
    }

    /// `self + other`.
    pub fn add(self, other: Numeric) -> (r: Numeric)
        ensures
            r@ == sum(self@, other@),
            self is NaN || other is NaN ==> r is NaN,
    {
        match (self, other) {
            (Numeric::NaN, _) => Numeric::NaN,
            (_, Numeric::NaN) => Numeric::NaN,
            (Numeric::LittleInteger(lhs), Numeric::LittleInteger(rhs)) => {
                Numeric::LittleInteger(lhs.wrapping_add(rhs))
            },
            (Numeric::LittleInteger(lhs), Numeric::LittleReal(rhs)) => match promote(lhs) {
                Some(lhs) => Numeric::LittleReal(decimal_add(lhs, rhs)).simplify(),
                None => Numeric::NaN,
            },
            (Numeric::LittleReal(lhs), Numeric::LittleInteger(rhs)) => match promote(rhs) {
                Some(rhs) => Numeric::LittleReal(decimal_add(lhs, rhs)).simplify(),
                None => Numeric::NaN,
            },
            (Numeric::LittleReal(lhs), Numeric::LittleReal(rhs)) => {
                Numeric::LittleReal(decimal_add(lhs, rhs)).simplify()
            },
        }
    }

    /// `self - other`.
    pub fn sub(self, other: Numeric) -> (r: Numeric)
        ensures
            r@ == difference(self@, other@),
            self is NaN || other is NaN ==> r is NaN,
    {
        match (self, other) {
            (Numeric::NaN, _) => Numeric::NaN,
            (_, Numeric::NaN) => Numeric::NaN,
            (Numeric::LittleInteger(lhs), Numeric::LittleInteger(rhs)) => {
                Numeric::LittleInteger(lhs.wrapping_sub(rhs))
            },
            (Numeric::LittleInteger(lhs), Numeric::LittleReal(rhs)) => match promote(lhs) {
                Some(lhs) => Numeric::LittleReal(decimal_sub(lhs, rhs)).simplify(),
                None => Numeric::NaN,
            },
            (Numeric::LittleReal(lhs), Numeric::LittleInteger(rhs)) => match promote(rhs) {
                Some(rhs) => Numeric::LittleReal(decimal_sub(lhs, rhs)).simplify(),
                None => Numeric::NaN,
            },
            (Numeric::LittleReal(lhs), Numeric::LittleReal(rhs)) => {
                Numeric::LittleReal(decimal_sub(lhs, rhs)).simplify()
            },
        }
    }

    /// `self * other`.
    pub fn mul(self, other: Numeric) -> (r: Numeric)
        ensures
            r@ == product(self@, other@),
            self is NaN || other is NaN ==> r is NaN,
    {
        match (self, other) {
            (Numeric::NaN, _) => Numeric::NaN,
            (_, Numeric::NaN) => Numeric::NaN,
            (Numeric::LittleInteger(lhs), Numeric::LittleInteger(rhs)) => {
                Numeric::LittleInteger(lhs.wrapping_mul(rhs))
            },
            (Numeric::LittleInteger(lhs), Numeric::LittleReal(rhs)) => match promote(lhs) {
                Some(lhs) => Numeric::LittleReal(decimal_mul(lhs, rhs)).simplify(),
                None => Numeric::NaN,
            },
            (Numeric::LittleReal(lhs), Numeric::LittleInteger(rhs)) => match promote(rhs) {
                Some(rhs) => Numeric::LittleReal(decimal_mul(lhs, rhs)).simplify(),
                None => Numeric::NaN,
            },
            (Numeric::LittleReal(lhs), Numeric::LittleReal(rhs)) => {
                Numeric::LittleReal(decimal_mul(lhs, rhs)).simplify()
            },
        }
    }

    /// `self / other`. Two integers divide in binary floating point, which
    /// this library does not compute: the caller passes the text of that
    /// quotient as `binary_quotient`, and it is read only for two integers.
    pub fn div(self, other: Numeric, binary_quotient: &str) -> (r: Numeric)
        ensures
            r@ == quotient(self@, other@, binary_quotient@),
            self is NaN || other is NaN ==> r is NaN,
    {
        match (self, other) {
            (Numeric::NaN, _) => Numeric::NaN,
            (_, Numeric::NaN) => Numeric::NaN,
            (Numeric::LittleInteger(_), Numeric::LittleInteger(_)) => {
                match decimal_from_str(binary_quotient) {
                    Some(value) => Numeric::LittleReal(value).simplify(),
                    None => Numeric::NaN,
                }
            },
            (Numeric::LittleInteger(lhs), Numeric::LittleReal(rhs)) => match promote(lhs) {
                Some(lhs) => Numeric::LittleReal(decimal_div(lhs, rhs)).simplify(),
                None => Numeric::NaN,
            },
            (Numeric::LittleReal(lhs), Numeric::LittleInteger(rhs)) => match promote(rhs) {
                Some(rhs) => Numeric::LittleReal(decimal_div(lhs, rhs)).simplify(),
                None => Numeric::NaN,
            },
            (Numeric::LittleReal(lhs), Numeric::LittleReal(rhs)) => {
                Numeric::LittleReal(decimal_div(lhs, rhs)).simplify()
            },
        }
    }
}

/// Whether `text` is exactly `NaN`.
fn is_nan_text(text: &str) -> (r: bool)
    ensures
        r == (text@ == nan_text()),
{
    let chars = crate::text::chars_of(text);
    let r = chars.len() == 3 && chars[0] == 'N' && chars[1] == 'a' && chars[2] == 'N';
    assert(r ==> text@ =~= nan_text());
    r
}

} // verus!
