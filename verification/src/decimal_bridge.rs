//! The boundary to the `decimal` crate. Nothing here is proved: each
//! contract states what the crate's 128-bit decimal type does, and the rest
//! of the library is verified against these statements.
//!
//! A decimal is known to the library by its text, the string that its
//! `Display` implementation prints. Parsing and the four operations are
//! functions of text, and so is comparison: the crate computes them under
//! one fixed rounding mode, so equal operands give equal results.

use decimal::d128;
use std::str::FromStr;
use vstd::prelude::*;

verus! {

/// `decimal::d128`, carried through the library as an opaque value.
#[verifier::external_type_specification]
#[verifier::external_body]
pub struct ExD128(d128);

/// The text that `d128`'s `Display` implementation prints for `value`.
pub uninterp spec fn decimal_text(value: d128) -> Seq<char>;

/// The text of the decimal that `d128::from_str` reads from `text`.
pub uninterp spec fn parsed_decimal_text(text: Seq<char>) -> Seq<char>;

/// The text of `lhs + rhs`, for decimals with the texts `lhs` and `rhs`.
pub uninterp spec fn decimal_sum(lhs: Seq<char>, rhs: Seq<char>) -> Seq<char>;

/// The text of `lhs - rhs`, for decimals with the texts `lhs` and `rhs`.
pub uninterp spec fn decimal_difference(lhs: Seq<char>, rhs: Seq<char>) -> Seq<char>;

/// The text of `lhs * rhs`, for decimals with the texts `lhs` and `rhs`.
pub uninterp spec fn decimal_product(lhs: Seq<char>, rhs: Seq<char>) -> Seq<char>;

/// The text of `lhs / rhs`, for decimals with the texts `lhs` and `rhs`.
pub uninterp spec fn decimal_quotient(lhs: Seq<char>, rhs: Seq<char>) -> Seq<char>;

/// Whether `lhs == rhs`, for decimals with the texts `lhs` and `rhs`.
pub uninterp spec fn decimal_equal(lhs: Seq<char>, rhs: Seq<char>) -> bool;

/// `d128`'s `Display` through `ToString::to_string`: the string holds the
/// decimal's text.
#[verifier::external_body]
pub(crate) fn decimal_to_string(value: &d128) -> (text: String)
    ensures
        text@ == decimal_text(*value),
{
    value.to_string()
}

/// `<d128 as FromStr>::from_str`, its `Result` turned into an `Option`. It
/// never fails: text that is no number gives a quiet NaN. The decimal it
/// returns has the text named by `parsed_decimal_text`.
#[verifier::external_body]
pub(crate) fn decimal_from_str(text: &str) -> (parsed: Option<d128>)
    ensures
        parsed is Some,
        decimal_text(parsed.unwrap()) == parsed_decimal_text(text@),
{
    d128::from_str(text).ok()
}

/// `<d128 as Add>::add`: the sum's text is named by `decimal_sum`.
#[verifier::external_body]
pub(crate) fn decimal_add(lhs: d128, rhs: d128) -> (sum: d128)
    ensures
        decimal_text(sum) == decimal_sum(decimal_text(lhs), decimal_text(rhs)),
{
    lhs + rhs
}

/// `<d128 as Sub>::sub`: the difference's text is named by
/// `decimal_difference`.
#[verifier::external_body]
pub(crate) fn decimal_sub(lhs: d128, rhs: d128) -> (difference: d128)
    ensures
        decimal_text(difference) == decimal_difference(decimal_text(lhs), decimal_text(rhs)),
{
    lhs - rhs
}

/// `<d128 as Mul>::mul`: the product's text is named by `decimal_product`.
#[verifier::external_body]
pub(crate) fn decimal_mul(lhs: d128, rhs: d128) -> (product: d128)
    ensures
        decimal_text(product) == decimal_product(decimal_text(lhs), decimal_text(rhs)),
{
    lhs * rhs
}

/// `<d128 as Div>::div`: the quotient's text is named by `decimal_quotient`.
/// Division by zero does not fail: it gives an infinity or a NaN.
#[verifier::external_body]
pub(crate) fn decimal_div(lhs: d128, rhs: d128) -> (quotient: d128)
    ensures
        decimal_text(quotient) == decimal_quotient(decimal_text(lhs), decimal_text(rhs)),
{
    lhs / rhs
}

/// `<d128 as PartialEq>::eq`, which compares by number: decimals that
/// differ only in trailing zeros are equal, and a NaN equals nothing. What
/// it answers is named by `decimal_equal`.
#[verifier::external_body]
pub(crate) fn decimal_eq(lhs: &d128, rhs: &d128) -> (equal: bool)
    ensures
        equal == decimal_equal(decimal_text(*lhs), decimal_text(*rhs)),
{
    lhs == rhs
}

} // verus!
