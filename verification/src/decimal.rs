//! Decimal arithmetic that is carried out by `rust_decimal`.
//!
//! Nothing in this file is proved: each function hands its arguments to
//! `rust_decimal` and its contract is taken on trust from that crate's
//! behaviour.

use crate::fixed::{stripped, Fixed};
use std::cmp::Ordering;
use vstd::prelude::*;

verus! {

/// How two numbers stand to each other.
#[derive(Clone, Copy, Debug, PartialEq, Eq, Structural)]
pub enum Rank {
    Below,
    Level,
    Above,
}

impl Rank {
    /// Where `x` stands relative to `y`.
    pub open spec fn of(x: int, y: int) -> Rank {
        if x < y {
            Rank::Below
        } else if x == y {
            Rank::Level
        } else {
            Rank::Above
        }
    }
}

/// The decimal that `Decimal::from_str_exact` reads from a text, or `None`
/// where it rejects the text.
pub uninterp spec fn exact_decimal(text: Seq<char>) -> Option<Fixed>;

/// The result of `Decimal::checked_add`, or `None` where the sum overflows.
pub uninterp spec fn decimal_sum(a: Fixed, b: Fixed) -> Option<Fixed>;

/// The result of `Decimal::checked_div`, or `None` where the divisor is zero
/// or the quotient overflows.
pub uninterp spec fn decimal_quotient(a: Fixed, b: Fixed) -> Option<Fixed>;

/// The text that `Decimal`'s `Display` writes for a decimal.
pub uninterp spec fn decimal_text(d: Fixed) -> Seq<char>;

/// Calls `Decimal::from_str_exact`. Trusted: the outcome is a function of the
/// text alone, and a decimal that comes back is well formed, since it was
/// read off a `Decimal`.
#[verifier::external_body]
pub(crate) fn parse_exact(text: &str) -> (r: Option<Fixed>)
    ensures
        r == exact_decimal(text@),
        r matches Some(d) ==> d.wf(),
{
    match rust_decimal::Decimal::from_str_exact(text) {
        Ok(d) => Some(Fixed { mantissa: d.mantissa(), scale: d.scale() }),
        Err(_) => None,
    }
}

/// Calls `Decimal::cmp`. Trusted: it orders decimals by the numbers they
/// denote, whatever their scales.
#[verifier::external_body]
pub(crate) fn rank(a: &Fixed, b: &Fixed) -> (r: Rank)
    requires
        a.wf(),
        b.wf(),
    ensures
        r == Rank::of(a.units(), b.units()),
{
    let x = rust_decimal::Decimal::from_i128_with_scale(a.mantissa, a.scale);
    let y = rust_decimal::Decimal::from_i128_with_scale(b.mantissa, b.scale);
    match x.cmp(&y) {
        Ordering::Less => Rank::Below,
        Ordering::Equal => Rank::Level,
        Ordering::Greater => Rank::Above,
    }
}

/// Calls `Decimal::checked_add`. Trusted: the outcome is a function of the
/// two decimals alone, and a sum that comes back is well formed.
#[verifier::external_body]
pub(crate) fn checked_sum(a: &Fixed, b: &Fixed) -> (r: Option<Fixed>)
    requires
        a.wf(),
        b.wf(),
    ensures
        r == decimal_sum(*a, *b),
        r matches Some(d) ==> d.wf(),
{
    let x = rust_decimal::Decimal::from_i128_with_scale(a.mantissa, a.scale);
    let y = rust_decimal::Decimal::from_i128_with_scale(b.mantissa, b.scale);
    match x.checked_add(y) {
        Some(d) => Some(Fixed { mantissa: d.mantissa(), scale: d.scale() }),
        None => None,
    }
}

/// Calls `Decimal::checked_div`. Trusted: the outcome is a function of the
/// two decimals alone, and a quotient that comes back is well formed.
#[verifier::external_body]
pub(crate) fn checked_quotient(a: &Fixed, b: &Fixed) -> (r: Option<Fixed>)
    requires
        a.wf(),
        b.wf(),
    ensures
        r == decimal_quotient(*a, *b),
        r matches Some(d) ==> d.wf(),
{
    let x = rust_decimal::Decimal::from_i128_with_scale(a.mantissa, a.scale);
    let y = rust_decimal::Decimal::from_i128_with_scale(b.mantissa, b.scale);
    match x.checked_div(y) {
        Some(d) => Some(Fixed { mantissa: d.mantissa(), scale: d.scale() }),
        None => None,
    }
}

/// Calls `Decimal::normalize`. Trusted: it divides the coefficient by ten and
/// lowers the scale by one for as long as the scale is positive and the
/// coefficient ends in a zero.
#[verifier::external_body]
pub(crate) fn normalize(a: &Fixed) -> (r: Fixed)
    requires
        a.wf(),
    ensures
        r == stripped(*a),
{
    let d = rust_decimal::Decimal::from_i128_with_scale(a.mantissa, a.scale).normalize();
    Fixed { mantissa: d.mantissa(), scale: d.scale() }
}

/// Calls `to_string` on a `Decimal`. Trusted: the text is a function of the
/// decimal alone.
#[verifier::external_body]
pub(crate) fn to_text(a: &Fixed) -> (s: String)
    requires
        a.wf(),
    ensures
        s@ == decimal_text(*a),
{
    rust_decimal::Decimal::from_i128_with_scale(a.mantissa, a.scale).to_string()
}

} // verus!
