//! How many observations are cut from each end of the sorted data.

use crate::fixed::{
    lemma_pow10_28, lemma_pow10_adds, lemma_pow10_monotonic, pow10, ten_to, Fixed, MAX_SCALE,
    ONE_IN_UNITS,
};
use vstd::arithmetic::div_mod::{
    lemma_div_multiples_vanish_quotient, lemma_fundamental_div_mod_converse,
};
use vstd::prelude::*;

verus! {

/// A proportion is a decimal `p` with `0 <= p < 1`.
pub open spec fn is_proportion(p: Fixed) -> bool {
    &&& p.wf()
    &&& 0 <= p.units() < pow10(28)
}

/// `⌊(n · p) / 2⌋`, the number of observations cut from each end of `n`
/// sorted observations under the proportion `p`. With `p` counted in units
/// of `10^-28` this is `⌊n · units / (2 · 10^28)⌋`.
pub open spec fn trim_count(n: nat, p: Fixed) -> int {
    (n * p.units()) / (2 * pow10(28))
}

/// A proportion cuts fewer than half of the observations from each end, so
/// at least one of `n >= 1` observations is kept.
pub proof fn lemma_trim_leaves_some(n: nat, p: Fixed)
    requires
        is_proportion(p),
    ensures
        0 <= trim_count(n, p),
        2 * trim_count(n, p) <= n,
        n >= 1 ==> 2 * trim_count(n, p) < n,
{
    let u = p.units();
    let d = 2 * pow10(28);
    let t = trim_count(n, p);
    lemma_pow10_28();
    assert(0 <= n * u) by (nonlinear_arith)
        requires
            0 <= u,
    ;
    assert(n >= 1 ==> 2 * (n * u) < n * d) by (nonlinear_arith)
        requires
            0 <= u,
            2 * u < d,
    ;
    assert(0 <= t && t * d <= n * u) by (nonlinear_arith)
        requires
            0 <= n * u,
            d > 0,
            t == (n * u) / d,
    ;
    assert(2 * t <= n && (n >= 1 ==> 2 * t < n)) by (nonlinear_arith)
        requires
            t * d <= n * u,
            0 <= t,
            0 <= u,
            2 * u < d,
            d > 0,
            n >= 1 ==> 2 * (n * u) < n * d,
    ;
}

/// Read off the digits of the proportion `p = mantissa / 10^scale`, the
/// number cut from each end is `⌊n · mantissa / (2 · 10^scale)⌋`.
pub proof fn lemma_trim_count_in_digits(n: nat, p: Fixed)
    requires
        is_proportion(p),
    ensures
        trim_count(n, p) == (n * p.mantissa) / (2 * pow10(p.scale as nat)),
{
    let rest = (MAX_SCALE - p.scale) as nat;
    let widen = pow10(rest);
    let power = pow10(p.scale as nat);
    lemma_pow10_monotonic(0, rest);
    lemma_pow10_monotonic(0, p.scale as nat);
    lemma_pow10_adds(rest, p.scale as nat);
    assert(pow10(28) == widen * power);
    assert(0 <= p.mantissa) by (nonlinear_arith)
        requires
            0 <= p.mantissa * widen,
            widen > 0,
    ;
    assert(0 <= n * p.mantissa) by (nonlinear_arith)
        requires
            0 <= p.mantissa,
    ;
    lemma_div_multiples_vanish_quotient(widen, n * p.mantissa, 2 * power);
    assert(widen * (n * p.mantissa) == n * (p.mantissa * widen)) by (nonlinear_arith);
    assert(widen * (2 * power) == 2 * (widen * power)) by (nonlinear_arith);
}

/// Under the proportion zero nothing is cut.
pub proof fn lemma_zero_cuts_nothing(n: nat, p: Fixed)
    requires
        p.units() == 0,
    ensures
        trim_count(n, p) == 0,
{
    lemma_pow10_28();
    assert(n * p.units() == 0) by (nonlinear_arith)
        requires
            p.units() == 0,
    ;
}

/// The number of observations to cut from each end of `n` sorted
/// observations.
pub fn count_to_trim(n: usize, p: &Fixed) -> (t: usize)
    requires
        is_proportion(*p),
    ensures
        t == trim_count(n as nat, *p),
        2 * t <= n,
        n >= 1 ==> 2 * t < n,
{
    proof {
        lemma_pow10_28();
        lemma_trim_leaves_some(n as nat, *p);
    }
    let shift: u32 = MAX_SCALE - p.scale;
    let power: u128 = ten_to(shift);
    assert(0 <= p.mantissa && p.mantissa * power < ONE_IN_UNITS) by (nonlinear_arith)
        requires
            0 <= p.mantissa * power < ONE_IN_UNITS,
            power >= 1,
    ;
    let units: u128 = (p.mantissa as u128) * power;
    let divisor: u128 = 2 * ONE_IN_UNITS;
    let count: u64 = n as u64;
    let high: u128 = (count / 4294967296) as u128;
    let low: u128 = (count % 4294967296) as u128;
    assert(high * units <= 4294967295 * ONE_IN_UNITS && low * units <= 4294967295
        * ONE_IN_UNITS) by (nonlinear_arith)
        requires
            high <= 4294967295,
            low <= 4294967295,
            units < ONE_IN_UNITS,
    ;
    let upper: u128 = high * units;
    let upper_quotient: u128 = upper / divisor;
    let upper_rest: u128 = upper % divisor;
    assert(upper_rest * 4294967296 <= 2 * ONE_IN_UNITS * 4294967296) by (nonlinear_arith)
        requires
            upper_rest < 2 * ONE_IN_UNITS,
    ;
    let lower: u128 = upper_rest * 4294967296 + low * units;
    let lower_quotient: u128 = lower / divisor;
    assert(upper_quotient <= 2147483648) by (nonlinear_arith)
        requires
            upper_quotient == upper / divisor,
            upper <= 4294967295 * ONE_IN_UNITS,
            divisor == 2 * ONE_IN_UNITS,
    ;
    let quotient: u128 = upper_quotient * 4294967296 + lower_quotient;
    proof {
        let whole: int = n * p.units();
        assert(upper == upper_quotient * divisor + upper_rest) by (nonlinear_arith)
            requires
                upper_quotient == upper / divisor,
                upper_rest == upper % divisor,
                divisor > 0,
        ;
        assert(lower == lower_quotient * divisor + lower % divisor) by (nonlinear_arith)
            requires
                lower_quotient == lower / divisor,
                divisor > 0,
        ;
        assert(whole == quotient * divisor + lower % divisor) by (nonlinear_arith)
            requires
                whole == (high * 4294967296 + low) * units,
                high * units == upper_quotient * divisor + upper_rest,
                upper_rest * 4294967296 + low * units == lower_quotient * divisor + lower
                    % divisor,
                quotient == upper_quotient * 4294967296 + lower_quotient,
        ;
        lemma_fundamental_div_mod_converse(
            whole,
            divisor as int,
            quotient as int,
            (lower % divisor) as int,
        );
    }
    quotient as usize
}

} // verus!
