//! Exact fixed-point decimals: an integer coefficient and a count of decimal
//! places.

use vstd::prelude::*;

verus! {

/// Largest magnitude of a coefficient: `2^96 - 1`.
pub const MAX_COEFFICIENT: i128 = 79228162514264337593543950335;

/// Largest number of decimal places.
pub const MAX_SCALE: u32 = 28;

/// `10^28`: how many units of the finest resolution make up one.
pub const ONE_IN_UNITS: u128 = 10000000000000000000000000000;

/// `10^e`.
pub open spec fn pow10(e: nat) -> int
    decreases e,
{
    if e == 0 {
        1
    } else {
        10 * pow10((e - 1) as nat)
    }
}

/// The decimal `mantissa / 10^scale`.
#[derive(Clone, Copy, Debug, PartialEq, Eq, Structural)]
pub struct Fixed {
    pub mantissa: i128,
    pub scale: u32,
}

impl Fixed {
    /// The coefficient fits in 96 bits and there are at most 28 decimal places.
    pub open spec fn wf(self) -> bool {
        &&& -MAX_COEFFICIENT <= self.mantissa <= MAX_COEFFICIENT
        &&& self.scale <= MAX_SCALE
    }

    /// The value counted in units of `10^-28`, the finest resolution any
    /// well-formed decimal has. Two decimals denote the same number exactly
    /// when their unit counts agree.
    pub open spec fn units(self) -> int {
        self.mantissa * pow10((MAX_SCALE - self.scale) as nat)
    }

    /// Zero without decimal places.
    pub open spec fn zero() -> Fixed {
        Fixed { mantissa: 0, scale: 0 }
    }

    /// The whole number `n` with no decimal places.
    pub open spec fn whole(n: int) -> Fixed {
        Fixed { mantissa: n as i128, scale: 0 }
    }

    /// Tells whether the decimal is well formed.
    pub fn is_valid(&self) -> (ok: bool)
        ensures
            ok == self.wf(),
    {
        -MAX_COEFFICIENT <= self.mantissa && self.mantissa <= MAX_COEFFICIENT && self.scale
            <= MAX_SCALE
    }

    /// The whole number `n` as a decimal without decimal places.
    pub fn from_i64(n: i64) -> (d: Fixed)
        ensures
            d == Fixed::whole(n as int),
            d.wf(),
            d.units() == n * pow10(28),
    {
        Fixed { mantissa: n as i128, scale: 0 }
    }
}

/// Powers of ten grow with the exponent and stay positive.
pub proof fn lemma_pow10_monotonic(a: nat, b: nat)
    requires
        a <= b,
    ensures
        0 < pow10(a) <= pow10(b),
    decreases b,
{
    if a < b {
        lemma_pow10_monotonic(a, (b - 1) as nat);
    } else if a > 0 {
        lemma_pow10_monotonic((a - 1) as nat, (b - 1) as nat);
    }
}

/// `pow10` splits over a sum of exponents.
pub proof fn lemma_pow10_adds(a: nat, b: nat)
    ensures
        pow10(a + b) == pow10(a) * pow10(b),
    decreases a,
{
    if a > 0 {
        lemma_pow10_adds((a - 1) as nat, b);
        assert(pow10(a + b) == 10 * pow10((a - 1 + b) as nat));
        assert(10 * (pow10((a - 1) as nat) * pow10(b)) == (10 * pow10((a - 1) as nat)) * pow10(b))
            by (nonlinear_arith);
    } else {
        assert(pow10(a + b) == 1 * pow10(b));
    }
}

/// Two decimals that denote the same number with the same count of decimal
/// places are the same decimal.
pub proof fn lemma_units_and_scale_determine(a: Fixed, b: Fixed)
    requires
        a.units() == b.units(),
        a.scale == b.scale,
    ensures
        a == b,
{
    let power = pow10((MAX_SCALE - a.scale) as nat);
    lemma_pow10_monotonic(0, (MAX_SCALE - a.scale) as nat);
    assert(a.mantissa == b.mantissa) by (nonlinear_arith)
        requires
            a.mantissa * power == b.mantissa * power,
            power > 0,
    ;
}

/// A decimal without trailing zeros among its decimal places: the same
/// number with the fewest decimal places that can hold it.
pub open spec fn stripped(d: Fixed) -> Fixed
    decreases d.scale,
{
    if d.scale > 0 && d.mantissa % 10 == 0 {
        stripped(Fixed { mantissa: (d.mantissa / 10) as i128, scale: (d.scale - 1) as u32 })
    } else {
        d
    }
}

/// Stripping trailing zeros keeps a decimal well formed and keeps the number
/// that it denotes.
pub proof fn lemma_stripped_keeps_value(d: Fixed)
    requires
        d.wf(),
    ensures
        stripped(d).wf(),
        stripped(d).units() == d.units(),
        stripped(d).scale <= d.scale,
    decreases d.scale,
{
    if d.scale > 0 && d.mantissa % 10 == 0 {
        let m: int = d.mantissa / 10;
        let next = Fixed { mantissa: m as i128, scale: (d.scale - 1) as u32 };
        assert(m * 10 == d.mantissa);
        assert(next.mantissa == m);
        let power = pow10((MAX_SCALE - d.scale) as nat);
        assert(pow10((MAX_SCALE - next.scale) as nat) == 10 * power);
        assert(m * (10 * power) == (m * 10) * power) by (nonlinear_arith);
        assert(next.units() == d.units());
        lemma_stripped_keeps_value(next);
    }
}

/// The value of `10^28`.
pub proof fn lemma_pow10_28()
    ensures
        pow10(28) == ONE_IN_UNITS,
{
    assert(pow10(7) == 10000000) by {
        reveal_with_fuel(pow10, 8);
    }
    lemma_pow10_adds(7, 7);
    lemma_pow10_adds(14, 14);
    assert(pow10(14) == 100000000000000);
    assert(pow10(28) == 100000000000000 * 100000000000000);
}

/// `10^k` for an exponent of at most 28.
pub fn ten_to(k: u32) -> (r: u128)
    requires
        k <= MAX_SCALE,
    ensures
        r == pow10(k as nat),
        1 <= r <= ONE_IN_UNITS,
{
    let mut r: u128 = 1;
    let mut i: u32 = 0;
    proof {
        lemma_pow10_28();
        lemma_pow10_monotonic(0, 28);
    }
    while i < k
        invariant
            i <= k <= MAX_SCALE,
            r == pow10(i as nat),
            pow10(28) == ONE_IN_UNITS,
        decreases k - i,
    {
        proof {
            lemma_pow10_monotonic((i + 1) as nat, 28);
        }
        r = r * 10;
        i = i + 1;
    }
    proof {
        lemma_pow10_monotonic(k as nat, 28);
    }
    r
}

} // verus!
