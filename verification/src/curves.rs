//! Bonding-curve price model.
//!
//! A curve variant maps to fixed parameters `(exponent, slope)`, and the
//! cumulative cost of having issued `q` units is the truncated integral
//! `floor(q^(exponent + 1) * slope / (exponent + 1))` — the antiderivative
//! of the price curve `price(q) = slope * q^exponent`.  The cost of minting
//! or burning a range of supply is a difference of two such integrals, so
//! the integral being zero at zero and monotone in the quantity are the two
//! facts the issuance engine leans on.

use vstd::prelude::*;

verus! {

use vstd::arithmetic::div_mod::lemma_div_basics_1;
use vstd::arithmetic::div_mod::lemma_div_is_ordered;
use vstd::arithmetic::div_mod::lemma_div_pos_is_pos;
use vstd::arithmetic::mul::lemma_mul_basics;
use vstd::arithmetic::mul::lemma_mul_inequality;
use vstd::arithmetic::mul::lemma_mul_is_commutative;
use vstd::arithmetic::mul::lemma_mul_nonnegative;
use vstd::arithmetic::mul::lemma_mul_upper_bound;
use vstd::arithmetic::power::lemma0_pow;
use vstd::arithmetic::power::lemma_pow0;
use vstd::arithmetic::power::lemma_pow_increases;
use vstd::arithmetic::power::pow;

/// Fixed parameters of one bonding curve.
#[derive(Clone, Copy, PartialEq, Eq, Structural, Debug)]
pub struct CurveConfig {
    pub exponent: u32,
    pub slope: u128,
}

/// The enumerated curve variants; each maps to one fixed `CurveConfig`.
#[derive(Clone, Copy, PartialEq, Eq, Structural, Debug)]
pub enum CurveType {
    Linear,
    Exponential,
    Flat,
    Logarithmic,
}

/// The cumulative price integral as a mathematical value: the cost to have
/// issued exactly `x` units, truncated toward zero.  Truncation biases the
/// protocol in the issuer's favor by at most one indivisible unit per call;
/// this is the accepted rounding policy, not a defect.
pub open spec fn spec_integral(exponent: u32, slope: u128, x: u128) -> int {
    pow(x as int, (exponent + 1) as nat) * slope / (exponent + 1)
}

/// Whether the integral at `x` can be computed in 128-bit arithmetic:
/// both the power and its product with the slope must fit.
pub open spec fn integral_fits(exponent: u32, slope: u128, x: u128) -> bool {
    &&& pow(x as int, (exponent + 1) as nat) <= u128::MAX
    &&& pow(x as int, (exponent + 1) as nat) * slope <= u128::MAX
}

/// The fixed parameters of each curve variant.
pub open spec fn spec_curve_config(curve: CurveType) -> CurveConfig {
    match curve {
        CurveType::Exponential => CurveConfig { exponent: 10, slope: 10 },
        CurveType::Flat => CurveConfig { exponent: 100, slope: 100 },
        CurveType::Linear => CurveConfig { exponent: 50, slope: 100 },
        CurveType::Logarithmic => CurveConfig { exponent: 90, slope: 100 },
    }
}

impl Default for CurveConfig {
    fn default() -> (r: Self)
        ensures
            r.exponent == 1 && r.slope == 1,
    {
        Self { exponent: 1, slope: 1 }
    }
}

impl CurveType {
    pub fn get_curve_config(&self) -> (r: CurveConfig)
        ensures
            r == spec_curve_config(*self),
    {
        match self {
            CurveType::Exponential => CurveConfig { exponent: 10, slope: 10 },
            CurveType::Flat => CurveConfig { exponent: 100, slope: 100 },
            CurveType::Linear => CurveConfig { exponent: 50, slope: 100 },
            CurveType::Logarithmic => CurveConfig { exponent: 90, slope: 100 },
        }
    }
}

/// `base^exp`, or `None` when the power exceeds the 128-bit range.
fn pow_checked(base: u128, exp: u64) -> (r: Option<u128>)
    ensures
        r is Some <==> pow(base as int, exp as nat) <= u128::MAX,
        r matches Some(v) ==> v as int == pow(base as int, exp as nat),
{
    let mut result: u128 = 1;
    let mut i: u64 = 0;
    proof {
        lemma_pow0(base as int);
    }
    while i < exp
        invariant
            i <= exp,
            result as int == pow(base as int, i as nat),
        decreases exp - i,
    {
        proof {
            reveal(pow);
            lemma_mul_is_commutative(base as int, pow(base as int, i as nat));
            assert(pow(base as int, (i + 1) as nat) == pow(base as int, i as nat) * base);
        }
        match result.checked_mul(base) {
            Some(v) => {
                result = v;
            },
            None => {
                proof {
                    // The next power already exceeds the range, and powers of a
                    // base >= 1 only grow with the exponent.
                    lemma_mul_basics(result as int);
                    assert(base >= 1);
                    lemma_pow_increases(base as nat, (i + 1) as nat, exp as nat);
                }
                return None;
            },
        }
        i = i + 1;
    }
    Some(result)
}

impl CurveConfig {
    /// The cumulative cost of having issued exactly `x` units under this
    /// curve, or `None` when the value overflows 128-bit arithmetic; the
    /// caller must surface that as an arithmetic failure, never wrap.
    pub fn integral(&self, x: u128) -> (r: Option<u128>)
        ensures
            r is Some <==> integral_fits(self.exponent, self.slope, x),
            r matches Some(v) ==> v as int == spec_integral(self.exponent, self.slope, x),
    {
        let nexp: u64 = self.exponent as u64 + 1;
        let p: u128 = match pow_checked(x, nexp) {
            Some(p) => p,
            None => {
                return None;
            },
        };
        let prod: u128 = match p.checked_mul(self.slope) {
            Some(v) => v,
            None => {
                return None;
            },
        };
        Some(prod / (nexp as u128))
    }
}

/// Raising a larger base to the same power yields a larger (and still
/// non-negative) value.
proof fn lemma_pow_base_ordered(a: int, b: int, e: nat)
    requires
        0 <= a <= b,
    ensures
        0 <= pow(a, e) <= pow(b, e),
    decreases e,
{
    reveal(pow);
    if e != 0 {
        lemma_pow_base_ordered(a, b, (e - 1) as nat);
        lemma_mul_nonnegative(a, pow(a, (e - 1) as nat));
        lemma_mul_upper_bound(a, b, pow(a, (e - 1) as nat), pow(b, (e - 1) as nat));
    }
}

/// The integral vanishes at quantity zero, whatever the parameters.
pub proof fn lemma_integral_zero(exponent: u32, slope: u128)
    ensures
        spec_integral(exponent, slope, 0) == 0,
{
    lemma0_pow((exponent + 1) as nat);
    lemma_mul_basics(slope as int);
    lemma_div_basics_1(exponent + 1);
}

/// The integral is monotone: for any parameters and any `0 <= a <= b`,
/// `integral(a) <= integral(b)`, so the cost of a supply range —
/// `integral(b) - integral(a)` — is never negative.
pub proof fn lemma_integral_monotonic(exponent: u32, slope: u128, a: u128, b: u128)
    requires
        a <= b,
    ensures
        0 <= spec_integral(exponent, slope, a),
        spec_integral(exponent, slope, a) <= spec_integral(exponent, slope, b),
{
    let e1 = (exponent + 1) as nat;
    lemma_pow_base_ordered(a as int, b as int, e1);
    lemma_mul_inequality(pow(a as int, e1), pow(b as int, e1), slope as int);
    lemma_mul_nonnegative(pow(a as int, e1), slope as int);
    lemma_div_is_ordered(pow(a as int, e1) * slope, pow(b as int, e1) * slope, exponent + 1);
    lemma_div_pos_is_pos(pow(a as int, e1) * slope, exponent + 1);
}

/// If the integral is computable at `b`, it is computable anywhere below.
pub proof fn lemma_integral_fits_monotonic(exponent: u32, slope: u128, a: u128, b: u128)
    requires
        a <= b,
        integral_fits(exponent, slope, b),
    ensures
        integral_fits(exponent, slope, a),
{
    let e1 = (exponent + 1) as nat;
    lemma_pow_base_ordered(a as int, b as int, e1);
    lemma_mul_inequality(pow(a as int, e1), pow(b as int, e1), slope as int);
}

/// Monotonicity, stated per curve variant: for any variant and any
/// `0 <= a <= b`, `integral(b) - integral(a) >= 0`.
pub proof fn lemma_curve_integral_monotonic(curve: CurveType, a: u128, b: u128)
    requires
        a <= b,
    ensures
        spec_integral(
            spec_curve_config(curve).exponent,
            spec_curve_config(curve).slope,
            b,
        ) - spec_integral(spec_curve_config(curve).exponent, spec_curve_config(curve).slope, a)
            >= 0,
{
    let cfg = spec_curve_config(curve);
    lemma_integral_monotonic(cfg.exponent, cfg.slope, a, b);
}

/// The integral vanishes at zero, stated per curve variant.
pub proof fn lemma_curve_integral_zero(curve: CurveType)
    ensures
        spec_integral(spec_curve_config(curve).exponent, spec_curve_config(curve).slope, 0) == 0,
{
    let cfg = spec_curve_config(curve);
    lemma_integral_zero(cfg.exponent, cfg.slope);
}

} // verus!
