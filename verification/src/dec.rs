//! Exact decimal numbers for the arithmetic and condition evaluators.
//!
//! A number is a sign and a magnitude counted in billionths: the value
//! of `Dec { neg, mag }` is `(-1)^neg * mag / 10^9`.  Nine fractional
//! digits are kept; results are truncated toward zero beyond that, and
//! magnitudes saturate at just under `10^19` whole units.

use vstd::prelude::*;

verus! {

use vstd::arithmetic::div_mod::lemma_fundamental_div_mod;
use vstd::arithmetic::div_mod::lemma_div_is_ordered;
use vstd::arithmetic::mul::lemma_mul_inequality;

/// `10^9`: the fixed denominator of every [`Dec`].
pub const BILLION: u128 = 1_000_000_000;

/// Largest representable magnitude: `(10^19 - 1) * 10^9` billionths.
pub const MAG_SAT: u128 = 9_999_999_999_999_999_999_000_000_000;

/// Largest product of billionth-magnitudes whose truncated quotient by
/// `10^9` still fits: `MAG_SAT * BILLION + BILLION - 1`.
pub const MUL_LIMIT: u128 = MAG_SAT * BILLION + BILLION - 1;

/// A signed decimal with nine fractional digits.
///
/// Well-formed values keep `mag` at most [`MAG_SAT`] and never mark
/// zero as negative.
#[derive(Clone, Copy, PartialEq, Eq, Structural)]
pub struct Dec {
    pub neg: bool,
    pub mag: u128,
}

/// Well-formedness of a [`Dec`].
pub open spec fn dec_wf(d: Dec) -> bool {
    d.mag <= MAG_SAT && (d.mag == 0 ==> !d.neg)
}

/// The decimal zero.
pub open spec fn spec_zero() -> Dec {
    Dec { neg: false, mag: 0 }
}

/// The decimal one.
pub open spec fn spec_one() -> Dec {
    Dec { neg: false, mag: BILLION }
}

/// The canonical decimal with the given sign and (mathematical)
/// magnitude in billionths, clamping at [`MAG_SAT`] and normalising
/// the sign of zero.
pub open spec fn spec_mk(neg: bool, mag: int) -> Dec {
    let m: int = if mag > MAG_SAT {
        MAG_SAT as int
    } else if mag < 0 {
        0
    } else {
        mag
    };
    Dec { neg: neg && m != 0, mag: m as u128 }
}

/// Executable mirror of [`spec_mk`] for magnitudes already in `u128`.
pub fn mk_dec(neg: bool, mag: u128) -> (r: Dec)
    ensures
        r == spec_mk(neg, mag as int),
        dec_wf(r),
{
    let m: u128 = if mag > MAG_SAT {
        MAG_SAT
    } else {
        mag
    };
    Dec { neg: neg && m != 0, mag: m }
}

/// Sum of two decimals: magnitudes add on equal signs and subtract on
/// opposite ones, the larger magnitude giving the sign.
pub open spec fn spec_add(a: Dec, b: Dec) -> Dec {
    if a.neg == b.neg {
        spec_mk(a.neg, a.mag + b.mag)
    } else if a.mag >= b.mag {
        spec_mk(a.neg, a.mag - b.mag)
    } else {
        spec_mk(b.neg, b.mag - a.mag)
    }
}

/// Executable mirror of [`spec_add`].
pub fn dec_add(a: Dec, b: Dec) -> (r: Dec)
    requires
        dec_wf(a),
        dec_wf(b),
    ensures
        r == spec_add(a, b),
        dec_wf(r),
{
    if a.neg == b.neg {
        mk_dec(a.neg, a.mag + b.mag)
    } else if a.mag >= b.mag {
        mk_dec(a.neg, a.mag - b.mag)
    } else {
        mk_dec(b.neg, b.mag - a.mag)
    }
}

/// Difference `a - b`: the sum of `a` and the negation of `b`.
pub open spec fn spec_sub(a: Dec, b: Dec) -> Dec {
    spec_add(a, Dec { neg: !b.neg, mag: b.mag })
}

/// Executable mirror of [`spec_sub`].
pub fn dec_sub(a: Dec, b: Dec) -> (r: Dec)
    requires
        dec_wf(a),
        dec_wf(b),
    ensures
        r == spec_sub(a, b),
        dec_wf(r),
{
    let nb = Dec { neg: !b.neg, mag: b.mag };
    if a.neg == nb.neg {
        mk_dec(a.neg, a.mag + nb.mag)
    } else if a.mag >= nb.mag {
        mk_dec(a.neg, a.mag - nb.mag)
    } else {
        mk_dec(nb.neg, nb.mag - a.mag)
    }
}

/// Product of two decimals, truncated toward zero at nine fractional
/// digits and saturating at the largest magnitude.
pub open spec fn spec_mul(a: Dec, b: Dec) -> Dec {
    spec_mk(a.neg != b.neg, (a.mag * b.mag) / (BILLION as int))
}

/// Executable mirror of [`spec_mul`].
pub fn dec_mul(a: Dec, b: Dec) -> (r: Dec)
    requires
        dec_wf(a),
        dec_wf(b),
    ensures
        r == spec_mul(a, b),
        dec_wf(r),
{
    let neg = a.neg != b.neg;
    if b.mag == 0 {
        proof {
            assert((a.mag * b.mag) / (BILLION as int) == 0);
        }
        mk_dec(neg, 0)
    } else if a.mag > MUL_LIMIT / b.mag {
        proof {
            lemma_prod_saturates(a.mag as int, b.mag as int);
        }
        mk_dec(neg, MAG_SAT)
    } else {
        proof {
            lemma_prod_fits(a.mag as int, b.mag as int);
        }
        let p: u128 = a.mag * b.mag;
        let q: u128 = p / BILLION;
        mk_dec(neg, q)
    }
}

proof fn lemma_prod_fits(a: int, b: int)
    requires
        b > 0,
        a >= 0,
        a <= (MUL_LIMIT as int) / b,
    ensures
        a * b <= MUL_LIMIT,
        (a * b) / (BILLION as int) <= MAG_SAT,
{
    let l = MUL_LIMIT as int;
    let f = l / b;
    lemma_mul_inequality(a, f, b);
    lemma_fundamental_div_mod(l, b);
    assert(f * b <= l);
    assert(a * b <= l);
    lemma_div_is_ordered(a * b, l, BILLION as int);
    assert(l / (BILLION as int) == MAG_SAT);
}

proof fn lemma_prod_saturates(a: int, b: int)
    requires
        b > 0,
        a > (MUL_LIMIT as int) / b,
    ensures
        (a * b) / (BILLION as int) > MAG_SAT,
{
    let l = MUL_LIMIT as int;
    let f = l / b;
    lemma_mul_inequality(f + 1, a, b);
    lemma_fundamental_div_mod(l, b);
    assert((f + 1) * b == f * b + b) by (nonlinear_arith);
    assert(f * b + b > l);
    assert(a * b >= l + 1);
    lemma_div_is_ordered(l + 1, a * b, BILLION as int);
    assert((l + 1) / (BILLION as int) == MAG_SAT + 1);
}

/// Quotient `a / b` for `b != 0`, truncated toward zero at nine
/// fractional digits and saturating at the largest magnitude.
pub open spec fn spec_div(a: Dec, b: Dec) -> Dec {
    spec_mk(a.neg != b.neg, (a.mag * BILLION) / (b.mag as int))
}

/// Executable mirror of [`spec_div`].
pub fn dec_div(a: Dec, b: Dec) -> (r: Dec)
    requires
        dec_wf(a),
        dec_wf(b),
        b.mag != 0,
    ensures
        r == spec_div(a, b),
        dec_wf(r),
{
    let p: u128 = a.mag * BILLION;
    let q: u128 = p / b.mag;
    mk_dec(a.neg != b.neg, q)
}

/// Remainder `a % b` for `b != 0`: the sign follows the dividend, as
/// truncated division demands.
pub open spec fn spec_rem(a: Dec, b: Dec) -> Dec {
    spec_mk(a.neg, (a.mag as int) % (b.mag as int))
}

/// Executable mirror of [`spec_rem`].
pub fn dec_rem(a: Dec, b: Dec) -> (r: Dec)
    requires
        dec_wf(a),
        dec_wf(b),
        b.mag != 0,
    ensures
        r == spec_rem(a, b),
        dec_wf(r),
{
    mk_dec(a.neg, a.mag % b.mag)
}

/// Whether `a` is strictly smaller than `b` as a signed value.
pub open spec fn spec_lt(a: Dec, b: Dec) -> bool {
    if a.neg != b.neg {
        a.neg
    } else if a.neg {
        a.mag > b.mag
    } else {
        a.mag < b.mag
    }
}

/// Executable mirror of [`spec_lt`].
pub fn dec_lt(a: Dec, b: Dec) -> (r: bool)
    ensures
        r == spec_lt(a, b),
{
    if a.neg != b.neg {
        a.neg
    } else if a.neg {
        a.mag > b.mag
    } else {
        a.mag < b.mag
    }
}

/// `base` raised to the natural power `e` by repeated squaring, with
/// the same truncation and saturation as multiplication.
pub open spec fn spec_pow(base: Dec, e: nat) -> Dec
    decreases e,
{
    if e == 0 {
        spec_one()
    } else if e % 2 == 0 {
        let h = spec_pow(base, e / 2);
        spec_mul(h, h)
    } else {
        spec_mul(base, spec_pow(base, (e - 1) as nat))
    }
}

/// Executable mirror of [`spec_pow`].
pub fn dec_pow(base: Dec, e: u128) -> (r: Dec)
    requires
        dec_wf(base),
    ensures
        r == spec_pow(base, e as nat),
        dec_wf(r),
    decreases e,
{
    if e == 0 {
        Dec { neg: false, mag: BILLION }
    } else if e % 2 == 0 {
        let h = dec_pow(base, e / 2);
        dec_mul(h, h)
    } else {
        let t = dec_pow(base, e - 1);
        dec_mul(base, t)
    }
}

} // verus!
