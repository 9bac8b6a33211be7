//! Monetary amounts as fixed-point values.
//!
//! A finite amount is a count of hundredths of a currency unit (cents), so
//! every representable amount is already rounded to the 0.01 grid that most
//! currencies use. `NonFinite` stands for the values that carry no magnitude
//! (the result of dividing out a senseless exchange rate, for example); it
//! passes through conversion unchanged, normalizes to zero and renders as
//! "N/A".
//!
//! Rounding policy: half-away-from-zero, stated by `div_round_half_away`.

use vstd::prelude::*;

verus! {

/// A monetary amount: a signed count of cents, or a value with no magnitude.
#[derive(Clone, Copy, Debug, PartialEq, Eq, Structural)]
pub enum Amount {
    Finite(i64),
    NonFinite,
}

pub open spec fn amount_is_finite(a: Amount) -> bool {
    a is Finite
}

/// The cent count of a finite amount.
pub open spec fn amount_cents(a: Amount) -> int {
    a->Finite_0 as int
}

/// The nearest integer to `n / d`, ties rounded away from zero; `d >= 1`.
pub open spec fn div_round_half_away(n: int, d: int) -> int {
    if n >= 0 {
        (2 * n + d) / (2 * d)
    } else {
        -((2 * (-n) + d) / (2 * d))
    }
}

/// `v` rounded to the nearest multiple of the quantum `q`, ties away from
/// zero.
pub open spec fn round_to_quantum(v: int, q: int) -> int {
    q * div_round_half_away(v, q)
}

/// `a` scaled by an occurrence count; a product that leaves the fixed-point
/// range has no magnitude.
pub open spec fn scale_amount_spec(a: Amount, n: nat) -> Amount {
    match a {
        Amount::Finite(v) => {
            if i64::MIN <= v * n <= i64::MAX {
                Amount::Finite((v * n) as i64)
            } else {
                Amount::NonFinite
            }
        },
        Amount::NonFinite => Amount::NonFinite,
    }
}

impl Amount {
    pub fn is_finite(&self) -> (r: bool)
        ensures
            r == amount_is_finite(*self),
    {
        match self {
            Amount::Finite(_) => true,
            Amount::NonFinite => false,
        }
    }

    /// The amount multiplied by an occurrence count.
    pub fn scale(&self, n: u64) -> (r: Amount)
        ensures
            r == scale_amount_spec(*self, n as nat),
    {
        match self {
            Amount::Finite(v) => {
                proof {
                    assert((*v as int) * (n as int) <= i128::MAX && (*v as int) * (n as int)
                        >= i128::MIN) by (nonlinear_arith)
                        requires
                            i64::MIN <= *v <= i64::MAX,
                            0 <= n <= u64::MAX,
                    ;
                }
                let prod: i128 = (*v as i128) * (n as i128);
                if i64::MIN as i128 <= prod && prod <= i64::MAX as i128 {
                    Amount::Finite(prod as i64)
                } else {
                    Amount::NonFinite
                }
            },
            Amount::NonFinite => Amount::NonFinite,
        }
    }
}

/// Rounding division on non-negative operands.
pub fn div_round_u128(n: u128, d: u128) -> (r: u128)
    requires
        1 <= d,
        2 * n + d <= u128::MAX,
        2 * d <= u128::MAX,
    ensures
        r == div_round_half_away(n as int, d as int),
        r <= n,
{
    proof {
        vstd::arithmetic::div_mod::lemma_fundamental_div_mod((2 * n + d) as int, (2 * d) as int);
        vstd::arithmetic::div_mod::lemma_mod_bound((2 * n + d) as int, (2 * d) as int);
        assert((2 * n + d) as int / (2 * d) as int <= n as int) by (nonlinear_arith)
            requires
                1 <= d,
                (2 * n + d) == (2 * d) * ((2 * n + d) as int / (2 * d) as int) + (2 * n + d) as int
                    % (2 * d) as int,
                0 <= (2 * n + d) as int % (2 * d) as int,
        ;
    }
    (2 * n + d) / (2 * d)
}

/// Rounding division with a signed numerator.
pub fn div_round_i128(n: i128, d: i128) -> (r: i128)
    requires
        1 <= d,
        2 * vstd::math::abs(n as int) + d <= i128::MAX,
        2 * d <= i128::MAX,
    ensures
        r == div_round_half_away(n as int, d as int),
        vstd::math::abs(r as int) <= vstd::math::abs(n as int),
{
    if n >= 0 {
        div_round_u128(n as u128, d as u128) as i128
    } else {
        let m: u128 = (-n) as u128;
        -(div_round_u128(m, d as u128) as i128)
    }
}

/// The rounding error of `div_round_half_away` is at most half the divisor:
/// `|d * round(n / d) - n| <= d / 2`.
pub proof fn lemma_div_round_err(n: int, d: int)
    requires
        1 <= d,
    ensures
        2 * vstd::math::abs(d * div_round_half_away(n, d) - n) <= d,
{
    if n >= 0 {
        lemma_div_round_err_nonneg(n, d);
    } else {
        lemma_div_round_err_nonneg(-n, d);
        let rp = div_round_half_away(-n, d);
        assert(div_round_half_away(n, d) == -rp);
        assert(d * (-rp) == -(d * rp)) by (nonlinear_arith);
    }
}

proof fn lemma_div_round_err_nonneg(n: int, d: int)
    requires
        1 <= d,
        0 <= n,
    ensures
        2 * vstd::math::abs(d * div_round_half_away(n, d) - n) <= d,
{
    let r = (2 * n + d) / (2 * d);
    let m = (2 * n + d) % (2 * d);
    vstd::arithmetic::div_mod::lemma_fundamental_div_mod(2 * n + d, 2 * d);
    vstd::arithmetic::div_mod::lemma_mod_bound(2 * n + d, 2 * d);
    assert(2 * (d * r) == (2 * d) * r) by (nonlinear_arith);
    assert(2 * (d * r - n) == d - m);
}

} // verus!
