use vstd::prelude::*;
use vstd::arithmetic::div_mod::{lemma_fundamental_div_mod, lemma_mod_division_less_than_divisor};
use vstd::arithmetic::mul::lemma_mul_left_inequality;

verus! {

/// Computes `a * b / d` with a 256-bit intermediate product, so that the
/// multiplication cannot overflow before the division.
///
/// Relies on `primitive_types::U256`: `From<u128>` embeds the value exactly,
/// `*` and `/` are exact 256-bit multiplication and truncating division (the
/// product of two 128-bit values always fits in 256 bits, so `*` cannot
/// reach its overflow panic, and `d > 0` keeps `/` from its division-by-zero
/// panic), and `u128::try_from` returns `Err` exactly when the quotient
/// needs more than 128 bits.
#[verifier::external_body]
pub fn mul_div(a: u128, b: u128, d: u128) -> (r: Option<u128>)
    requires
        d > 0,
    ensures
        match r {
            Some(v) => v == a * b / (d as int),
            None => a * b / (d as int) > u128::MAX,
        },
{
    let q = primitive_types::U256::from(a) * primitive_types::U256::from(b)
        / primitive_types::U256::from(d);
    u128::try_from(q).ok()
}

/// Two shares of `w`, taken at rates that together stay at or under the
/// denominator `d`, together never exceed `w`.
pub proof fn lemma_share_sum_le(w: int, of: int, pf: int, d: int)
    requires
        0 <= w,
        0 <= of,
        0 <= pf,
        of + pf <= d,
        0 < d,
    ensures
        w * of / d + w * pf / d <= w,
{
    let q1 = w * of / d;
    let r1 = (w * of) % d;
    let q2 = w * pf / d;
    let r2 = (w * pf) % d;
    lemma_fundamental_div_mod(w * of, d);
    lemma_fundamental_div_mod(w * pf, d);
    lemma_mod_division_less_than_divisor(w * of, d);
    lemma_mod_division_less_than_divisor(w * pf, d);
    assert(d * q1 + d * q2 <= w * d) by (nonlinear_arith)
        requires
            w * of == d * q1 + r1,
            w * pf == d * q2 + r2,
            0 <= r1,
            0 <= r2,
            of + pf <= d,
            0 <= w,
    ;
    assert(q1 + q2 <= w) by (nonlinear_arith)
        requires
            d * q1 + d * q2 <= w * d,
            0 < d,
    ;
}

/// If `x` is at most `b / r`, then `r * x` is at most `b`: debiting `r`
/// units per wrapped unit can never overdraw a balance that supported the
/// quotient.
pub proof fn lemma_le_div_implies_mul_le(x: int, b: int, r: int)
    requires
        0 <= b,
        0 < r,
        0 <= x,
        x <= b / r,
    ensures
        r * x <= b,
{
    lemma_fundamental_div_mod(b, r);
    lemma_mod_division_less_than_divisor(b, r);
    lemma_mul_left_inequality(r, x, b / r);
}

} // verus!
