//! Integer helpers shared by the fixed-point numerics.
use vstd::prelude::*;
use vstd::arithmetic::div_mod::lemma_fundamental_div_mod_converse;

verus! {

/// Floor division of a signed numerator by a positive denominator
/// (the mathematical `a / b`, rounding toward minus infinity).
pub fn floor_div(a: i128, b: i128) -> (r: i128)
    requires
        b > 0,
        a > i128::MIN,
    ensures
        r == a / b,
{
    if a >= 0 {
        let q = (a as u128) / (b as u128);
        q as i128
    } else {
        let p: u128 = (-a) as u128;
        let bb: u128 = b as u128;
        let q: u128 = (p - 1) / bb + 1;
        proof {
            let qq = (p - 1) as int / bb as int;
            let rr = (p - 1) as int % bb as int;
            vstd::arithmetic::div_mod::lemma_fundamental_div_mod((p - 1) as int, bb as int);
            assert(0 <= rr < bb);
            assert((p - 1) as int == bb * qq + rr);
            // a = -p = -(qq + 1) * b + (b - 1 - rr)
            assert(a as int == (-(qq + 1)) * b as int + (b - 1 - rr)) by (nonlinear_arith)
                requires
                    a == -(p as int),
                    (p - 1) as int == bb * qq + rr,
                    bb as int == b as int,
            ;
            lemma_fundamental_div_mod_converse(a as int, b as int, -(qq + 1), b - 1 - rr);
            assert(q as int == qq + 1);
            assert(q as int <= p as int) by (nonlinear_arith)
                requires
                    (p - 1) as int == bb * qq + rr,
                    bb >= 1,
                    0 <= rr,
                    q as int == qq + 1,
                    qq >= 0,
            ;
        }
        -(q as i128)
    }
}

/// A quotient of a sum of `c` values, each within `[lo, hi]`, lies within `[lo, hi]`.
pub proof fn lemma_mean_bounds(s: int, c: int, lo: int, hi: int)
    requires
        c > 0,
        lo * c <= s <= hi * c,
    ensures
        lo <= s / c <= hi,
{
    vstd::arithmetic::div_mod::lemma_fundamental_div_mod(s, c);
    let q = s / c;
    let r = s % c;
    assert(lo <= q) by (nonlinear_arith)
        requires
            s == c * q + r,
            0 <= r < c,
            lo * c <= s,
            c > 0,
    ;
    assert(q <= hi) by (nonlinear_arith)
        requires
            s == c * q + r,
            0 <= r < c,
            s <= hi * c,
            c > 0,
    ;
}

} // verus!
