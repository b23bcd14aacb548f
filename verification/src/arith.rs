//! Small division lemmas shared by the conversion and control modules.

use vstd::prelude::*;
use vstd::arithmetic::div_mod::lemma_fundamental_div_mod;

verus! {

/// If `a < b * d` then `a / d < b` (Euclidean division, positive divisor).
pub proof fn lemma_div_below(a: int, d: int, b: int)
    requires
        0 < d,
        a < b * d,
    ensures
        a / d < b,
{
    lemma_fundamental_div_mod(a, d);
    assert(a / d < b) by (nonlinear_arith)
        requires
            a == d * (a / d) + a % d,
            0 <= a % d < d,
            a < b * d,
            0 < d,
    ;
}

/// If `b * d <= a` then `b <= a / d` (Euclidean division, positive divisor).
pub proof fn lemma_div_at_least(a: int, d: int, b: int)
    requires
        0 < d,
        b * d <= a,
    ensures
        b <= a / d,
{
    lemma_fundamental_div_mod(a, d);
    assert(b <= a / d) by (nonlinear_arith)
        requires
            a == d * (a / d) + a % d,
            0 <= a % d < d,
            b * d <= a,
            0 < d,
    ;
}

/// Magnitude of an integer.
pub open spec fn abs_i(x: int) -> int {
    if x < 0 {
        -x
    } else {
        x
    }
}

/// Division truncating toward zero (the machine's signed division),
/// for a positive divisor.
pub open spec fn tdiv(a: int, d: int) -> int
    recommends
        d > 0,
{
    if a >= 0 {
        a / d
    } else {
        -((-a) / d)
    }
}

/// If `|n| <= m * d` then `|tdiv(n, d)| <= m`.
pub proof fn lemma_tdiv_bound(n: int, d: int, m: int)
    requires
        0 < d,
        0 <= m,
        -(m * d) <= n <= m * d,
    ensures
        -m <= tdiv(n, d) <= m,
{
    if n >= 0 {
        vstd::arithmetic::div_mod::lemma_div_pos_is_pos(n, d);
        assert(n < (m + 1) * d) by (nonlinear_arith)
            requires
                n <= m * d,
                0 < d,
        ;
        lemma_div_below(n, d, m + 1);
    } else {
        vstd::arithmetic::div_mod::lemma_div_pos_is_pos(-n, d);
        assert(-n < (m + 1) * d) by (nonlinear_arith)
            requires
                -(m * d) <= n,
                0 < d,
        ;
        lemma_div_below(-n, d, m + 1);
    }
}

/// `|a * b| <= ma * mb` for `|a| <= ma`, `|b| <= mb`.
pub proof fn lemma_mul_abs_bound(a: int, b: int, ma: int, mb: int)
    requires
        -ma <= a <= ma,
        -mb <= b <= mb,
        0 <= ma,
        0 <= mb,
    ensures
        -(ma * mb) <= a * b <= ma * mb,
{
    assert(-(ma * mb) <= a * b <= ma * mb) by (nonlinear_arith)
        requires
            -ma <= a <= ma,
            -mb <= b <= mb,
            0 <= ma,
            0 <= mb,
    ;
}

/// Truncating signed division on `i128`, through unsigned division of
/// the magnitude.
pub fn tdiv_i128(a: i128, d: i128) -> (r: i128)
    requires
        d > 0,
        a > -0x7fffffffffffffffffffffffffffffff - 1 + 1,
    ensures
        r as int == tdiv(a as int, d as int),
{
    if a >= 0 {
        proof {
            vstd::arithmetic::div_mod::lemma_div_pos_is_pos(a as int, d as int);
            assert((a as int) < (a as int + 1) * (d as int)) by (nonlinear_arith)
                requires
                    a >= 0,
                    d >= 1,
            ;
            lemma_div_below(a as int, d as int, a as int + 1);
        }
        ((a as u128) / (d as u128)) as i128
    } else {
        proof {
            vstd::arithmetic::div_mod::lemma_div_pos_is_pos(-(a as int), d as int);
            assert(-(a as int) < (-(a as int) + 1) * (d as int)) by (nonlinear_arith)
                requires
                    a < 0,
                    d >= 1,
            ;
            lemma_div_below(-(a as int), d as int, -(a as int) + 1);
        }
        -((((-a) as u128) / (d as u128)) as i128)
    }
}

} // verus!
