//! Multiplication followed by division on 128-bit amounts, without losing the
//! high half of the product.

use vstd::prelude::*;
use vstd::arithmetic::div_mod::{
    lemma_div_is_ordered, lemma_div_multiples_vanish, lemma_fundamental_div_mod,
    lemma_fundamental_div_mod_converse,
};

verus! {

/// `a * b / c`, rounded down.
pub open spec fn mul_div_floor(a: int, b: int, c: int) -> int {
    (a * b) / c
}

/// `a * b / c`, rounded up.
pub open spec fn mul_div_ceil(a: int, b: int, c: int) -> int {
    (a * b + c - 1) / c
}

/// A quotient that is at most the dividend over the divisor: `q * c <= x` gives `q <= x / c`.
pub proof fn lemma_quotient_lower_bound(x: int, c: int, q: int)
    requires
        0 < c,
        q * c <= x,
    ensures
        q <= x / c,
{
    lemma_div_is_ordered(q * c, x, c);
    lemma_div_multiples_vanish(q, c);
    assert(c * q == q * c) by (nonlinear_arith);
}

/// Rounding up adds one to the quotient exactly when there is a remainder.
pub proof fn lemma_ceil_from_floor(x: int, c: int)
    requires
        0 <= x,
        0 < c,
    ensures
        (x + c - 1) / c == x / c + (if x % c == 0 { 0int } else { 1int }),
{
    let q = x / c;
    let m = x % c;
    lemma_fundamental_div_mod(x, c);
    assert(c * q == q * c) by (nonlinear_arith);
    if m == 0 {
        lemma_fundamental_div_mod_converse(x + c - 1, c, q, c - 1);
    } else {
        assert((q + 1) * c == q * c + c) by (nonlinear_arith);
        lemma_fundamental_div_mod_converse(x + c - 1, c, q + 1, m - 1);
    }
}

/// A part `b` of `c` taken of `a` is `a` at most: `a * b / c <= a` when `b <= c`.
pub proof fn lemma_mul_div_bound(a: int, b: int, c: int)
    requires
        0 <= a,
        0 <= b <= c,
        0 < c,
    ensures
        0 <= (a * b) / c <= a,
        0 <= (b * a) / c <= a,
{
    assert(0 <= a * b <= c * a && a * b == b * a) by (nonlinear_arith)
        requires
            0 <= a,
            0 <= b <= c,
    ;
    lemma_div_is_ordered(a * b, c * a, c);
    lemma_div_multiples_vanish(a, c);
    lemma_div_is_ordered(0, a * b, c);
}

/// `a * b / c` grows with `a`.
pub proof fn lemma_mul_div_monotonic(a1: int, a2: int, b: int, c: int)
    requires
        0 <= a1 <= a2,
        0 <= b,
        0 < c,
    ensures
        (a1 * b) / c <= (a2 * b) / c,
{
    assert(a1 * b <= a2 * b) by (nonlinear_arith)
        requires
            0 <= a1 <= a2,
            0 <= b,
    ;
    lemma_div_is_ordered(a1 * b, a2 * b, c);
}

proof fn lemma_add_step(
    ab: int,
    quot: int,
    rem: int,
    cur_q: int,
    cur_r: int,
    bits: int,
    c: int,
    carry: int,
)
    requires
        0 < c,
        0 <= rem < c,
        0 <= cur_r < c,
        0 <= cur_q,
        0 <= quot,
        0 < bits,
        bits % 2 == 1,
        ab == quot * c + rem + (cur_q * c + cur_r) * bits,
        carry == (if rem + cur_r >= c { 1int } else { 0int }),
    ensures
        ab == (quot + cur_q + carry) * c + (rem + cur_r - carry * c) + (cur_q * c + cur_r) * (2
            * (bits / 2)),
        (quot + cur_q + carry) * c <= ab,
{
    let cur = cur_q * c + cur_r;
    let half = bits / 2;
    assert(bits == 2 * half + 1);
    assert(cur * bits == cur * (2 * half) + cur) by (nonlinear_arith)
        requires
            bits == 2 * half + 1,
    ;
    assert((quot + cur_q + carry) * c == quot * c + cur_q * c + carry * c) by (nonlinear_arith);
    assert(0 <= cur) by (nonlinear_arith)
        requires
            cur == cur_q * c + cur_r,
            0 <= cur_q,
            0 < c,
            0 <= cur_r,
    ;
    assert(0 <= cur * (2 * half)) by (nonlinear_arith)
        requires
            0 <= cur,
            0 <= half,
    ;
}

proof fn lemma_double_step(ab: int, base: int, cur_q: int, cur_r: int, half: int, c: int, carry: int)
    requires
        0 < c,
        0 <= cur_r < c,
        0 <= cur_q,
        0 < half,
        0 <= base,
        ab == base + (cur_q * c + cur_r) * (2 * half),
        carry == (if cur_r + cur_r >= c { 1int } else { 0int }),
    ensures
        ab == base + ((2 * cur_q + carry) * c + (cur_r + cur_r - carry * c)) * half,
        (2 * cur_q + carry) * c <= ab,
{
    let cur = cur_q * c + cur_r;
    let dbl = (2 * cur_q + carry) * c + (cur_r + cur_r - carry * c);
    assert((2 * cur_q + carry) * c == 2 * (cur_q * c) + carry * c) by (nonlinear_arith);
    assert(dbl == 2 * cur);
    assert(cur * (2 * half) == (2 * cur) * half) by (nonlinear_arith);
    assert((2 * cur_q + carry) * c <= dbl);
    assert(0 <= dbl) by (nonlinear_arith)
        requires
            dbl == 2 * (cur_q * c + cur_r),
            0 <= cur_q,
            0 < c,
            0 <= cur_r,
    ;
    assert(dbl <= dbl * half) by (nonlinear_arith)
        requires
            0 <= dbl,
            1 <= half,
    ;
}

/// Quotient and remainder of `a * b` by `c`, the product taken in full width.
///
/// `None` when `c` is zero or the quotient does not fit in 128 bits.
pub fn mul_div_rem(a: u128, b: u128, c: u128) -> (r: Option<(u128, u128)>)
    ensures
        r is None <==> (c == 0 || (a * b) / (c as int) > u128::MAX),
        r matches Some((q, m)) ==> q == (a * b) / (c as int) && m == (a * b) % (c as int),
{
    if c == 0 {
        return None;
    }
    let ghost ab: int = a * b;
    let mut quot: u128 = 0;
    let mut rem: u128 = 0;
    let mut cur_q: u128 = a / c;
    let mut cur_r: u128 = a % c;
    let mut bits: u128 = b;
    proof {
        lemma_fundamental_div_mod(a as int, c as int);
        assert((cur_q * c + cur_r) * bits == a * b) by (nonlinear_arith)
            requires
                a == c * cur_q + cur_r,
                bits == b,
        ;
    }
    while bits > 0
        invariant
            c > 0,
            rem < c,
            cur_r < c,
            ab == a * b,
            ab == quot * c + rem + (cur_q * c + cur_r) * bits,
        decreases bits,
    {
        let ghost base: int;
        if bits % 2 == 1 {
            let carry: u128 = if rem >= c - cur_r {
                1
            } else {
                0
            };
            proof {
                lemma_add_step(
                    ab,
                    quot as int,
                    rem as int,
                    cur_q as int,
                    cur_r as int,
                    bits as int,
                    c as int,
                    carry as int,
                );
            }
            let sum = match quot.checked_add(cur_q) {
                Some(s) => s.checked_add(carry),
                None => None,
            };
            match sum {
                Some(s) => {
                    rem = if carry == 1 {
                        rem - (c - cur_r)
                    } else {
                        rem + cur_r
                    };
                    quot = s;
                },
                None => {
                    proof {
                        lemma_quotient_lower_bound(ab, c as int, quot + cur_q + carry);
                    }
                    return None;
                },
            }
            proof {
                assert(carry * c == (if carry == 1 { c as int } else { 0int })) by (nonlinear_arith)
                    requires
                        carry == 0 || carry == 1,
                ;
            }
        } else {
            proof {
                assert(bits == 2 * (bits / 2));
            }
        }
        proof {
            base = quot * c + rem;
            assert(0 <= base) by (nonlinear_arith)
                requires
                    base == quot * c + rem,
                    0 <= quot,
                    0 < c,
                    0 <= rem,
            ;
        }
        bits = bits / 2;
        if bits > 0 {
            let carry: u128 = if cur_r >= c - cur_r {
                1
            } else {
                0
            };
            proof {
                lemma_double_step(
                    ab,
                    base,
                    cur_q as int,
                    cur_r as int,
                    bits as int,
                    c as int,
                    carry as int,
                );
            }
            let dbl = match cur_q.checked_add(cur_q) {
                Some(s) => s.checked_add(carry),
                None => None,
            };
            match dbl {
                Some(d) => {
                    cur_r = if carry == 1 {
                        cur_r - (c - cur_r)
                    } else {
                        cur_r + cur_r
                    };
                    cur_q = d;
                },
                None => {
                    proof {
                        lemma_quotient_lower_bound(ab, c as int, 2 * cur_q + carry);
                    }
                    return None;
                },
            }
            proof {
                assert(carry * c == (if carry == 1 { c as int } else { 0int })) by (nonlinear_arith)
                    requires
                        carry == 0 || carry == 1,
                ;
            }
        } else {
            proof {
                assert((cur_q * c + cur_r) * bits == 0) by (nonlinear_arith)
                    requires
                        bits == 0,
                ;
            }
        }
    }
    proof {
        assert((cur_q * c + cur_r) * bits == 0) by (nonlinear_arith)
            requires
                bits == 0,
        ;
        lemma_fundamental_div_mod_converse(ab, c as int, quot as int, rem as int);
    }
    Some((quot, rem))
}

} // verus!
