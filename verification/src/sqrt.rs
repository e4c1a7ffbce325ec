//! Integer square roots and exact floors of `b / sqrt(n)`.
//!
//! Normalizing a ray direction divides by an irrational length, so the
//! quotient is represented as a fixed-point fraction over `KFRAC`. The
//! predicates below state "`a * sqrt(n) <= b`" and "`q` is the floor of
//! `KFRAC * b / sqrt(n)`" purely over integers, by comparing squares with
//! the signs accounted for; the executable functions meet those exact
//! statements.

use vstd::prelude::*;
use vstd::arithmetic::div_mod::lemma_fundamental_div_mod;
use vstd::arithmetic::div_mod::lemma_mod_division_less_than_divisor;

verus! {

/// Fixed-point scale of normalized direction fractions: a stored value `q`
/// represents the real number `q / KFRAC`.
pub const KFRAC: i64 = 1_000_000_000;

/// `2^126`; inputs below it keep the square-root search free of overflow.
pub const SQRT_INPUT_LIMIT: u128 = 0x4000_0000_0000_0000_0000_0000_0000_0000;

/// States `a * sqrt(n) <= b` for `n > 0`, using only integer products:
/// both sides are compared by sign first and by their squares second.
pub open spec fn mul_sqrt_le(a: int, b: int, n: int) -> bool {
    if a <= 0 {
        b >= 0 || a * a * n >= b * b
    } else {
        b >= 0 && a * a * n <= b * b
    }
}

/// States `q == floor(b / sqrt(n))` for `n > 0`:
/// `q * sqrt(n) <= b` and `(q + 1) * sqrt(n) > b`.
pub open spec fn is_floor_div_sqrt(q: int, b: int, n: int) -> bool {
    mul_sqrt_le(q, b, n) && !mul_sqrt_le(q + 1, b, n)
}

/// Floor of the square root of `x`, by binary search.
pub fn isqrt(x: u128) -> (r: u128)
    requires
        x < SQRT_INPUT_LIMIT,
    ensures
        r * r <= x < (r + 1) * (r + 1),
{
    if x == 0 {
        return 0;
    }
    let mut lo: u128 = 0;
    let mut hi: u128 = 0x8000_0000_0000_0000;
    assert(hi * hi == SQRT_INPUT_LIMIT as int);
    while lo + 1 < hi
        invariant
            lo < hi,
            hi <= 0x8000_0000_0000_0000u128,
            lo * lo <= x,
            x < hi * hi,
        decreases hi - lo,
    {
        let mid = lo + (hi - lo) / 2;
        assert(lo < mid < hi);
        assert(mid * mid < SQRT_INPUT_LIMIT as int) by (nonlinear_arith)
            requires
                mid < 0x8000_0000_0000_0000u128,
        ;
        if mid * mid <= x {
            lo = mid;
        } else {
            hi = mid;
        }
    }
    assert(hi == lo + 1);
    lo
}

/// Floor of `KFRAC * y / sqrt(n)`, exact, for `y*y <= n`.
///
/// This is the component of the unit vector of a direction: `y` a component
/// and `n` the squared length, scaled to `KFRAC` fixed point and rounded
/// toward negative infinity.
pub fn floor_div_sqrt(y: i64, n: u128) -> (q: i64)
    requires
        0 < n,
        y * y <= n,
        -KFRAC <= y <= KFRAC,
    ensures
        is_floor_div_sqrt(q as int, KFRAC * y, n as int),
        -KFRAC <= q <= KFRAC,
{
    let ya: u64 = if y >= 0 {
        y as u64
    } else {
        (-y) as u64
    };
    proof {
        assert((ya as int) * (ya as int) == (y as int) * (y as int)) by (nonlinear_arith)
            requires
                ya == y as int || ya == -(y as int),
        ;
        assert(1_000_000_000_000_000_000int * (ya as int) * (ya as int)
            < SQRT_INPUT_LIMIT as int) by (nonlinear_arith)
            requires
                0 <= ya as int <= 1_000_000_000int,
        ;
    }
    let b2: u128 = 1_000_000_000_000_000_000u128 * (ya as u128) * (ya as u128);
    assert(b2 == (KFRAC * y) * (KFRAC * y)) by (nonlinear_arith)
        requires
            b2 == 1_000_000_000_000_000_000int * ya * ya,
            ya * ya == (y as int) * (y as int),
            KFRAC == 1_000_000_000int,
    ;
    let s2: u128 = b2 / n;
    let rem: u128 = b2 % n;
    proof {
        lemma_fundamental_div_mod(b2 as int, n as int);
        lemma_mod_division_less_than_divisor(b2 as int, n as int);
        // y * y <= n gives b2 <= KFRAC^2 * n, so s2 <= KFRAC^2.
        assert(b2 <= 1_000_000_000_000_000_000int * n) by (nonlinear_arith)
            requires
                b2 == 1_000_000_000_000_000_000int * ya * ya,
                ya * ya <= n,
                ya >= 0,
        ;
        assert(s2 <= 1_000_000_000_000_000_000int) by (nonlinear_arith)
            requires
                b2 == n * s2 + rem,
                rem >= 0,
                n > 0,
                s2 >= 0,
                b2 <= 1_000_000_000_000_000_000int * n,
        ;
    }
    let p: u128 = isqrt(s2);
    proof {
        // p*p <= s2 < (p+1)*(p+1) lifts through the division by n:
        assert(p * p * n <= b2 && b2 < (p + 1) * (p + 1) * n) by (nonlinear_arith)
            requires
                b2 == n * s2 + rem,
                0 <= rem < n,
                p * p <= s2 < (p + 1) * (p + 1),
                n > 0,
        ;
        assert(p <= 1_000_000_000int) by (nonlinear_arith)
            requires
                p * p <= s2 <= 1_000_000_000_000_000_000int,
                p >= 0,
        ;
    }
    if y >= 0 {
        let q = p as i64;
        proof {
            let b = KFRAC * y;
            assert(b >= 0) by (nonlinear_arith)
                requires
                    y >= 0,
                    b == KFRAC * y,
                    KFRAC > 0,
            ;
            assert(mul_sqrt_le(q as int, b, n as int));
            assert(!mul_sqrt_le(q as int + 1, b, n as int));
        }
        q
    } else {
        let exact: bool = rem == 0 && p * p == s2;
        proof {
            let b = KFRAC * y;
            assert(b < 0) by (nonlinear_arith)
                requires
                    y < 0,
                    b == KFRAC * y,
                    KFRAC > 0,
            ;
            assert(b * b == b2);
        }
        if exact {
            proof {
                let b = KFRAC * y;
                assert(p * p * n == b2);
                // b2 == b*b > 0, so p >= 1.
                assert(b * b > 0) by (nonlinear_arith)
                    requires
                        b < 0,
                ;
                assert(p >= 1) by (nonlinear_arith)
                    requires
                        p * p * n == b2,
                        b2 > 0,
                        n > 0,
                        p >= 0,
                ;
                assert((p - 1) * (p - 1) * n < p * p * n) by (nonlinear_arith)
                    requires
                        p >= 1,
                        n > 0,
                ;
                assert((-(p as int)) * (-(p as int)) == p * p) by (nonlinear_arith);
                assert((-(p as int) + 1) * (-(p as int) + 1) == (p - 1) * (p - 1))
                    by (nonlinear_arith);
                assert(mul_sqrt_le(-(p as int), b, n as int));
                assert(!mul_sqrt_le(-(p as int) + 1, b, n as int));
            }
            -(p as i64)
        } else {
            proof {
                let b = KFRAC * y;
                // Not exact: p*p*n < b2 strictly.
                if p * p == s2 {
                    assert(rem != 0);
                    assert(p * p * n == n * s2) by (nonlinear_arith)
                        requires
                            p * p == s2,
                    ;
                    assert(p * p * n < b2);
                } else {
                    assert(p * p < s2);
                    assert(p * p * n < b2) by (nonlinear_arith)
                        requires
                            p * p < s2,
                            b2 == n * s2 + rem,
                            rem >= 0,
                            n > 0,
                    ;
                }
                // p == KFRAC would force exactness, so p <= KFRAC - 1 here.
                if p == 1_000_000_000u128 {
                    assert(s2 >= p * p);
                    assert(s2 == 1_000_000_000_000_000_000int);
                    assert(b2 <= 1_000_000_000_000_000_000int * n);
                    assert(rem == 0) by (nonlinear_arith)
                        requires
                            b2 == n * s2 + rem,
                            b2 <= s2 * n,
                            rem >= 0,
                    ;
                    assert(false);
                }
                assert((-(p as int)) * (-(p as int)) == p * p) by (nonlinear_arith);
                assert((-(p as int) - 1) * (-(p as int) - 1) == (p + 1) * (p + 1))
                    by (nonlinear_arith);
                assert(mul_sqrt_le(-(p as int) - 1, b, n as int));
                assert(!mul_sqrt_le(-(p as int), b, n as int));
            }
            -(p as i64) - 1
        }
    }
}

/// Lowering the multiplier keeps `a * sqrt(n) <= b` true.
pub proof fn lemma_mul_sqrt_le_decrease(a1: int, a2: int, b: int, n: int)
    requires
        n > 0,
        a1 <= a2,
        mul_sqrt_le(a2, b, n),
    ensures
        mul_sqrt_le(a1, b, n),
{
    if a1 <= 0 {
        if b < 0 {
            assert(a2 <= 0);
            assert(a1 * a1 * n >= a2 * a2 * n >= b * b) by (nonlinear_arith)
                requires
                    a1 <= a2 <= 0,
                    n > 0,
                    a2 * a2 * n >= b * b,
            ;
        }
    } else {
        assert(a2 >= a1 > 0);
        assert(a1 * a1 * n <= a2 * a2 * n) by (nonlinear_arith)
            requires
                0 < a1 <= a2,
                n > 0,
        ;
    }
}

/// The floor of `b / sqrt(n)` is unique.
pub proof fn lemma_floor_div_sqrt_unique(q1: int, q2: int, b: int, n: int)
    requires
        n > 0,
        is_floor_div_sqrt(q1, b, n),
        is_floor_div_sqrt(q2, b, n),
    ensures
        q1 == q2,
{
    if q1 < q2 {
        lemma_mul_sqrt_le_decrease(q1 + 1, q2, b, n);
    }
    if q2 < q1 {
        lemma_mul_sqrt_le_decrease(q2 + 1, q1, b, n);
    }
}

/// A floor of `KFRAC * y / sqrt(n)` with `y*y <= n` lies in `[-KFRAC, KFRAC]`.
pub proof fn lemma_floor_div_sqrt_range(q: int, y: int, n: int)
    requires
        n > 0,
        y * y <= n,
        is_floor_div_sqrt(q, KFRAC * y, n),
    ensures
        -KFRAC <= q <= KFRAC,
{
    let k = KFRAC as int;
    let b = k * y;
    assert(b * b <= k * k * n) by (nonlinear_arith)
        requires
            b == k * y,
            y * y <= n,
            k > 0,
    ;
    if q > k {
        assert(mul_sqrt_le(q, b, n));
        assert(q * q * n > k * k * n >= b * b) by (nonlinear_arith)
            requires
                q > k > 0,
                n > 0,
                b * b <= k * k * n,
        ;
        assert(false);
    }
    if q < -k {
        assert(!mul_sqrt_le(q + 1, b, n));
        assert(q + 1 <= 0);
        assert((q + 1) * (q + 1) * n >= k * k * n >= b * b) by (nonlinear_arith)
            requires
                q + 1 <= -(k as int),
                k > 0,
                n > 0,
                b * b <= k * k * n,
        ;
        assert(false);
    }
}

/// Raising the `y` component of a direction (the other components fixed, as
/// `c = x*x + z*z`) never lowers `y / sqrt(c + y*y)`: whatever was below the
/// old fraction is below the new one.
pub proof fn lemma_mul_sqrt_le_transfer(a: int, y1: int, y2: int, c: int, n1: int, n2: int)
    requires
        c >= 0,
        y1 <= y2,
        n1 == c + y1 * y1,
        n2 == c + y2 * y2,
        n1 > 0,
        n2 > 0,
        mul_sqrt_le(a, KFRAC * y1, n1),
    ensures
        mul_sqrt_le(a, KFRAC * y2, n2),
{
    let k = KFRAC as int;
    let b1 = k * y1;
    let b2 = k * y2;
    assert(b1 <= b2) by (nonlinear_arith)
        requires
            y1 <= y2,
            b1 == k * y1,
            b2 == k * y2,
            k > 0,
    ;
    if a <= 0 {
        if b2 < 0 {
            assert(y2 < 0) by (nonlinear_arith)
                requires
                    b2 == k * y2,
                    b2 < 0,
                    k > 0,
            ;
            assert(b1 <= b2 < 0);
            // From the premise: a*a*n1 >= b1*b1, i.e. a*a*c >= (k*k - a*a)*y1*y1.
            assert(a * a * n2 >= b2 * b2) by (nonlinear_arith)
                requires
                    a * a * n1 >= b1 * b1,
                    n1 == c + y1 * y1,
                    n2 == c + y2 * y2,
                    b1 == k * y1,
                    b2 == k * y2,
                    y1 <= y2 < 0,
                    c >= 0,
                    k > 0,
            ;
        }
    } else {
        assert(b1 >= 0);
        assert(y1 >= 0) by (nonlinear_arith)
            requires
                b1 == k * y1,
                b1 >= 0,
                k > 0,
        ;
        assert(b2 >= b1 >= 0);
        assert(a * a * n2 <= b2 * b2) by (nonlinear_arith)
            requires
                a > 0,
                a * a * n1 <= b1 * b1,
                n1 == c + y1 * y1,
                n2 == c + y2 * y2,
                b1 == k * y1,
                b2 == k * y2,
                0 <= y1 <= y2,
                c >= 0,
                k > 0,
                n1 > 0,
        ;
    }
}

/// Floors of the unit fraction are monotone in the `y` component.
pub proof fn lemma_floor_div_sqrt_monotone(
    q1: int,
    q2: int,
    y1: int,
    y2: int,
    c: int,
    n1: int,
    n2: int,
)
    requires
        c >= 0,
        y1 <= y2,
        n1 == c + y1 * y1,
        n2 == c + y2 * y2,
        n1 > 0,
        n2 > 0,
        is_floor_div_sqrt(q1, KFRAC * y1, n1),
        is_floor_div_sqrt(q2, KFRAC * y2, n2),
    ensures
        q1 <= q2,
{
    if q2 < q1 {
        lemma_mul_sqrt_le_transfer(q1, y1, y2, c, n1, n2);
        lemma_mul_sqrt_le_decrease(q2 + 1, q1, KFRAC * y2, n2);
        assert(false);
    }
}

} // verus!
