//! Exact integer helpers used throughout the solver: integer square
//! root and floor division (division rounding toward negative infinity).

use vstd::prelude::*;
use vstd::arithmetic::div_mod::{lemma_fundamental_div_mod, lemma_fundamental_div_mod_converse};

verus! {

/// The integer square root of `n`: the largest `r` with `r * r <= n`.
pub open spec fn isqrt_spec(n: nat) -> nat
    decreases n,
{
    if n == 0 {
        0
    } else {
        let r = isqrt_spec((n - 1) as nat);
        if (r + 1) * (r + 1) <= n {
            r + 1
        } else {
            r
        }
    }
}

/// `isqrt_spec(n)` really is the rounded-down square root.
pub proof fn lemma_isqrt_bounds(n: nat)
    ensures
        isqrt_spec(n) * isqrt_spec(n) <= n,
        n < (isqrt_spec(n) + 1) * (isqrt_spec(n) + 1),
    decreases n,
{
    if n == 0 {
        assert(isqrt_spec(0) == 0);
        assert(0 < (isqrt_spec(n) + 1) * (isqrt_spec(n) + 1)) by (nonlinear_arith)
            requires
                isqrt_spec(n) == 0,
        ;
    } else {
        let p = isqrt_spec((n - 1) as nat);
        lemma_isqrt_bounds((n - 1) as nat);
        if (p + 1) * (p + 1) <= n {
            assert(isqrt_spec(n) == p + 1);
            assert((p + 1) * (p + 1) < (p + 2) * (p + 2)) by (nonlinear_arith);
            assert(n < (p + 2) * (p + 2));
        } else {
            assert(isqrt_spec(n) == p);
            assert(n < (p + 1) * (p + 1));
        }
        assert(isqrt_spec(n) * isqrt_spec(n) <= n);
        assert(n < (isqrt_spec(n) + 1) * (isqrt_spec(n) + 1));
    }
}

/// Any value bracketed like a rounded-down square root equals `isqrt_spec`.
pub proof fn lemma_isqrt_unique(n: nat, r: nat)
    requires
        r * r <= n,
        n < (r + 1) * (r + 1),
    ensures
        r == isqrt_spec(n),
{
    lemma_isqrt_bounds(n);
    let s = isqrt_spec(n);
    assert(r == s) by (nonlinear_arith)
        requires
            r * r <= n,
            n < (r + 1) * (r + 1),
            s * s <= n,
            n < (s + 1) * (s + 1),
    ;
}

/// Integer square root by binary search.
pub fn isqrt(n: u128) -> (r: u128)
    ensures
        r == isqrt_spec(n as nat),
        r * r <= n,
        (n as int) < (r as int + 1) * (r as int + 1),
        r <= n,
{
    let mut lo: u128 = 0;
    let mut hi: u128 = 0x1_0000_0000_0000_0000u128;
    if n < hi {
        hi = n + 1;
    }
    proof {
        assert((n as int) < (hi as int) * (hi as int)) by (nonlinear_arith)
            requires
                (n as int) < 0x1_0000_0000_0000_0000i128 as int * 0x1_0000_0000_0000_0000i128 as int
                    || (hi as int) == (n as int) + 1,
                hi as int >= 1,
                (hi as int) == 0x1_0000_0000_0000_0000i128 as int || (hi as int) == (n as int) + 1,
        ;
    }
    while lo + 1 < hi
        invariant
            lo < hi,
            hi <= 0x1_0000_0000_0000_0000u128,
            (lo as int) * (lo as int) <= n as int,
            (n as int) < (hi as int) * (hi as int),
        decreases hi - lo,
    {
        let mid = lo + (hi - lo) / 2;
        proof {
            assert((mid as int) * (mid as int) <= u128::MAX as int) by (nonlinear_arith)
                requires
                    0 <= mid as int,
                    mid as int <= 0xffff_ffff_ffff_ffffu64 as int,
            ;
        }
        if mid * mid <= n {
            lo = mid;
        } else {
            hi = mid;
        }
    }
    proof {
        lemma_isqrt_unique(n as nat, lo as nat);
        assert(lo <= n) by (nonlinear_arith)
            requires
                (lo as int) * (lo as int) <= n as int,
                lo as int >= 0,
        ;
    }
    lo
}

/// Division rounding toward negative infinity; agrees with the
/// mathematical `/` on `int` for a positive divisor.
pub fn div_floor(a: i128, b: i128) -> (q: i128)
    requires
        b > 0,
        a > i128::MIN,
    ensures
        q == (a as int) / (b as int),
        a >= 0 ==> 0 <= q <= a,
        a < 0 ==> a <= q <= 0,
{
    let bu: u128 = b as u128;
    if a >= 0 {
        let q0: u128 = (a as u128) / bu;
        proof {
            assert(q0 == (a as int) / (b as int));
            assert(q0 <= a as int) by (nonlinear_arith)
                requires
                    q0 == (a as int) / (b as int),
                    a as int >= 0,
                    b as int >= 1,
            ;
        }
        q0 as i128
    } else {
        let m: u128 = (-a) as u128;
        let q0: u128 = m / bu;
        let r: u128 = m % bu;
        proof {
            assert(q0 * (b as int) + r == m as int) by {
                lemma_fundamental_div_mod(m as int, b as int);
            };
            assert(q0 <= m as int) by (nonlinear_arith)
                requires
                    q0 == (m as int) / (b as int),
                    m as int >= 0,
                    b as int >= 1,
            ;
            if r > 0 {
                assert(q0 as int <= m as int - 1) by (nonlinear_arith)
                    requires
                        q0 * (b as int) + r == m as int,
                        r >= 1,
                        b as int >= 1,
                        q0 >= 0,
                ;
            }
            if r == 0 {
                assert(a as int == (-(q0 as int)) * (b as int) + 0) by (nonlinear_arith)
                    requires
                        q0 * (b as int) + r == m as int,
                        r == 0,
                        m == -(a as int),
                ;
                lemma_fundamental_div_mod_converse(a as int, b as int, -(q0 as int), 0);
            } else {
                assert(a as int == (-(q0 as int) - 1) * (b as int) + ((b as int) - r)) by (nonlinear_arith)
                    requires
                        q0 * (b as int) + r == m as int,
                        m == -(a as int),
                ;
                lemma_fundamental_div_mod_converse(
                    a as int,
                    b as int,
                    -(q0 as int) - 1,
                    (b as int) - (r as int),
                );
            }
        }
        if r == 0 {
            -(q0 as i128)
        } else {
            -(q0 as i128) - 1
        }
    }
}

/// Bounds of a product of bounded non-negative factors.
pub proof fn lemma_mul_le(a: int, b: int, ab: int, bb: int)
    by (nonlinear_arith)
    requires
        0 <= a <= ab,
        0 <= b <= bb,
    ensures
        0 <= a * b <= ab * bb,
{
}

/// A non-negative value whose square stays under `(b+1)^2` is at most `b`.
pub proof fn lemma_sq_le(v: int, n: int, b: int)
    by (nonlinear_arith)
    requires
        v >= 0,
        b >= 0,
        v * v <= n,
        n < (b + 1) * (b + 1),
    ensures
        v <= b,
{
}

} // verus!
