//! Integer square root.
//!
//! `sqrt_floor` is the mathematical floor of the square root; `isqrt_u128`
//! computes it by binary search. The engine uses it to turn a squared
//! fixed-point distance back into a fixed-point distance.

use vstd::prelude::*;

verus! {

/// Floor of the square root of `n`.
pub open spec fn sqrt_floor(n: nat) -> nat
    decreases n,
{
    if n == 0 {
        0
    } else {
        let p = sqrt_floor((n - 1) as nat);
        if (p + 1) * (p + 1) <= n {
            p + 1
        } else {
            p
        }
    }
}

/// `sqrt_floor(n)` is the unique `r` with `r * r <= n < (r + 1) * (r + 1)`.
pub proof fn lemma_sqrt_floor_props(n: nat)
    ensures
        sqrt_floor(n) * sqrt_floor(n) <= n,
        n < (sqrt_floor(n) + 1) * (sqrt_floor(n) + 1),
    decreases n,
{
    if n == 0 {
        assert(sqrt_floor(n) == 0);
        assert(n < (sqrt_floor(n) + 1) * (sqrt_floor(n) + 1)) by (nonlinear_arith)
            requires
                n == 0,
                sqrt_floor(n) == 0,
        ;
    } else {
        lemma_sqrt_floor_props((n - 1) as nat);
        let p = sqrt_floor((n - 1) as nat);
        assert(p * p <= n - 1);
        assert(n - 1 < (p + 1) * (p + 1));
        if (p + 1) * (p + 1) <= n {
            assert(sqrt_floor(n) == p + 1);
            assert(sqrt_floor(n) * sqrt_floor(n) <= n) by (nonlinear_arith)
                requires
                    sqrt_floor(n) == p + 1,
                    (p + 1) * (p + 1) <= n,
            ;
            assert(n < (sqrt_floor(n) + 1) * (sqrt_floor(n) + 1)) by (nonlinear_arith)
                requires
                    sqrt_floor(n) == p + 1,
                    n <= (p + 1) * (p + 1),
            ;
        } else {
            assert(sqrt_floor(n) == p);
            assert(sqrt_floor(n) * sqrt_floor(n) <= n) by (nonlinear_arith)
                requires
                    sqrt_floor(n) == p,
                    p * p <= n,
            ;
            assert(n < (sqrt_floor(n) + 1) * (sqrt_floor(n) + 1)) by (nonlinear_arith)
                requires
                    sqrt_floor(n) == p,
                    n < (p + 1) * (p + 1),
            ;
        }
    }
}

/// Any `r` with `r * r <= n < (r + 1) * (r + 1)` is `sqrt_floor(n)`.
pub proof fn lemma_sqrt_floor_unique(n: nat, r: nat)
    requires
        r * r <= n,
        n < (r + 1) * (r + 1),
    ensures
        r == sqrt_floor(n),
{
    lemma_sqrt_floor_props(n);
    let s = sqrt_floor(n);
    if r < s {
        assert((r + 1) * (r + 1) <= s * s) by (nonlinear_arith)
            requires
                r + 1 <= s,
        ;
    }
    if s < r {
        assert((s + 1) * (s + 1) <= r * r) by (nonlinear_arith)
            requires
                s + 1 <= r,
        ;
    }
}

/// Binary-search integer square root.
pub fn isqrt_u128(n: u128) -> (r: u64)
    ensures
        r as nat == sqrt_floor(n as nat),
{
    let mut lo: u128 = 0;
    let mut hi: u128 = 0x1_0000_0000_0000_0000;
    while lo + 1 < hi
        invariant
            lo < hi <= 0x1_0000_0000_0000_0000,
            lo * lo <= n,
            n < hi * hi,
        decreases hi - lo,
    {
        let mid: u128 = lo + (hi - lo) / 2;
        proof {
            crate::fx::lemma_mul_le(
                mid as int,
                mid as int,
                0xffff_ffff_ffff_ffff,
                0xffff_ffff_ffff_ffff,
            );
        }
        if mid * mid <= n {
            lo = mid;
        } else {
            hi = mid;
        }
    }
    proof {
        lemma_sqrt_floor_unique(n as nat, lo as nat);
    }
    lo as u64
}

} // verus!
