use vstd::prelude::*;

verus! {

/// The largest `r` with `r * r <= v`.
pub open spec fn floor_sqrt(v: nat) -> nat
    decreases v,
{
    if v == 0 {
        0
    } else {
        let p = floor_sqrt((v - 1) as nat);
        if (p + 1) * (p + 1) <= v {
            p + 1
        } else {
            p
        }
    }
}

/// The square root of `v` rounded to the nearest integer: one more than the
/// floor exactly when `v` lies strictly above the midpoint `f*f + f`.
pub open spec fn rounded_sqrt(v: nat) -> nat {
    let f = floor_sqrt(v);
    if v > f * (f + 1) {
        f + 1
    } else {
        f
    }
}

/// `floor_sqrt` deserves its name: its square is at most `v`, and the next
/// square is already beyond `v`.
pub proof fn lemma_floor_sqrt_bounds(v: nat)
    ensures
        floor_sqrt(v) * floor_sqrt(v) <= v,
        v < (floor_sqrt(v) + 1) * (floor_sqrt(v) + 1),
    decreases v,
{
    if v == 0 {
        assert(floor_sqrt(0) == 0);
        assert(v < (floor_sqrt(v) + 1) * (floor_sqrt(v) + 1)) by (nonlinear_arith)
            requires
                v == 0,
                floor_sqrt(v) == 0,
        ;
    } else {
        lemma_floor_sqrt_bounds((v - 1) as nat);
        let p = floor_sqrt((v - 1) as nat);
        assert(p * p <= v - 1);
        assert(v - 1 < (p + 1) * (p + 1));
        if (p + 1) * (p + 1) <= v {
            assert(floor_sqrt(v) == p + 1);
            assert(v <= (p + 1) * (p + 1));
            assert(v < (p + 2) * (p + 2)) by (nonlinear_arith)
                requires
                    v <= (p + 1) * (p + 1),
                    p >= 0,
            ;
        } else {
            assert(floor_sqrt(v) == p);
        }
    }
}

/// Any `r` whose square brackets `v` is the floor square root of `v`.
pub proof fn lemma_floor_sqrt_unique(v: nat, r: nat)
    requires
        r * r <= v,
        v < (r + 1) * (r + 1),
    ensures
        r == floor_sqrt(v),
{
    let f = floor_sqrt(v);
    lemma_floor_sqrt_bounds(v);
    if r < f {
        assert((r + 1) * (r + 1) <= f * f) by (nonlinear_arith)
            requires
                r + 1 <= f,
        ;
    }
    if f < r {
        assert((f + 1) * (f + 1) <= r * r) by (nonlinear_arith)
            requires
                f + 1 <= r,
        ;
    }
}

/// Floor of the square root of a 128-bit value, by binary search.
/// The result always fits in 64 bits because `v < (2^64)^2`.
pub fn isqrt_floor(v: u128) -> (r: u64)
    ensures
        r == floor_sqrt(v as nat),
{
    let mut lo: u64 = 0;
    let mut hi: u64 = u64::MAX;
    proof {
        assert((hi + 1) * (hi + 1) > u128::MAX) by (nonlinear_arith)
            requires
                hi == u64::MAX,
        ;
    }
    while lo < hi
        invariant
            (lo as nat) * (lo as nat) <= v as nat,
            (v as nat) < ((hi + 1) as nat) * ((hi + 1) as nat),
            lo <= hi,
        decreases hi - lo,
    {
        let mid: u64 = hi - (hi - lo) / 2;
        let below = match (mid as u128).checked_mul(mid as u128) {
            Some(sq) => sq <= v,
            None => false,
        };
        if below {
            lo = mid;
        } else {
            proof {
                if (mid as nat) * (mid as nat) > u128::MAX {
                    assert((v as nat) < (mid as nat) * (mid as nat));
                }
            }
            hi = mid - 1;
        }
    }
    proof {
        lemma_floor_sqrt_unique(v as nat, lo as nat);
    }
    lo
}

/// Square root of a 128-bit value rounded to the nearest integer, saturating
/// at `u64::MAX` in the one corner where rounding up would leave 64 bits.
pub fn isqrt_rounded(v: u128) -> (r: u64)
    ensures
        r == if rounded_sqrt(v as nat) > u64::MAX {
            u64::MAX as nat
        } else {
            rounded_sqrt(v as nat)
        },
{
    let f = isqrt_floor(v);
    proof {
        lemma_floor_sqrt_bounds(v as nat);
    }
    let fsq = (f as u128) * (f as u128);
    proof {
        assert((f as nat) * ((f as nat) + 1) == (f as nat) * (f as nat) + f as nat)
            by (nonlinear_arith);
    }
    if v - fsq > f as u128 {
        if f == u64::MAX {
            f
        } else {
            f + 1
        }
    } else {
        f
    }
}

} // verus!
