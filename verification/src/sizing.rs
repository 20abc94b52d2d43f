//! The size model: an agent's render scale as a function of its health.
//!
//! The reference behaviour is `scale = 0.1 * sqrt(health - 10) + 0.5` for
//! health at or above the base value, mirrored below it. Scales here are
//! held in thousandths of a world unit, so the model becomes
//! `500 + floor(sqrt(10000 * (health - 10)))` and its mirror image:
//! `0.1 * sqrt(d)` world units equal `sqrt(10000 * d)` thousandths.

use vstd::prelude::*;

verus! {

/// Health every agent starts with; the boundary of the size model.
pub const BASE_HEALTH: i64 = 10;

/// Render scale at base health, in thousandths of a world unit (0.5 units).
pub const BASE_SIZE_MILLI: i64 = 500;

/// Largest health magnitude the size model accepts: keeps the scaled
/// radicand `10000 * |health - 10|` within the integer square root's domain.
pub const HEALTH_SCALE_LIMIT: i64 = 400_000_000_000_000;

/// The integer square root: the largest `r` with `r * r <= x`.
pub open spec fn sqrt_floor(x: nat) -> nat
    decreases x,
{
    if x == 0 {
        0
    } else {
        let r = sqrt_floor((x - 1) as nat);
        if (r + 1) * (r + 1) <= x {
            r + 1
        } else {
            r
        }
    }
}

/// `sqrt_floor(x)` is characterised by `r * r <= x < (r + 1) * (r + 1)`.
pub proof fn lemma_sqrt_floor_bounds(x: nat)
    ensures
        sqrt_floor(x) * sqrt_floor(x) <= x,
        x < (sqrt_floor(x) + 1) * (sqrt_floor(x) + 1),
    decreases x,
{
    if x == 0 {
        assert(sqrt_floor(x) == 0);
        assert(x < (sqrt_floor(x) + 1) * (sqrt_floor(x) + 1)) by (nonlinear_arith)
            requires
                x == 0,
                sqrt_floor(x) == 0,
        ;
    } else {
        lemma_sqrt_floor_bounds((x - 1) as nat);
        let r = sqrt_floor((x - 1) as nat);
        assert(r * r <= x - 1 && x - 1 < (r + 1) * (r + 1));
        if (r + 1) * (r + 1) <= x {
            assert(sqrt_floor(x) == r + 1);
            assert(x == (r + 1) * (r + 1));
            assert((r + 2) * (r + 2) > (r + 1) * (r + 1)) by (nonlinear_arith);
            assert(x < (sqrt_floor(x) + 1) * (sqrt_floor(x) + 1));
        } else {
            assert(sqrt_floor(x) == r);
            assert(r * r <= x);
            assert(x < (sqrt_floor(x) + 1) * (sqrt_floor(x) + 1));
        }
    }
}

/// Any `r` within the characteristic bounds is the integer square root.
pub proof fn lemma_sqrt_floor_unique(x: nat, r: nat)
    requires
        r * r <= x,
        x < (r + 1) * (r + 1),
    ensures
        r == sqrt_floor(x),
{
    let s = sqrt_floor(x);
    lemma_sqrt_floor_bounds(x);
    assert(s * s <= x < (r + 1) * (r + 1));
    assert(r * r <= x < (s + 1) * (s + 1));
    assert(s < r + 1 && r < s + 1) by (nonlinear_arith)
        requires
            s * s < (r + 1) * (r + 1),
            r * r < (s + 1) * (s + 1),
    ;
}

/// The integer square root never decreases as its argument grows.
pub proof fn lemma_sqrt_floor_monotonic(x1: nat, x2: nat)
    requires
        x1 <= x2,
    ensures
        sqrt_floor(x1) <= sqrt_floor(x2),
{
    let r1 = sqrt_floor(x1);
    let r2 = sqrt_floor(x2);
    lemma_sqrt_floor_bounds(x1);
    lemma_sqrt_floor_bounds(x2);
    assert(r1 * r1 <= x2 < (r2 + 1) * (r2 + 1));
    assert(r1 < r2 + 1) by (nonlinear_arith)
        requires
            r1 * r1 < (r2 + 1) * (r2 + 1),
    ;
}

/// Computes the integer square root by binary search.
pub fn isqrt(x: u64) -> (r: u64)
    requires
        x < 0x4000_0000_0000_0000,
    ensures
        r == sqrt_floor(x as nat),
        r < 0x8000_0000,
{
    let mut lo: u64 = 0;
    let mut hi: u64 = 0x8000_0000;
    assert((0x8000_0000 as int) * (0x8000_0000 as int) == 0x4000_0000_0000_0000);
    while lo + 1 < hi
        invariant
            lo < hi <= 0x8000_0000,
            lo * lo <= x,
            x < hi * hi,
        decreases hi - lo,
    {
        let mid = lo + (hi - lo) / 2;
        assert(lo < mid < hi);
        assert(mid * mid <= 0x4000_0000_0000_0000) by (nonlinear_arith)
            requires
                0 <= mid <= 0x8000_0000,
        ;
        if mid * mid <= x {
            lo = mid;
        } else {
            hi = mid;
        }
    }
    proof {
        lemma_sqrt_floor_unique(x as nat, lo as nat);
    }
    lo
}

/// The size model over mathematical integers: an agent's render scale in
/// thousandths of a world unit, as a function of its health.
pub open spec fn spec_scale_milli(health: int) -> int {
    if health >= BASE_HEALTH {
        BASE_SIZE_MILLI + sqrt_floor((10000 * (health - BASE_HEALTH)) as nat)
    } else {
        BASE_SIZE_MILLI - sqrt_floor((10000 * (BASE_HEALTH - health)) as nat)
    }
}

/// Computes the render scale for a given health, in thousandths of a world
/// unit. Healths at or above the base value grow the agent with the square
/// root of the surplus; healths below it shrink it symmetrically.
pub fn scale_milli(health: i64) -> (scale: i64)
    requires
        -HEALTH_SCALE_LIMIT <= health <= HEALTH_SCALE_LIMIT,
    ensures
        scale == spec_scale_milli(health as int),
{
    if health >= BASE_HEALTH {
        let d: i64 = health - BASE_HEALTH;
        let s = isqrt((10000 * d) as u64);
        BASE_SIZE_MILLI + (s as i64)
    } else {
        let d: i64 = BASE_HEALTH - health;
        let s = isqrt((10000 * d) as u64);
        BASE_SIZE_MILLI - (s as i64)
    }
}

/// At base health the model returns the base size exactly.
pub proof fn lemma_scale_at_base()
    ensures
        spec_scale_milli(BASE_HEALTH as int) == BASE_SIZE_MILLI,
{
    assert(sqrt_floor(0) == 0);
}

/// The render scale never decreases as health increases.
pub proof fn lemma_scale_monotonic(h1: int, h2: int)
    requires
        h1 <= h2,
    ensures
        spec_scale_milli(h1) <= spec_scale_milli(h2),
{
    if h2 < BASE_HEALTH {
        lemma_sqrt_floor_monotonic(
            (10000 * (BASE_HEALTH - h2)) as nat,
            (10000 * (BASE_HEALTH - h1)) as nat,
        );
    } else if h1 >= BASE_HEALTH {
        lemma_sqrt_floor_monotonic(
            (10000 * (h1 - BASE_HEALTH)) as nat,
            (10000 * (h2 - BASE_HEALTH)) as nat,
        );
    }
}

} // verus!
