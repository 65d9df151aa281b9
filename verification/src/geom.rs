//! Fixed-point plane geometry.
//!
//! World coordinates are integers counting thousandths of a world unit, so
//! `1000` here is one world unit and `100` is the `0.1`-unit arrival
//! threshold used throughout the command resolver.  Coordinates are kept
//! within [`COORD_LIMIT`] so that every squared distance fits comfortably in
//! a `u64`.

use vstd::prelude::*;

verus! {

/// Fixed-point steps per world unit.
pub const SCALE: i64 = 1000;

/// Largest magnitude a stored coordinate may have (ten thousand world units).
pub const COORD_LIMIT: i64 = 10_000_000;

/// Largest unit footprint radius (one thousand world units).
pub const SIZE_LIMIT: u64 = 1_000_000;

/// Largest attack or engage range; its square still fits the distance
/// arithmetic.
pub const RANGE_LIMIT: u64 = 30_000_000;

/// Squared arrival threshold: `dist < 0.1` world units iff
/// `dist2 < PRECISE_THRESHOLD2`.
pub const PRECISE_THRESHOLD2: u64 = 10_000;

/// A point or displacement in the world plane.
#[derive(Clone, Copy, PartialEq, Eq, Structural, Debug)]
pub struct Vec2 {
    pub x: i64,
    pub y: i64,
}

impl Vec2 {
    /// Both coordinates within the world's coordinate limit.
    pub open spec fn in_bounds(self) -> bool {
        &&& -COORD_LIMIT <= self.x <= COORD_LIMIT
        &&& -COORD_LIMIT <= self.y <= COORD_LIMIT
    }

    pub fn new(x: i64, y: i64) -> (r: Vec2)
        ensures
            r.x == x,
            r.y == y,
    {
        Vec2 { x, y }
    }
}

/// Squared Euclidean distance between two points, as a mathematical integer.
pub open spec fn dist2_spec(a: Vec2, b: Vec2) -> int {
    (a.x - b.x) * (a.x - b.x) + (a.y - b.y) * (a.y - b.y)
}

/// A square of a difference of bounded coordinates is nonnegative and small.
proof fn lemma_diff_square_bounds(p: int, q: int)
    requires
        -COORD_LIMIT <= p <= COORD_LIMIT,
        -COORD_LIMIT <= q <= COORD_LIMIT,
    ensures
        0 <= (p - q) * (p - q) <= 400_000_000_000_000,
{
    let d = p - q;
    assert(-20_000_000 <= d <= 20_000_000);
    assert(0 <= d * d <= 400_000_000_000_000) by (nonlinear_arith)
        requires
            -20_000_000 <= d <= 20_000_000,
    ;
}

/// Squared distances of in-bounds points never exceed this.
pub const MAX_DIST2: u64 = 800_000_000_000_000;

pub proof fn lemma_dist2_bounds(a: Vec2, b: Vec2)
    requires
        a.in_bounds(),
        b.in_bounds(),
    ensures
        0 <= dist2_spec(a, b) <= MAX_DIST2,
{
    lemma_diff_square_bounds(a.x as int, b.x as int);
    lemma_diff_square_bounds(a.y as int, b.y as int);
}

/// Squared distance between two in-bounds points.
pub fn dist2(a: Vec2, b: Vec2) -> (r: u64)
    requires
        a.in_bounds(),
        b.in_bounds(),
    ensures
        r == dist2_spec(a, b),
        r <= MAX_DIST2,
{
    proof {
        lemma_diff_square_bounds(a.x as int, b.x as int);
        lemma_diff_square_bounds(a.y as int, b.y as int);
    }
    let dx: i64 = a.x - b.x;
    let dy: i64 = a.y - b.y;
    let sx: i64 = dx * dx;
    let sy: i64 = dy * dy;
    (sx + sy) as u64
}

/// Floor of the real square root, defined by counting up.
pub open spec fn isqrt_spec(n: int) -> int
    decreases n,
{
    if n <= 0 {
        0
    } else {
        let r = isqrt_spec(n - 1);
        if (r + 1) * (r + 1) <= n {
            r + 1
        } else {
            r
        }
    }
}

/// The defining property of the integer square root.
pub proof fn lemma_isqrt_spec_bounds(n: int)
    requires
        n >= 0,
    ensures
        0 <= isqrt_spec(n),
        isqrt_spec(n) * isqrt_spec(n) <= n,
        n < (isqrt_spec(n) + 1) * (isqrt_spec(n) + 1),
    decreases n,
{
    if n > 0 {
        lemma_isqrt_spec_bounds(n - 1);
        let r = isqrt_spec(n - 1);
        if (r + 1) * (r + 1) <= n {
            assert(isqrt_spec(n) == r + 1);
            assert(n < (r + 2) * (r + 2)) by (nonlinear_arith)
                requires
                    n - 1 < (r + 1) * (r + 1),
                    r >= 0,
            ;
        } else {
            assert(isqrt_spec(n) == r);
        }
    }
}

/// Any value with the square-root sandwich property is the square root.
pub proof fn lemma_isqrt_unique(n: int, r: int)
    requires
        n >= 0,
        r >= 0,
        r * r <= n,
        n < (r + 1) * (r + 1),
    ensures
        r == isqrt_spec(n),
{
    lemma_isqrt_spec_bounds(n);
    let s = isqrt_spec(n);
    if r < s {
        assert((r + 1) * (r + 1) <= s * s) by (nonlinear_arith)
            requires
                r + 1 <= s,
                r >= 0,
        ;
    }
    if s < r {
        assert((s + 1) * (s + 1) <= r * r) by (nonlinear_arith)
            requires
                s + 1 <= r,
                s >= 0,
        ;
    }
}

/// Integer square root: the result is the floor of the real square root.
pub fn isqrt(n: u64) -> (r: u64)
    requires
        n <= MAX_DIST2,
    ensures
        r * r <= n,
        n < (r + 1) * (r + 1),
        r <= 0x8000_0000,
        r == isqrt_spec(n as int),
        n >= 1 ==> r >= 1,
    decreases n,
{
    let mut lo: u64 = 0;
    let mut hi: u64 = 0x8000_0000;
    assert(n < 0x8000_0000u64 * 0x8000_0000u64);
    while lo + 1 < hi
        invariant
            lo < hi <= 0x8000_0000,
            lo * lo <= n,
            n < hi * hi,
        decreases hi - lo,
    {
        let mid: u64 = lo + (hi - lo) / 2;
        assert(lo < mid < hi);
        assert(mid * mid <= 0x8000_0000 * 0x8000_0000) by (nonlinear_arith)
            requires
                0 <= mid <= 0x8000_0000,
        ;
        if mid * mid <= n {
            lo = mid;
        } else {
            hi = mid;
        }
    }
    proof {
        lemma_isqrt_unique(n as int, lo as int);
    }
    lo
}

/// Ceiling division on naturals: the least `q` with `q * b >= a`.
pub open spec fn ceil_div_spec(a: int, b: int) -> int {
    (a + b - 1) / b
}

pub proof fn lemma_ceil_div_bounds(a: int, b: int)
    requires
        a >= 0,
        b >= 1,
    ensures
        ceil_div_spec(a, b) * b >= a,
        ceil_div_spec(a, b) >= 0,
        a > 0 ==> ceil_div_spec(a, b) >= 1,
        ceil_div_spec(a, b) <= a,
{
    let q = (a + b - 1) / b;
    vstd::arithmetic::div_mod::lemma_fundamental_div_mod(a + b - 1, b);
    vstd::arithmetic::div_mod::lemma_remainder_lower(a + b - 1, b);
    vstd::arithmetic::div_mod::lemma_remainder_upper(a + b - 1, b);
    vstd::arithmetic::div_mod::lemma_div_pos_is_pos(a + b - 1, b);
    if a > 0 {
        assert(a + b - 1 >= b);
        vstd::arithmetic::div_mod::lemma_div_is_ordered(b, a + b - 1, b);
        vstd::arithmetic::div_mod::lemma_div_by_self(b);
    }
    if q > a {
        assert(q * b >= (a + 1) * b) by (nonlinear_arith)
            requires
                q >= a + 1,
                b >= 1,
        ;
        assert((a + 1) * b == a * b + b) by (nonlinear_arith);
        assert(a * b + b > a + b - 1) by (nonlinear_arith)
            requires
                a >= 0,
                b >= 1,
        ;
    }
}

/// Ceiling division, `a / b` rounded up.
pub fn ceil_div(a: u64, b: u64) -> (r: u64)
    requires
        b >= 1,
    ensures
        r == ceil_div_spec(a as int, b as int),
        r * b >= a,
        r <= a,
{
    proof {
        lemma_ceil_div_bounds(a as int, b as int);
    }
    if a == 0 {
        proof {
            vstd::arithmetic::div_mod::lemma_basic_div(b - 1, b as int);
        }
        0
    } else {
        proof {
            vstd::arithmetic::div_mod::lemma_div_plus_one(a - 1, b as int);
            vstd::arithmetic::div_mod::lemma_div_nonincreasing(a - 1, b as int);
        }
        (a - 1) / b + 1
    }
}

/// Clamp a coordinate into the world's coordinate range.
pub fn clamp_coord(v: i64) -> (r: i64)
    ensures
        r == clamp_coord_spec(v as int),
        -COORD_LIMIT <= r <= COORD_LIMIT,
{
    if v < -COORD_LIMIT {
        -COORD_LIMIT
    } else if v > COORD_LIMIT {
        COORD_LIMIT
    } else {
        v
    }
}

pub open spec fn clamp_coord_spec(v: int) -> int {
    if v < -COORD_LIMIT {
        -COORD_LIMIT as int
    } else if v > COORD_LIMIT {
        COORD_LIMIT as int
    } else {
        v
    }
}

} // verus!
