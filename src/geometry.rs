//! Fixed-point plane geometry: points in thousandths of a world unit.
use vstd::prelude::*;

verus! {

/// Sub-units in one world unit.
pub const UNIT: i64 = 1000;

/// Largest absolute coordinate a point may hold, in sub-units.
pub const COORD_LIMIT: i64 = 4_000_000_000_000;

/// A point on the field, in sub-units.
#[derive(Clone, Copy, Debug, PartialEq, Eq, Structural)]
pub struct Point {
    pub x: i64,
    pub y: i64,
}

pub open spec fn coord_ok(c: int) -> bool {
    -COORD_LIMIT <= c <= COORD_LIMIT
}

impl Point {
    pub open spec fn in_bounds(self) -> bool {
        coord_ok(self.x as int) && coord_ok(self.y as int)
    }

    /// A point from coordinates in sub-units.
    pub fn new(x: i64, y: i64) -> (r: Point)
        ensures
            r.x == x,
            r.y == y,
    {
        Point { x, y }
    }

    /// A point from coordinates in whole world units.
    pub fn from_units(x: i32, y: i32) -> (r: Point)
        ensures
            r.x == x * UNIT,
            r.y == y * UNIT,
            r.in_bounds(),
    {
        Point { x: x as i64 * UNIT, y: y as i64 * UNIT }
    }
}

/// Squared Euclidean distance.
pub open spec fn dist2(a: Point, b: Point) -> int {
    (a.x - b.x) * (a.x - b.x) + (a.y - b.y) * (a.y - b.y)
}

/// The largest `r` with `r * r <= n`.
pub open spec fn is_isqrt(n: int, r: int) -> bool {
    0 <= r && r * r <= n && n < (r + 1) * (r + 1)
}

proof fn lemma_square_bound(d: int)
    requires
        -2 * COORD_LIMIT <= d <= 2 * COORD_LIMIT,
    ensures
        0 <= d * d <= 4 * COORD_LIMIT * COORD_LIMIT,
{
    assert(0 <= d * d <= 4 * COORD_LIMIT * COORD_LIMIT) by (nonlinear_arith)
        requires
            -2 * COORD_LIMIT <= d <= 2 * COORD_LIMIT,
    ;
}

pub proof fn lemma_dist2_bound(a: Point, b: Point)
    requires
        a.in_bounds(),
        b.in_bounds(),
    ensures
        0 <= dist2(a, b) <= 8 * COORD_LIMIT * COORD_LIMIT,
{
    lemma_square_bound(a.x - b.x);
    lemma_square_bound(a.y - b.y);
}

/// Squared distance between two points.
pub fn distance_squared(a: &Point, b: &Point) -> (r: i128)
    requires
        a.in_bounds(),
        b.in_bounds(),
    ensures
        r == dist2(*a, *b),
        0 <= r <= 8 * COORD_LIMIT * COORD_LIMIT,
{
    proof {
        lemma_dist2_bound(*a, *b);
        lemma_square_bound(a.x - b.x);
        lemma_square_bound(a.y - b.y);
    }
    let dx: i128 = a.x as i128 - b.x as i128;
    let dy: i128 = a.y as i128 - b.y as i128;
    dx * dx + dy * dy
}

/// Integer square root, rounding down.
pub fn isqrt(n: u128) -> (r: u128)
    requires
        n <= 8 * COORD_LIMIT * COORD_LIMIT,
    ensures
        is_isqrt(n as int, r as int),
        r < 4 * COORD_LIMIT,
{
    let mut lo: u128 = 0;
    let mut hi: u128 = 4 * (COORD_LIMIT as u128);
    assert(n < hi * hi) by (nonlinear_arith)
        requires
            n <= 8 * COORD_LIMIT * COORD_LIMIT,
            hi == 4 * COORD_LIMIT,
    ;
    while hi - lo > 1
        invariant
            lo < hi <= 4 * COORD_LIMIT,
            lo * lo <= n,
            n < hi * hi,
        decreases hi - lo,
    {
        let mid: u128 = lo + (hi - lo) / 2;
        assert(mid * mid <= 16 * COORD_LIMIT * COORD_LIMIT) by (nonlinear_arith)
            requires
                mid < 4 * COORD_LIMIT,
        ;
        if mid * mid <= n {
            lo = mid;
        } else {
            hi = mid;
        }
    }
    assert(hi == lo + 1);
    lo
}

/// Moves a signed coordinate difference `d` by `step / len` of its length,
/// rounding the magnitude down.
pub open spec fn scaled(d: int, step: int, len: int) -> int {
    if d >= 0 {
        d * step / len
    } else {
        -((-d) * step / len)
    }
}

/// `v` limited to the field's coordinate range.
pub open spec fn clamp_coord(v: int) -> i64 {
    if v < -COORD_LIMIT {
        -COORD_LIMIT as i64
    } else if v > COORD_LIMIT {
        COORD_LIMIT as i64
    } else {
        v as i64
    }
}

/// A coordinate limited to the field, as `clamp_coord` states it.
pub fn clamp_to_field(v: i128) -> (r: i64)
    ensures
        r == clamp_coord(v as int),
        coord_ok(r as int),
{
    if v < -(COORD_LIMIT as i128) {
        -COORD_LIMIT
    } else if v > COORD_LIMIT as i128 {
        COORD_LIMIT
    } else {
        v as i64
    }
}

/// Where a point ends up after moving `step` sub-units toward `dest` in a
/// straight line: along the direction normalized by the rounded-down
/// length, a full step even past `dest`, clamped into the field. A point
/// already at `dest` stays.
pub open spec fn steer(pos: Point, dest: Point, step: int) -> Point {
    let d2 = dist2(pos, dest);
    if d2 == 0 {
        pos
    } else {
        let len = choose|r: int| is_isqrt(d2, r);
        Point {
            x: clamp_coord(pos.x + scaled(dest.x - pos.x, step, len)),
            y: clamp_coord(pos.y + scaled(dest.y - pos.y, step, len)),
        }
    }
}

/// Whether the steering vector toward `dest` has a horizontal component
/// whose share of its length exceeds one tenth.
pub open spec fn turns_horizontally(pos: Point, dest: Point) -> bool {
    100 * ((dest.x - pos.x) * (dest.x - pos.x)) > dist2(pos, dest)
}

/// The rounded-down square root is unique.
pub proof fn lemma_isqrt_unique(n: int, r: int, s: int)
    requires
        is_isqrt(n, r),
        is_isqrt(n, s),
    ensures
        r == s,
{
    if r < s {
        assert((r + 1) * (r + 1) <= s * s) by (nonlinear_arith)
            requires
                0 <= r < s,
        ;
    } else if s < r {
        assert((s + 1) * (s + 1) <= r * r) by (nonlinear_arith)
            requires
                0 <= s < r,
        ;
    }
}

/// A component of a vector is no longer than the rounded-down length.
pub proof fn lemma_component_within(d: int, d2: int, len: int)
    requires
        is_isqrt(d2, len),
        d * d <= d2,
    ensures
        -len <= d <= len,
{
    if d > len {
        assert((len + 1) * (len + 1) <= d * d) by (nonlinear_arith)
            requires
                0 <= len < d,
        ;
    } else if d < -len {
        assert((len + 1) * (len + 1) <= d * d) by (nonlinear_arith)
            requires
                0 <= len,
                d < -len,
        ;
    }
}

/// The rounded-down length of the vector from `a` to `b`, with both of its
/// components bounded by it.
pub fn length_between(a: &Point, b: &Point) -> (r: u128)
    requires
        a.in_bounds(),
        b.in_bounds(),
        dist2(*a, *b) > 0,
    ensures
        r == choose|x: int| is_isqrt(dist2(*a, *b), x),
        is_isqrt(dist2(*a, *b), r as int),
        0 < r < 4 * COORD_LIMIT,
        -r <= b.x - a.x <= r,
        -r <= b.y - a.y <= r,
{
    let d2: i128 = distance_squared(a, b);
    let len: u128 = isqrt(d2 as u128);
    proof {
        let chosen = choose|x: int| is_isqrt(d2 as int, x);
        assert(is_isqrt(d2 as int, len as int));
        lemma_isqrt_unique(d2 as int, len as int, chosen);
        if len == 0 {
            assert((len + 1) * (len + 1) == 1) by (nonlinear_arith)
                requires
                    len == 0,
            ;
        }
        let dx = b.x - a.x;
        let dy = b.y - a.y;
        assert(dx * dx <= d2 && dy * dy <= d2) by (nonlinear_arith)
            requires
                d2 == (a.x - b.x) * (a.x - b.x) + (a.y - b.y) * (a.y - b.y),
                dx == b.x - a.x,
                dy == b.y - a.y,
        ;
        lemma_component_within(dx, d2 as int, len as int);
        lemma_component_within(dy, d2 as int, len as int);
    }
    len
}

/// Advances `pos` by `step` toward `dest`.
pub fn steer_toward(pos: Point, dest: Point, step: i64) -> (r: Point)
    requires
        pos.in_bounds(),
        dest.in_bounds(),
        0 <= step <= 4 * COORD_LIMIT,
    ensures
        r == steer(pos, dest, step as int),
        r.in_bounds(),
{
    let d2: i128 = distance_squared(&pos, &dest);
    if d2 == 0 {
        return pos;
    }
    let len: i128 = length_between(&pos, &dest) as i128;
    let dx: i128 = dest.x as i128 - pos.x as i128;
    let dy: i128 = dest.y as i128 - pos.y as i128;
    let mx: i128 = scale_component(dx, step as i128, len);
    let my: i128 = scale_component(dy, step as i128, len);
    Point { x: clamp_to_field(pos.x as i128 + mx), y: clamp_to_field(pos.y as i128 + my) }
}

/// `d * step / len` with the magnitude rounded down, as `scaled` states it.
pub fn scale_component(d: i128, step: i128, len: i128) -> (r: i128)
    requires
        -len <= d <= len,
        0 <= step <= 16 * COORD_LIMIT,
        0 < len <= 16 * COORD_LIMIT,
    ensures
        r == scaled(d as int, step as int, len as int),
        -step <= r <= step,
{
    let m: i128 = if d >= 0 { d } else { -d };
    assert(0 <= m * step <= 4_096_000_000_000_000_000_000_000_000) by (nonlinear_arith)
        requires
            0 <= m <= 64_000_000_000_000,
            0 <= step <= 64_000_000_000_000,
    ;
    assert(m * step / (len as int) <= step) by (nonlinear_arith)
        requires
            0 <= m <= len,
            0 <= step,
            0 < len,
    ;
    let q: i128 = m * step / len;
    if d >= 0 {
        q
    } else {
        -q
    }
}

} // verus!
