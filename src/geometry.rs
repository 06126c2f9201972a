use vstd::prelude::*;

verus! {

/// Coordinates are stored in thousandths of a world unit.
pub const MILLI: i64 = 1000;

/// Every coordinate of a well-formed point lies in `[-WORLD_LIMIT, WORLD_LIMIT]`.
pub const WORLD_LIMIT: i64 = 1_000_000_000;

/// A point of the plane, in thousandths of a world unit.
#[derive(Clone, Copy, Debug, PartialEq, Eq, Structural)]
pub struct Point {
    pub x: i64,
    pub y: i64,
}

impl Point {
    pub open spec fn wf(self) -> bool {
        -WORLD_LIMIT <= self.x <= WORLD_LIMIT && -WORLD_LIMIT <= self.y <= WORLD_LIMIT
    }

    /// A point given in whole world units.
    pub fn from_units(x: i32, y: i32) -> (r: Point)
        requires
            -1_000_000 <= x <= 1_000_000,
            -1_000_000 <= y <= 1_000_000,
        ensures
            r.wf(),
            r.x == x * MILLI,
            r.y == y * MILLI,
    {
        Point { x: x as i64 * MILLI, y: y as i64 * MILLI }
    }
}

/// Squared Euclidean distance, in squared thousandths of a unit.
pub open spec fn dist_sq_spec(a: Point, b: Point) -> int {
    (a.x - b.x) * (a.x - b.x) + (a.y - b.y) * (a.y - b.y)
}

pub open spec fn is_floor_sqrt(n: int, r: int) -> bool {
    0 <= r && r * r <= n && n < (r + 1) * (r + 1)
}

/// The integer part of the square root of `n`.
pub open spec fn floor_sqrt(n: int) -> int {
    choose|r: int| is_floor_sqrt(n, r)
}

/// Euclidean distance rounded down, in thousandths of a unit.
pub open spec fn distance_spec(a: Point, b: Point) -> int {
    floor_sqrt(dist_sq_spec(a, b))
}

pub proof fn lemma_floor_sqrt_unique(n: int, r1: int, r2: int)
    requires
        is_floor_sqrt(n, r1),
        is_floor_sqrt(n, r2),
    ensures
        r1 == r2,
{
    if r1 < r2 {
        assert((r1 + 1) * (r1 + 1) <= r2 * r2) by (nonlinear_arith)
            requires 0 <= r1, r1 + 1 <= r2;
    } else if r2 < r1 {
        assert((r2 + 1) * (r2 + 1) <= r1 * r1) by (nonlinear_arith)
            requires 0 <= r2, r2 + 1 <= r1;
    }
}

pub proof fn lemma_floor_sqrt_of(n: int, r: int)
    requires
        is_floor_sqrt(n, r),
    ensures
        floor_sqrt(n) == r,
{
    let c = floor_sqrt(n);
    assert(is_floor_sqrt(n, c));
    lemma_floor_sqrt_unique(n, r, c);
}

/// A coordinate difference no larger than the distance it belongs to.
pub proof fn lemma_component_le_distance(dx: int, dy: int, d: int)
    requires
        is_floor_sqrt(dx * dx + dy * dy, d),
    ensures
        -d <= dx <= d,
{
    assert(dy * dy >= 0) by (nonlinear_arith);
    if dx > d {
        assert((d + 1) * (d + 1) <= dx * dx) by (nonlinear_arith)
            requires 0 <= d, d + 1 <= dx;
    } else if dx < -d {
        assert((d + 1) * (d + 1) <= dx * dx) by (nonlinear_arith)
            requires 0 <= d, dx <= -(d + 1);
    }
}

/// Integer square root: the largest `r` with `r * r <= n`.
pub fn isqrt(n: u64) -> (r: u64)
    ensures
        is_floor_sqrt(n as int, r as int),
        r == floor_sqrt(n as int),
{
    let mut lo: u64 = 0;
    let mut hi: u64 = 0x1_0000_0000;
    assert(n < 0x1_0000_0000 * 0x1_0000_0000) by (nonlinear_arith)
        requires n < 0x1_0000_0000_0000_0000int;
    while hi - lo > 1
        invariant
            lo < hi <= 0x1_0000_0000,
            lo * lo <= n,
            n < hi * hi,
        decreases hi - lo,
    {
        let mid: u64 = lo + (hi - lo) / 2;
        assert(mid * mid <= 0xffff_ffff * 0xffff_ffff) by (nonlinear_arith)
            requires mid < 0x1_0000_0000;
        if mid * mid <= n {
            lo = mid;
        } else {
            hi = mid;
        }
    }
    assert(hi == lo + 1);
    proof {
        lemma_floor_sqrt_of(n as int, lo as int);
    }
    lo
}

/// Squared distance between two well-formed points.
pub fn dist_sq(a: Point, b: Point) -> (r: u64)
    requires
        a.wf(),
        b.wf(),
    ensures
        r == dist_sq_spec(a, b),
        r <= 8_000_000_000_000_000_000,
{
    let dx: i64 = a.x - b.x;
    let dy: i64 = a.y - b.y;
    assert(dx * dx <= 4_000_000_000_000_000_000) by (nonlinear_arith)
        requires -2_000_000_000 <= dx <= 2_000_000_000;
    assert(dy * dy <= 4_000_000_000_000_000_000) by (nonlinear_arith)
        requires -2_000_000_000 <= dy <= 2_000_000_000;
    assert(dx * dx >= 0 && dy * dy >= 0) by (nonlinear_arith);
    let sx: u64 = (dx as i128 * dx as i128) as u64;
    let sy: u64 = (dy as i128 * dy as i128) as u64;
    sx + sy
}

/// Euclidean distance between two well-formed points, rounded down.
pub fn distance(a: Point, b: Point) -> (r: u64)
    requires
        a.wf(),
        b.wf(),
    ensures
        r == distance_spec(a, b),
        is_floor_sqrt(dist_sq_spec(a, b), r as int),
{
    isqrt(dist_sq(a, b))
}

/// `num * k / d`, rounded toward zero, for `0 <= k < d`.
pub open spec fn scale_toward_zero(num: int, k: int, d: int) -> int {
    if num >= 0 {
        (num * k) / d
    } else {
        -(((-num) * k) / d)
    }
}

/// One coordinate moved `k / d` of the way by `delta`.
pub open spec fn advance_coord(c: int, delta: int, k: int, d: int) -> int {
    c + scale_toward_zero(delta, k, d)
}

/// The point reached by moving from `from` toward `to` by at most `step`
/// thousandths: a point that is already there, or at distance zero, stays
/// put; a shorter step advances the full step along the straight line, each
/// coordinate rounded toward `from`. A step never carries a unit past its
/// goal: one that covers the distance left lands on `to`. That keeps every
/// position between start and goal, hence inside the world, and spares a
/// unit from swinging back and forth across its goal on the ticks after.
pub open spec fn step_toward_spec(from: Point, to: Point, step: int) -> Point {
    let d = distance_spec(from, to);
    if d == 0 {
        from
    } else if step >= d {
        to
    } else {
        Point {
            x: advance_coord(from.x as int, to.x - from.x, step, d) as i64,
            y: advance_coord(from.y as int, to.y - from.y, step, d) as i64,
        }
    }
}

proof fn lemma_scale_bounded(num: int, k: int, d: int)
    requires
        0 <= k < d,
        -d <= num <= d,
    ensures
        num >= 0 ==> 0 <= scale_toward_zero(num, k, d) <= num,
        num < 0 ==> num <= scale_toward_zero(num, k, d) <= 0,
{
    if num >= 0 {
        assert(0 <= num * k <= num * d) by (nonlinear_arith)
            requires 0 <= num, 0 <= k < d;
        assert((num * k) / d <= num) by (nonlinear_arith)
            requires 0 <= num * k <= num * d, 0 < d;
        assert(0 <= (num * k) / d) by (nonlinear_arith)
            requires 0 <= num * k, 0 < d;
    } else {
        let m = -num;
        assert(0 <= m * k <= m * d) by (nonlinear_arith)
            requires 0 <= m, 0 <= k < d;
        assert((m * k) / d <= m) by (nonlinear_arith)
            requires 0 <= m * k <= m * d, 0 < d;
        assert(0 <= (m * k) / d) by (nonlinear_arith)
            requires 0 <= m * k, 0 < d;
    }
}

fn scale_coord(c: i64, delta: i64, k: u64, d: u64) -> (r: i64)
    requires
        0 <= k < d,
        -(d as int) <= delta <= d,
        d <= 3_000_000_000,
        -WORLD_LIMIT <= c <= WORLD_LIMIT,
        -WORLD_LIMIT <= c + delta <= WORLD_LIMIT,
    ensures
        r == advance_coord(c as int, delta as int, k as int, d as int),
        -WORLD_LIMIT <= r <= WORLD_LIMIT,
{
    proof {
        lemma_scale_bounded(delta as int, k as int, d as int);
    }
    if delta >= 0 {
        assert((delta as int) * (k as int) <= 3_000_000_000 * 3_000_000_000) by (nonlinear_arith)
            requires 0 <= delta <= 3_000_000_000, 0 <= k <= 3_000_000_000;
        let q: u128 = (delta as u128 * k as u128) / d as u128;
        c + q as i64
    } else {
        let m: u64 = (-(delta as i128)) as u64;
        assert((m as int) * (k as int) <= 3_000_000_000 * 3_000_000_000) by (nonlinear_arith)
            requires 0 <= m <= 3_000_000_000, 0 <= k <= 3_000_000_000;
        let q: u128 = (m as u128 * k as u128) / d as u128;
        c - q as i64
    }
}

/// Moves `from` toward `to` by at most `step` thousandths of a unit.
pub fn step_toward(from: Point, to: Point, step: u128) -> (r: Point)
    requires
        from.wf(),
        to.wf(),
    ensures
        r == step_toward_spec(from, to, step as int),
        r.wf(),
{
    let ds = dist_sq(from, to);
    let d = isqrt(ds);
    if d == 0 {
        from
    } else if step >= d as u128 {
        to
    } else {
        let dx: i64 = to.x - from.x;
        let dy: i64 = to.y - from.y;
        proof {
            assert(dist_sq_spec(from, to) == dx * dx + dy * dy) by (nonlinear_arith)
                requires dx == to.x - from.x, dy == to.y - from.y;
            assert(dx * dx + dy * dy == dy * dy + dx * dx);
            lemma_component_le_distance(dx as int, dy as int, d as int);
            lemma_component_le_distance(dy as int, dx as int, d as int);
            assert(d <= 3_000_000_000) by (nonlinear_arith)
                requires d * d <= ds, ds <= 8_000_000_000_000_000_000int;
        }
        let k: u64 = step as u64;
        Point { x: scale_coord(from.x, dx, k, d), y: scale_coord(from.y, dy, k, d) }
    }
}

} // verus!
