//! Integer vectors, squared distances, and a rounding-safe "normalize and
//! scale" that yields the zero vector for a zero displacement.

use vstd::prelude::*;

verus! {

/// A position, velocity or impulse in integer world units.
#[derive(Clone, Copy, Debug, PartialEq, Eq, Structural)]
pub struct Vector2 {
    pub x: i32,
    pub y: i32,
}

impl Vector2 {
    pub fn new(x: i32, y: i32) -> (r: Vector2)
        ensures
            r.x == x,
            r.y == y,
    {
        Vector2 { x, y }
    }

    pub fn zero() -> (r: Vector2)
        ensures
            r.x == 0,
            r.y == 0,
    {
        Vector2 { x: 0, y: 0 }
    }
}

pub open spec fn magnitude(a: int) -> int {
    if a < 0 {
        -a
    } else {
        a
    }
}

/// Squared Euclidean distance between two points.
pub open spec fn dist_sq(a: Vector2, b: Vector2) -> int {
    (b.x - a.x) * (b.x - a.x) + (b.y - a.y) * (b.y - a.y)
}

/// `c` is the whole part of `sqrt(t / n)`.
pub open spec fn is_floor_root(c: int, t: int, n: int) -> bool {
    &&& 0 <= c
    &&& c * c * n <= t
    &&& t < (c + 1) * (c + 1) * n
}

/// `c` is the component `d * len / sqrt(n)` rounded toward zero.
pub open spec fn is_scaled_component(d: int, n: int, len: int, c: int) -> bool {
    &&& if d < 0 {
        c <= 0
    } else {
        c >= 0
    }
    &&& is_floor_root(magnitude(c), d * d * len * len, n)
}

/// `r` is the unit direction from `from` to `to`, scaled to length `len` and
/// rounded toward zero on each axis; the zero vector when the two points
/// coincide.
pub open spec fn is_direction(from: Vector2, to: Vector2, len: int, r: Vector2) -> bool {
    let dx = to.x - from.x;
    let dy = to.y - from.y;
    let n = dist_sq(from, to);
    if n == 0 {
        r.x == 0 && r.y == 0
    } else {
        is_scaled_component(dx, n, len, r.x as int) && is_scaled_component(dy, n, len, r.y as int)
    }
}

proof fn lemma_square_bound(a: int, bound: int)
    requires
        0 <= a < bound,
    ensures
        a * a < bound * bound,
{
    assert(a * a < bound * bound) by (nonlinear_arith)
        requires
            0 <= a < bound,
    ;
}

/// Largest `c` in `[0, hi]` with `c * c * n <= t`.
fn floor_root(t: u128, n: u128, hi: u32) -> (c: u32)
    requires
        n > 0,
        n < 0x2_0000_0000_0000_0000,
        hi < 0x8000_0000,
        t < (hi + 1) * (hi + 1) * n,
    ensures
        is_floor_root(c as int, t as int, n as int),
        c <= hi,
{
    let mut lo: u32 = 0;
    let mut up: u32 = hi + 1;
    assert(0 * 0 * (n as int) == 0) by (nonlinear_arith);
    while up - lo > 1
        invariant
            n > 0,
            n < 0x2_0000_0000_0000_0000,
            lo < up <= hi + 1,
            hi < 0x8000_0000,
            lo * lo * n <= t,
            t < up * up * n,
        decreases up - lo,
    {
        let mid: u32 = lo + (up - lo) / 2;
        let m: u128 = mid as u128;
        proof {
            let mi = mid as int;
            lemma_square_bound(mi, 0x8000_0000);
            assert(mi * mi * n < 0x4000_0000_0000_0000 * 0x2_0000_0000_0000_0000) by (
            nonlinear_arith)
                requires
                    0 <= mi * mi < 0x4000_0000_0000_0000,
                    0 < n < 0x2_0000_0000_0000_0000,
            ;
        }
        if m * m * n <= t {
            lo = mid;
        } else {
            up = mid;
        }
    }
    lo
}

/// `d * len / sqrt(n)` rounded toward zero, where `n` is the squared length
/// of a vector that has `d` as one of its components.
fn scaled_component(d: i64, n: u128, len: i32) -> (c: i32)
    requires
        n > 0,
        n < 0x2_0000_0000_0000_0000,
        d * d <= n,
        len >= 0,
    ensures
        is_scaled_component(d as int, n as int, len as int, c as int),
        magnitude(c as int) <= len,
{
    let a: u64 = if d < 0 {
        (0 - (d as i128)) as u64
    } else {
        d as u64
    };
    let l: u128 = len as u128;
    proof {
        let ai = a as int;
        let li = len as int;
        let ni = n as int;
        assert(ai * ai == (d as int) * (d as int)) by (nonlinear_arith)
            requires
                ai == magnitude(d as int),
        ;
        assert(ai * ai * (li * li) < (li + 1) * (li + 1) * ni) by (nonlinear_arith)
            requires
                0 <= ai * ai <= ni,
                0 <= li,
                ni > 0,
        ;
        assert(0 <= ai * ai < 0x2_0000_0000_0000_0000) by (nonlinear_arith)
            requires
                ai * ai <= ni,
                ni < 0x2_0000_0000_0000_0000,
        ;
        lemma_square_bound(li, 0x8000_0000);
        assert(ai * ai * (li * li) <= 0x2_0000_0000_0000_0000 * 0x4000_0000_0000_0000) by (
        nonlinear_arith)
            requires
                0 <= ai * ai <= 0x2_0000_0000_0000_0000,
                0 <= li * li <= 0x4000_0000_0000_0000,
        ;
    }
    let t: u128 = (a as u128) * (a as u128) * (l * l);
    let c: u32 = floor_root(t, n, len as u32);
    proof {
        let di = d as int;
        let li = len as int;
        assert(t as int == di * di * li * li) by (nonlinear_arith)
            requires
                t as int == (a as int) * (a as int) * (li * li),
                (a as int) * (a as int) == di * di,
        ;
    }
    if d < 0 {
        -(c as i32)
    } else {
        c as i32
    }
}

/// The direction from `from` to `to`, scaled to length `len`: each component
/// is `delta * len / |delta|` rounded toward zero. Coinciding points give the
/// zero vector rather than a division by zero.
pub fn scaled_direction(from: Vector2, to: Vector2, len: i32) -> (r: Vector2)
    requires
        len >= 0,
    ensures
        is_direction(from, to, len as int, r),
        magnitude(r.x as int) <= len,
        magnitude(r.y as int) <= len,
{
    let dx: i64 = to.x as i64 - from.x as i64;
    let dy: i64 = to.y as i64 - from.y as i64;
    proof {
        let a = dx as int;
        let b = dy as int;
        assert(a * a < 0x1_0000_0000_0000_0000 && b * b < 0x1_0000_0000_0000_0000) by (
        nonlinear_arith)
            requires
                -0x1_0000_0000 < a < 0x1_0000_0000,
                -0x1_0000_0000 < b < 0x1_0000_0000,
        ;
        assert(a * a >= 0 && b * b >= 0) by (nonlinear_arith);
    }
    let n: u128 = ((dx as i128) * (dx as i128) + (dy as i128) * (dy as i128)) as u128;
    if n == 0 {
        Vector2 { x: 0, y: 0 }
    } else {
        let cx = scaled_component(dx, n, len);
        let cy = scaled_component(dy, n, len);
        Vector2 { x: cx, y: cy }
    }
}

proof fn lemma_floor_root_unique(c1: int, c2: int, t: int, n: int)
    requires
        n > 0,
        is_floor_root(c1, t, n),
        is_floor_root(c2, t, n),
    ensures
        c1 == c2,
{
    if c1 < c2 {
        assert((c1 + 1) * (c1 + 1) * n <= c2 * c2 * n) by (nonlinear_arith)
            requires
                0 <= c1 + 1 <= c2,
                n > 0,
        ;
    }
    if c2 < c1 {
        assert((c2 + 1) * (c2 + 1) * n <= c1 * c1 * n) by (nonlinear_arith)
            requires
                0 <= c2 + 1 <= c1,
                n > 0,
        ;
    }
}

/// The scaled direction is determined by its two points and its length: the
/// contract of `scaled_direction` admits exactly one result.
pub proof fn lemma_direction_unique(from: Vector2, to: Vector2, len: int, r1: Vector2, r2: Vector2)
    requires
        is_direction(from, to, len, r1),
        is_direction(from, to, len, r2),
    ensures
        r1 == r2,
{
    let n = dist_sq(from, to);
    if n != 0 {
        assert(n > 0) by (nonlinear_arith)
            requires
                n == (to.x - from.x) * (to.x - from.x) + (to.y - from.y) * (to.y - from.y),
                n != 0,
        ;
        let tx = (to.x - from.x) * (to.x - from.x) * len * len;
        let ty = (to.y - from.y) * (to.y - from.y) * len * len;
        lemma_floor_root_unique(magnitude(r1.x as int), magnitude(r2.x as int), tx, n);
        lemma_floor_root_unique(magnitude(r1.y as int), magnitude(r2.y as int), ty, n);
    }
}

/// A scaled direction between distinct points has length `len` up to the
/// rounding of each component toward zero: its squared length is at most
/// `len * len`, and rounding each component one step away from zero would
/// overshoot `len`.
pub proof fn lemma_direction_length(from: Vector2, to: Vector2, len: int, r: Vector2)
    requires
        len >= 0,
        from != to,
        is_direction(from, to, len, r),
    ensures
        r.x * r.x + r.y * r.y <= len * len,
        len * len < (magnitude(r.x as int) + 1) * (magnitude(r.x as int) + 1) + (magnitude(
            r.y as int,
        ) + 1) * (magnitude(r.y as int) + 1),
{
    let dx = to.x - from.x;
    let dy = to.y - from.y;
    let n = dist_sq(from, to);
    let cx = magnitude(r.x as int);
    let cy = magnitude(r.y as int);
    assert(n > 0) by (nonlinear_arith)
        requires
            n == dx * dx + dy * dy,
            dx != 0 || dy != 0,
    ;
    assert(cx * cx == r.x * r.x && cy * cy == r.y * r.y) by (nonlinear_arith)
        requires
            cx == magnitude(r.x as int),
            cy == magnitude(r.y as int),
    ;
    assert((cx * cx + cy * cy) * n <= n * (len * len)) by (nonlinear_arith)
        requires
            cx * cx * n <= dx * dx * len * len,
            cy * cy * n <= dy * dy * len * len,
            n == dx * dx + dy * dy,
    ;
    assert(cx * cx + cy * cy <= len * len) by (nonlinear_arith)
        requires
            (cx * cx + cy * cy) * n <= n * (len * len),
            n > 0,
    ;
    let ux = (cx + 1) * (cx + 1);
    let uy = (cy + 1) * (cy + 1);
    assert(n * (len * len) < (ux + uy) * n) by (nonlinear_arith)
        requires
            dx * dx * len * len < ux * n,
            dy * dy * len * len < uy * n,
            n == dx * dx + dy * dy,
    ;
    assert(len * len < ux + uy) by (nonlinear_arith)
        requires
            n * (len * len) < (ux + uy) * n,
            n > 0,
    ;
}

} // verus!
