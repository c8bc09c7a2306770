//! Fixed-point geometry: integer square root, heading toward a point, proximity.

use vstd::prelude::*;
use crate::SPEED;
use vstd::arithmetic::div_mod::{lemma_fundamental_div_mod, lemma_mod_pos_bound};

verus! {

/// Largest magnitude of a coordinate, in units.
pub const COORD_LIMIT: i64 = 1_099_511_627_776;

/// Two UFOs closer than this (in units) collide.
pub const COLLISION_DISTANCE: i64 = 40_000;

pub open spec fn in_coord_range(v: int) -> bool {
    -COORD_LIMIT <= v <= COORD_LIMIT
}

/// `r` is the integer square root of `n`.
pub open spec fn is_isqrt(n: int, r: int) -> bool {
    0 <= r && r * r <= n < (r + 1) * (r + 1)
}

/// Squared Euclidean length of `(dx, dy)`.
pub open spec fn norm2(dx: int, dy: int) -> int {
    dx * dx + dy * dy
}

/// The length of `(dx, dy)` in units of `1 / SPEED`, truncated: the integer
/// square root of `norm2(dx, dy) * SPEED^2`.
pub open spec fn length(dx: int, dy: int) -> int
    recommends
        norm2(dx, dy) >= 0,
{
    choose|r: int| #[trigger] is_isqrt(norm2(dx, dy) * (SPEED * SPEED), r)
}

/// One component of a speed-`SPEED` step along a vector whose length, in
/// units of `1 / SPEED`, is `dist`; truncated toward zero.
pub open spec fn toward(d: int, dist: int) -> int {
    if d >= 0 {
        d * (SPEED * SPEED) / dist
    } else {
        -((-d) * (SPEED * SPEED) / dist)
    }
}

/// The velocity that heads from a point toward another that lies `(dx, dy)`
/// away; with nowhere to go the heading is along the x axis.
pub open spec fn heading(dx: int, dy: int, dist: int) -> (int, int) {
    if dist == 0 {
        (SPEED as int, 0)
    } else {
        (toward(dx, dist), toward(dy, dist))
    }
}

/// `(vx, vy)` has speed `SPEED` up to rounding and points toward `(dx, dy)`.
pub open spec fn on_course(vx: int, vy: int, dx: int, dy: int) -> bool {
    &&& -4 * SPEED <= vx * vx + vy * vy - SPEED * SPEED <= 4 * SPEED
    &&& vx * dx + vy * dy > 0
}

/// Two points are closer than the collision distance.
pub open spec fn close(ax: int, ay: int, bx: int, by: int) -> bool {
    norm2(ax - bx, ay - by) < COLLISION_DISTANCE * COLLISION_DISTANCE
}

/// The integer square root of `n`.
pub fn isqrt(n: u128) -> (r: u64)
    ensures
        is_isqrt(n as int, r as int),
{
    let mut lo: u128 = 0;
    let mut hi: u128 = 0x1_0000_0000_0000_0000;
    proof {
        assert(hi * hi > u128::MAX) by (nonlinear_arith)
            requires hi == 0x1_0000_0000_0000_0000u128;
    }
    while hi - lo > 1
        invariant
            lo < hi <= 0x1_0000_0000_0000_0000u128,
            lo * lo <= n,
            n < hi * hi,
        decreases hi - lo,
    {
        let mid: u128 = lo + (hi - lo) / 2;
        proof {
            assert(mid * mid < 0x1_0000_0000_0000_0000u128 * 0x1_0000_0000_0000_0000u128)
                by (nonlinear_arith)
                requires mid < 0x1_0000_0000_0000_0000u128;
        }
        if mid * mid <= n {
            lo = mid;
        } else {
            hi = mid;
        }
    }
    assert(hi == lo + 1);
    lo as u64
}

/// The speed-`SPEED` velocity toward a point `(dx, dy)` away.
pub fn heading_toward(dx: i64, dy: i64) -> (v: (i64, i64))
    requires
        -2 * COORD_LIMIT <= dx <= 2 * COORD_LIMIT,
        -2 * COORD_LIMIT <= dy <= 2 * COORD_LIMIT,
    ensures
        (v.0 as int, v.1 as int) == heading(dx as int, dy as int, length(dx as int, dy as int)),
        -SPEED <= v.0 <= SPEED,
        -SPEED <= v.1 <= SPEED,
        (dx, dy) != (0i64, 0i64) ==> on_course(v.0 as int, v.1 as int, dx as int, dy as int),
{
    proof {
        lemma_square_bound(dx as int, 2 * COORD_LIMIT);
        lemma_square_bound(dy as int, 2 * COORD_LIMIT);
        assert((2 * COORD_LIMIT) * (2 * COORD_LIMIT) == 4835703278458516698824704int)
            by (nonlinear_arith)
            requires COORD_LIMIT == 1_099_511_627_776int;
    }
    let n2: i128 = (dx as i128) * (dx as i128) + (dy as i128) * (dy as i128);
    let scale: u128 = (SPEED as u128) * (SPEED as u128);
    let dist = isqrt((n2 as u128) * scale);
    proof {
        lemma_isqrt_unique(norm2(dx as int, dy as int) * (SPEED * SPEED), dist as int);
        if (dx, dy) != (0i64, 0i64) {
            lemma_heading_on_course(dx as int, dy as int);
        }
    }
    if dist == 0 {
        (SPEED, 0)
    } else {
        proof {
            if dx == 0 && dy == 0 {
                assert(norm2(dx as int, dy as int) * (SPEED * SPEED) == 0);
                assert(dist * dist <= 0);
                assert(dist == 0) by (nonlinear_arith)
                    requires dist * dist <= 0;
            }
        }
        (scaled_toward(dx, dist), scaled_toward(dy, dist))
    }
}

/// The magnitude of `d`.
pub open spec fn abs(d: int) -> int {
    if d >= 0 { d } else { -d }
}

/// `toward(d, dist)`, given that it is at most `SPEED` in magnitude.
fn scaled_toward(d: i64, dist: u64) -> (r: i64)
    requires
        0 < dist,
        -2 * COORD_LIMIT <= d <= 2 * COORD_LIMIT,
        -SPEED <= toward(d as int, dist as int) <= SPEED,
    ensures
        r == toward(d as int, dist as int),
        -SPEED <= r <= SPEED,
{
    let a: u128 = if d >= 0 { d as u128 } else { (-d) as u128 };
    proof {
        assert(a * (SPEED * SPEED) <= 2 * COORD_LIMIT * 1_000_000) by (nonlinear_arith)
            requires 0 <= a <= 2 * COORD_LIMIT, SPEED == 1000;
    }
    let q = (a * ((SPEED as u128) * (SPEED as u128))) / (dist as u128);
    if d >= 0 {
        q as i64
    } else {
        -(q as i64)
    }
}

/// The step lengths that `toward` gives along each axis, by magnitude: each
/// at most `SPEED`, and together of length `SPEED` up to rounding.
proof fn lemma_step_magnitudes(a0: int, a1: int, dist: int)
    requires
        0 <= a0,
        0 <= a1,
        0 < a0 + a1,
        is_isqrt((a0 * a0 + a1 * a1) * (SPEED * SPEED), dist),
    ensures
        dist >= SPEED,
        ({
            let q0 = a0 * (SPEED * SPEED) / dist;
            let q1 = a1 * (SPEED * SPEED) / dist;
            &&& 0 <= q0 <= SPEED
            &&& 0 <= q1 <= SPEED
            &&& SPEED * SPEED - 3 * SPEED <= q0 * q0 + q1 * q1 <= SPEED * SPEED + 2 * SPEED
            &&& q0 > 0 ==> a0 > 0
            &&& q1 > 0 ==> a1 > 0
        }),
{
    let s: int = 1000;
    assert(SPEED == s);
    let n = a0 * a0 + a1 * a1;
    assert(n >= 1) by (nonlinear_arith)
        requires n == a0 * a0 + a1 * a1, 0 <= a0, 0 <= a1, 0 < a0 + a1;
    assert(dist >= s) by (nonlinear_arith)
        requires (dist + 1) * (dist + 1) > n * (s * s), n >= 1, dist >= 0, s == 1000;
    let x0 = a0 * (s * s);
    let x1 = a1 * (s * s);
    let q0 = x0 / dist;
    let q1 = x1 / dist;
    lemma_fundamental_div_mod(x0, dist);
    lemma_fundamental_div_mod(x1, dist);
    lemma_mod_pos_bound(x0, dist);
    lemma_mod_pos_bound(x1, dist);
    assert(a0 * a0 <= n && a1 * a1 <= n) by (nonlinear_arith)
        requires n == a0 * a0 + a1 * a1, 0 <= a0, 0 <= a1;
    lemma_axis_step(a0, n, dist);
    lemma_axis_step(a1, n, dist);
    assert(q0 * dist <= x0 < (q0 + 1) * dist && q1 * dist <= x1 < (q1 + 1) * dist)
        by (nonlinear_arith)
        requires
            x0 == dist * q0 + x0 % dist,
            0 <= x0 % dist < dist,
            x1 == dist * q1 + x1 % dist,
            0 <= x1 % dist < dist;
    assert(0 <= x0 && 0 <= x1) by (nonlinear_arith)
        requires x0 == a0 * (s * s), x1 == a1 * (s * s), 0 <= a0, 0 <= a1;
    let qq = q0 * q0 + q1 * q1;
    // From above: qq * dist^2 <= x0^2 + x1^2 = n * s^4 < (dist + 1)^2 * s^2 <= (s + 1)^2 * dist^2.
    assert(qq * (dist * dist) <= x0 * x0 + x1 * x1) by (nonlinear_arith)
        requires
            qq == q0 * q0 + q1 * q1,
            0 <= q0, 0 <= q1,
            q0 * dist <= x0,
            q1 * dist <= x1,
            dist >= 0;
    assert(x0 * x0 + x1 * x1 == n * (s * s) * (s * s)) by (nonlinear_arith)
        requires x0 == a0 * (s * s), x1 == a1 * (s * s), n == a0 * a0 + a1 * a1;
    assert(n * (s * s) * (s * s) < (s + 1) * (s + 1) * (dist * dist)) by (nonlinear_arith)
        requires
            n * (s * s) < (dist + 1) * (dist + 1),
            dist >= s,
            s == 1000;
    assert(qq < (s + 1) * (s + 1)) by (nonlinear_arith)
        requires
            qq * (dist * dist) < (s + 1) * (s + 1) * (dist * dist),
            dist >= s,
            s == 1000;
    // From below: s^2 * dist^2 <= n * s^4 < ((q0 + 1)^2 + (q1 + 1)^2) * dist^2.
    assert(x0 * x0 + x1 * x1 < ((q0 + 1) * (q0 + 1) + (q1 + 1) * (q1 + 1)) * (dist * dist))
        by (nonlinear_arith)
        requires
            0 <= x0 < (q0 + 1) * dist,
            0 <= x1 < (q1 + 1) * dist,
            dist > 0;
    assert((s * s) * (dist * dist) <= n * (s * s) * (s * s)) by (nonlinear_arith)
        requires dist * dist <= n * (s * s), s == 1000;
    assert(s * s < (q0 + 1) * (q0 + 1) + (q1 + 1) * (q1 + 1)) by (nonlinear_arith)
        requires
            (s * s) * (dist * dist) < ((q0 + 1) * (q0 + 1) + (q1 + 1) * (q1 + 1)) * (dist * dist),
            dist > 0;
    assert(q0 + q1 < 1500) by (nonlinear_arith)
        requires
            q0 * q0 + q1 * q1 < (s + 1) * (s + 1),
            0 <= q0, 0 <= q1,
            s == 1000;
    assert(s * s - 3 * s <= qq <= s * s + 2 * s) by (nonlinear_arith)
        requires
            qq == q0 * q0 + q1 * q1,
            qq < (s + 1) * (s + 1),
            s * s < (q0 + 1) * (q0 + 1) + (q1 + 1) * (q1 + 1),
            q0 + q1 < 1500,
            s == 1000;
}

/// Along one axis of length `a` (of a vector of squared length `n`), the
/// step `a * SPEED^2 / dist` is between 0 and `SPEED`, and positive only if
/// `a` is.
proof fn lemma_axis_step(a: int, n: int, dist: int)
    requires
        0 <= a,
        a * a <= n,
        is_isqrt(n * (SPEED * SPEED), dist),
        dist >= SPEED,
    ensures
        0 <= a * (SPEED * SPEED) / dist <= SPEED,
        a * (SPEED * SPEED) / dist > 0 ==> a > 0,
{
    let s: int = 1000;
    assert(SPEED == s);
    let x = a * (s * s);
    let q = x / dist;
    lemma_fundamental_div_mod(x, dist);
    lemma_mod_pos_bound(x, dist);
    assert(a * s <= dist) by (nonlinear_arith)
        requires
            0 <= a,
            a * a <= n,
            (dist + 1) * (dist + 1) > n * (s * s),
            dist >= 0,
            s == 1000;
    assert(0 <= q <= s && (q > 0 ==> a > 0)) by (nonlinear_arith)
        requires
            0 <= a,
            a * s <= dist,
            dist >= s,
            x == a * (s * s),
            x == dist * q + x % dist,
            0 <= x % dist < dist,
            s == 1000;
}

/// The heading toward any other point has speed `SPEED` up to rounding and
/// points toward it.
pub proof fn lemma_heading_on_course(dx: int, dy: int)
    requires
        (dx, dy) != (0int, 0int),
    ensures
        ({
            let v = heading(dx, dy, length(dx, dy));
            on_course(v.0, v.1, dx, dy) && -SPEED <= v.0 <= SPEED && -SPEED <= v.1 <= SPEED
        }),
{
    let (a0, a1) = (abs(dx), abs(dy));
    assert(norm2(dx, dy) == a0 * a0 + a1 * a1) by (nonlinear_arith)
        requires a0 == abs(dx), a1 == abs(dy);
    let m = norm2(dx, dy) * (SPEED * SPEED);
    lemma_isqrt_exists(m);
    let dist = length(dx, dy);
    assert(is_isqrt(m, dist));
    lemma_step_magnitudes(a0, a1, dist);
    let q0 = a0 * (SPEED * SPEED) / dist;
    let q1 = a1 * (SPEED * SPEED) / dist;
    let v = heading(dx, dy, dist);
    assert(v.0 == if dx >= 0 { q0 } else { -q0 });
    assert(v.1 == if dy >= 0 { q1 } else { -q1 });
    assert(v.0 * v.0 + v.1 * v.1 == q0 * q0 + q1 * q1) by (nonlinear_arith)
        requires
            v.0 == q0 || v.0 == -q0,
            v.1 == q1 || v.1 == -q1;
    assert(v.0 * dx + v.1 * dy == q0 * a0 + q1 * a1) by (nonlinear_arith)
        requires
            v.0 == (if dx >= 0 { q0 } else { -q0 }),
            v.1 == (if dy >= 0 { q1 } else { -q1 }),
            a0 == abs(dx),
            a1 == abs(dy);
    assert(q0 * a0 + q1 * a1 > 0) by (nonlinear_arith)
        requires
            0 <= q0, 0 <= q1, 0 <= a0, 0 <= a1,
            q0 > 0 ==> a0 > 0,
            q1 > 0 ==> a1 > 0,
            q0 * q0 + q1 * q1 >= 997000;
}

/// Every natural number has an integer square root.
proof fn lemma_isqrt_exists(n: int)
    requires
        n >= 0,
    ensures
        exists|r: int| #[trigger] is_isqrt(n, r),
    decreases n,
{
    if n == 0 {
        assert(is_isqrt(0, 0));
    } else {
        lemma_isqrt_exists(n - 1);
        let r = choose|r: int| #[trigger] is_isqrt(n - 1, r);
        if n < (r + 1) * (r + 1) {
            assert(is_isqrt(n, r));
        } else {
            assert(is_isqrt(n, r + 1)) by (nonlinear_arith)
                requires
                    0 <= r,
                    r * r <= n - 1,
                    n - 1 < (r + 1) * (r + 1),
                    n >= (r + 1) * (r + 1);
        }
    }
}

/// A square is bounded by the square of a bound on the magnitude.
proof fn lemma_square_bound(d: int, b: int)
    requires
        -b <= d <= b,
    ensures
        0 <= d * d <= b * b,
{
    assert(0 <= d * d <= b * b) by (nonlinear_arith)
        requires -b <= d <= b;
}

/// The integer square root is unique.
proof fn lemma_isqrt_unique(n: int, r: int)
    requires
        is_isqrt(n, r),
    ensures
        forall|s: int| is_isqrt(n, s) ==> s == r,
{
    assert forall|s: int| is_isqrt(n, s) implies s == r by {
        if s < r {
            assert((s + 1) * (s + 1) <= r * r) by (nonlinear_arith)
                requires 0 <= s, s + 1 <= r;
        } else if s > r {
            assert((r + 1) * (r + 1) <= s * s) by (nonlinear_arith)
                requires 0 <= r, r + 1 <= s;
        }
    }
}

/// Closeness does not depend on the order of the two points.
pub proof fn lemma_close_symmetric(ax: int, ay: int, bx: int, by: int)
    ensures
        close(ax, ay, bx, by) == close(bx, by, ax, ay),
{
    assert((ax - bx) * (ax - bx) == (bx - ax) * (bx - ax)) by (nonlinear_arith);
    assert((ay - by) * (ay - by) == (by - ay) * (by - ay)) by (nonlinear_arith);
}

/// Whether two points are closer than the collision distance.
pub fn is_close(ax: i64, ay: i64, bx: i64, by: i64) -> (r: bool)
    requires
        in_coord_range(ax as int),
        in_coord_range(ay as int),
        in_coord_range(bx as int),
        in_coord_range(by as int),
    ensures
        r == close(ax as int, ay as int, bx as int, by as int),
{
    let dx: i128 = (ax as i128) - (bx as i128);
    let dy: i128 = (ay as i128) - (by as i128);
    proof {
        lemma_square_bound(dx as int, 2 * COORD_LIMIT);
        lemma_square_bound(dy as int, 2 * COORD_LIMIT);
    }
    let limit: i128 = 1_600_000_000;
    assert(limit == COLLISION_DISTANCE * COLLISION_DISTANCE);
    dx * dx + dy * dy < limit
}

} // verus!
