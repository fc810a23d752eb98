//! The clockwise order of points about the origin of the virtual screen.
//!
//! A point is placed by the polar angle of the ray from the origin through it,
//! measured from the positive x axis towards the positive y axis (which points
//! down the screen). Of two points on one ray the one farther from the origin
//! comes first. All coordinates are non-negative, so every angle lies between
//! zero and a quarter turn, and two angles compare as the cross product of
//! their rays does. The order is therefore decided in whole numbers, without
//! rounding: it is total, and no comparison can fail.

use crate::geometry::Point;
use vstd::prelude::*;

verus! {

/// The ray on which a point is seen from the origin, as a non-zero vector
/// `(x, y)`. The origin itself counts as lying on the positive x axis, at angle
/// zero.
pub open spec fn bearing(p: Point) -> (int, int) {
    if p.x() == 0 && p.y() == 0 {
        (1, 0)
    } else {
        (p.x() as int, p.y() as int)
    }
}

/// The polar angle of `p` is smaller than that of `q`.
pub open spec fn angle_lt(p: Point, q: Point) -> bool {
    bearing(p).1 * bearing(q).0 < bearing(q).1 * bearing(p).0
}

/// `p` and `q` lie on one ray from the origin.
pub open spec fn angle_eq(p: Point, q: Point) -> bool {
    bearing(p).1 * bearing(q).0 == bearing(q).1 * bearing(p).0
}

/// The square of the distance of `p` from the origin. Distances compare as
/// their squares do.
pub open spec fn distance_squared(p: Point) -> int {
    p.x() * p.x() + p.y() * p.y()
}

/// `p` comes strictly before `q` in clockwise order: its angle is smaller, or
/// the angles are equal and `p` is farther from the origin.
pub open spec fn clockwise_before(p: Point, q: Point) -> bool {
    angle_lt(p, q) || (angle_eq(p, q) && distance_squared(p) > distance_squared(q))
}

/// `p` does not come after `q` in clockwise order.
pub open spec fn clockwise_le(p: Point, q: Point) -> bool {
    !clockwise_before(q, p)
}

proof fn lemma_product_bound(a: u32, b: u32)
    by (nonlinear_arith)
    ensures
        0 <= a * b <= 0xFFFF_FFFE_0000_0001,
{
}

proof fn lemma_angle_lt_le(ax: int, ay: int, bx: int, by: int, cx: int, cy: int)
    by (nonlinear_arith)
    requires
        0 <= ax && 0 <= ay && 0 <= bx && 0 <= by && 0 <= cx && 0 <= cy,
        ax != 0 || ay != 0,
        bx != 0 || by != 0,
        cx != 0 || cy != 0,
        ay * bx < by * ax,
        by * cx <= cy * bx,
    ensures
        ay * cx < cy * ax,
{
    if cx > 0 {
        assert(ay * bx * cx < by * ax * cx);
        assert(by * cx * ax <= cy * bx * ax);
        assert(bx * (ay * cx) < bx * (cy * ax));
    } else {
        assert(ax > 0 && cy > 0);
    }
}

proof fn lemma_angle_le_lt(ax: int, ay: int, bx: int, by: int, cx: int, cy: int)
    by (nonlinear_arith)
    requires
        0 <= ax && 0 <= ay && 0 <= bx && 0 <= by && 0 <= cx && 0 <= cy,
        ax != 0 || ay != 0,
        bx != 0 || by != 0,
        cx != 0 || cy != 0,
        ay * bx <= by * ax,
        by * cx < cy * bx,
    ensures
        ay * cx < cy * ax,
{
    if ax > 0 {
        assert(cy > 0 && bx > 0);
        assert(ay * bx * cx <= by * ax * cx);
        assert(by * cx * ax < cy * bx * ax);
        assert(bx * (ay * cx) < bx * (cy * ax));
    } else {
        assert(ay > 0);
        assert(bx == 0);
    }
}

proof fn lemma_angle_eq_eq(ax: int, ay: int, bx: int, by: int, cx: int, cy: int)
    by (nonlinear_arith)
    requires
        0 <= ax && 0 <= ay && 0 <= bx && 0 <= by && 0 <= cx && 0 <= cy,
        ax != 0 || ay != 0,
        bx != 0 || by != 0,
        cx != 0 || cy != 0,
        ay * bx == by * ax,
        by * cx == cy * bx,
    ensures
        ay * cx == cy * ax,
{
    if bx > 0 {
        assert(ay * bx * cx == by * ax * cx);
        assert(by * cx * ax == cy * bx * ax);
        assert(bx * (ay * cx) == bx * (cy * ax));
    } else {
        assert(by > 0);
        assert(ax == 0 && cx == 0);
    }
}

/// Of two points exactly one comes strictly before the other, unless they
/// share both angle and distance.
pub proof fn lemma_clockwise_trichotomy(p: Point, q: Point)
    ensures
        !(clockwise_before(p, q) && clockwise_before(q, p)),
        !clockwise_before(p, p),
        clockwise_le(p, q) || clockwise_le(q, p),
        clockwise_le(p, q) && clockwise_le(q, p) <==> angle_eq(p, q) && distance_squared(p)
            == distance_squared(q),
{
}

/// The clockwise order is transitive, in its strict and in its weak form.
pub proof fn lemma_clockwise_transitive(p: Point, q: Point, r: Point)
    ensures
        clockwise_le(p, q) && clockwise_le(q, r) ==> clockwise_le(p, r),
        clockwise_before(p, q) && clockwise_le(q, r) ==> clockwise_before(p, r),
        clockwise_le(p, q) && clockwise_before(q, r) ==> clockwise_before(p, r),
{
    let (ax, ay) = bearing(p);
    let (bx, by) = bearing(q);
    let (cx, cy) = bearing(r);
    if angle_lt(p, q) && !angle_lt(r, q) {
        lemma_angle_lt_le(ax, ay, bx, by, cx, cy);
    }
    if !angle_lt(q, p) && angle_lt(q, r) {
        lemma_angle_le_lt(ax, ay, bx, by, cx, cy);
    }
    if angle_eq(p, q) && angle_eq(q, r) {
        lemma_angle_eq_eq(ax, ay, bx, by, cx, cy);
    }
}

proof fn lemma_same_ray_same_length(ax: int, ay: int, bx: int, by: int)
    by (nonlinear_arith)
    requires
        0 <= ax && 0 <= ay && 0 <= bx && 0 <= by,
        ay * bx == by * ax,
        ax * ax + ay * ay == bx * bx + by * by,
    ensures
        ax == bx && ay == by,
{
    if ax < bx {
        assert(ax * ax < bx * bx);
        assert(ay * ay > by * by);
        assert(ay > by);
        assert(ay * bx > by * ax);
    } else if ax > bx {
        assert(ax * ax > bx * bx);
        assert(ay * ay < by * by);
        assert(ay < by);
        assert(ay * bx < by * ax);
    } else {
        assert(ay * ay == by * by);
    }
}

/// Two points that share angle and distance are one point: the order leaves
/// no two places tied.
pub proof fn lemma_clockwise_antisymmetric(p: Point, q: Point)
    requires
        clockwise_le(p, q),
        clockwise_le(q, p),
    ensures
        p == q,
{
    let px = p.x() as int;
    let py = p.y() as int;
    let qx = q.x() as int;
    let qy = q.y() as int;
    assert(angle_eq(p, q) && distance_squared(p) == distance_squared(q));
    if px == 0 && py == 0 {
        assert(qx == 0 && qy == 0) by (nonlinear_arith)
            requires
                0 <= qx && 0 <= qy,
                qx * qx + qy * qy == 0,
        ;
    } else if qx == 0 && qy == 0 {
        assert(px == 0 && py == 0) by (nonlinear_arith)
            requires
                0 <= px && 0 <= py,
                px * px + py * py == 0,
        ;
    } else {
        lemma_same_ray_same_length(px, py, qx, qy);
    }
    p.lemma_coordinates();
    q.lemma_coordinates();
}

/// Decides whether `p` comes strictly before `q` in clockwise order.
pub fn precedes_clockwise(p: &Point, q: &Point) -> (before: bool)
    ensures
        before == clockwise_before(*p, *q),
{
    let p_is_origin: bool = p.x() == 0 && p.y() == 0;
    let q_is_origin: bool = q.x() == 0 && q.y() == 0;
    let px: u64 = if p_is_origin { 1 } else { p.x() as u64 };
    let py: u64 = if p_is_origin { 0 } else { p.y() as u64 };
    let qx: u64 = if q_is_origin { 1 } else { q.x() as u64 };
    let qy: u64 = if q_is_origin { 0 } else { q.y() as u64 };
    proof {
        lemma_product_bound(p.y(), q.x());
        lemma_product_bound(q.y(), p.x());
        lemma_product_bound(p.x(), p.x());
        lemma_product_bound(p.y(), p.y());
        lemma_product_bound(q.x(), q.x());
        lemma_product_bound(q.y(), q.y());
    }
    let left: u64 = py * qx;
    let right: u64 = qy * px;
    if left < right {
        true
    } else if left > right {
        false
    } else {
        let p_far: u128 = (p.x() as u128) * (p.x() as u128) + (p.y() as u128) * (p.y() as u128);
        let q_far: u128 = (q.x() as u128) * (q.x() as u128) + (q.y() as u128) * (q.y() as u128);
        p_far > q_far
    }
}

} // verus!
