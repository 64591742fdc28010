//! Planar vectors with fixed-point components.

use vstd::prelude::*;
use crate::math::{
    div_away, div_round_away, is_sqrt_floor, isqrt, lemma_div_away_bounds,
    lemma_sqrt_floor_exists, saturate, saturated, sqrt_floor, SCALE,
};

verus! {

/// A point or a displacement in the plane.
#[derive(Clone, Copy, Debug, PartialEq, Eq, Structural)]
pub struct Vector {
    pub x: i32,
    pub y: i32,
}

/// A magnitude that no difference of two coordinates reaches, nor the
/// difference of two such differences.
pub open spec fn span_max() -> int {
    8589934592
}

/// Squared length of the displacement `(dx, dy)`.
pub open spec fn norm_squared(dx: int, dy: int) -> int {
    dx * dx + dy * dy
}

/// Length of the displacement `(dx, dy)`, rounded down.
pub open spec fn norm_floor(dx: int, dy: int) -> int {
    sqrt_floor(norm_squared(dx, dy))
}

/// The displacement `(dx, dy)` brought to length `SCALE`, each component
/// rounded away from zero; the zero displacement has no direction and stays
/// zero.
pub open spec fn unit_of(dx: int, dy: int) -> (int, int) {
    if dx == 0 && dy == 0 {
        (0, 0)
    } else {
        (
            div_away(dx * SCALE as int, norm_floor(dx, dy)),
            div_away(dy * SCALE as int, norm_floor(dx, dy)),
        )
    }
}

/// `v * factor / SCALE`, rounded away from zero: the fixed-point product.
pub open spec fn scaled(v: int, factor: int) -> int {
    div_away(v * factor, SCALE as int)
}

/// Squares a coordinate difference.
pub(crate) fn square(d: i64) -> (r: u128)
    requires
        -span_max() <= d <= span_max(),
    ensures
        r as int == d * d,
        r as int <= span_max() * span_max(),
{
    assert(0 <= d * d <= 8589934592 * 8589934592) by (nonlinear_arith)
        requires
            -8589934592 <= d <= 8589934592,
    ;
    let wide: i128 = d as i128;
    (wide * wide) as u128
}

/// Squared length of a displacement between two points.
pub(crate) fn length_squared(dx: i64, dy: i64) -> (r: u128)
    requires
        -span_max() <= dx <= span_max(),
        -span_max() <= dy <= span_max(),
    ensures
        r as int == norm_squared(dx as int, dy as int),
        r as int <= 2 * (span_max() * span_max()),
{
    square(dx) + square(dy)
}

/// A component of a displacement never exceeds the displacement's length,
/// so a nonzero displacement has a rounded-down length of at least one.
pub proof fn lemma_norm_floor_dominates(dx: int, dy: int)
    requires
        is_sqrt_floor(norm_squared(dx, dy), norm_floor(dx, dy)),
    ensures
        -norm_floor(dx, dy) <= dx <= norm_floor(dx, dy),
        -norm_floor(dx, dy) <= dy <= norm_floor(dx, dy),
        (dx != 0 || dy != 0) ==> norm_floor(dx, dy) >= 1,
{
    let s = norm_floor(dx, dy);
    let n = norm_squared(dx, dy);
    assert(dx * dx >= 0 && dy * dy >= 0) by (nonlinear_arith);
    if dx > s {
        assert(dx * dx >= (s + 1) * (s + 1)) by (nonlinear_arith)
            requires
                dx >= s + 1,
                s >= 0,
        ;
    }
    if dx < -s {
        assert(dx * dx >= (s + 1) * (s + 1)) by (nonlinear_arith)
            requires
                -dx >= s + 1,
                s >= 0,
        ;
    }
    if dy > s {
        assert(dy * dy >= (s + 1) * (s + 1)) by (nonlinear_arith)
            requires
                dy >= s + 1,
                s >= 0,
        ;
    }
    if dy < -s {
        assert(dy * dy >= (s + 1) * (s + 1)) by (nonlinear_arith)
            requires
                -dy >= s + 1,
                s >= 0,
        ;
    }
}

/// A component `d` of a displacement of rounded-down length `len`, brought
/// to scale, stays within `[-SCALE, SCALE]` and keeps its sign.
pub proof fn lemma_unit_component_bounds(d: int, len: int)
    requires
        len >= 1,
        -len <= d <= len,
    ensures
        -(SCALE as int) <= div_away(d * SCALE as int, len) <= SCALE as int,
        d > 0 ==> div_away(d * SCALE as int, len) > 0,
        d < 0 ==> div_away(d * SCALE as int, len) < 0,
        d == 0 ==> div_away(d * SCALE as int, len) == 0,
{
    let n = d * SCALE as int;
    let q = div_away(n, len);
    lemma_div_away_bounds(n, len);
    if d > 0 {
        assert(n > 0 && n <= 1000 * len) by (nonlinear_arith)
            requires
                n == d * 1000,
                0 < d <= len,
        ;
        assert(q <= 1000) by (nonlinear_arith)
            requires
                (q - 1) * len < n,
                n <= 1000 * len,
                len >= 1,
        ;
    } else if d < 0 {
        assert(n < 0 && n >= -1000 * len) by (nonlinear_arith)
            requires
                n == d * 1000,
                -len <= d < 0,
        ;
        assert(q >= -1000) by (nonlinear_arith)
            requires
                (q + 1) * len > n,
                n >= -1000 * len,
                len >= 1,
        ;
    }
}

/// Each component of a direction lies in `[-SCALE, SCALE]` and has the sign
/// of the displacement's component.
pub proof fn lemma_unit_bounds(dx: int, dy: int)
    ensures
        -(SCALE as int) <= unit_of(dx, dy).0 <= SCALE as int,
        -(SCALE as int) <= unit_of(dx, dy).1 <= SCALE as int,
        dx > 0 <==> unit_of(dx, dy).0 > 0,
        dx < 0 <==> unit_of(dx, dy).0 < 0,
        dy > 0 <==> unit_of(dx, dy).1 > 0,
        dy < 0 <==> unit_of(dx, dy).1 < 0,
{
    if dx != 0 || dy != 0 {
        assert(norm_squared(dx, dy) >= 0) by (nonlinear_arith)
            requires
                norm_squared(dx, dy) == dx * dx + dy * dy,
        ;
        lemma_sqrt_floor_exists(norm_squared(dx, dy));
        lemma_norm_floor_dominates(dx, dy);
        lemma_unit_component_bounds(dx, norm_floor(dx, dy));
        lemma_unit_component_bounds(dy, norm_floor(dx, dy));
    }
}

/// The direction of the displacement `(dx, dy)` as a vector of length
/// `SCALE`.
pub(crate) fn unit(dx: i64, dy: i64) -> (r: Vector)
    requires
        -span_max() <= dx <= span_max(),
        -span_max() <= dy <= span_max(),
    ensures
        r.x as int == unit_of(dx as int, dy as int).0,
        r.y as int == unit_of(dx as int, dy as int).1,
        -SCALE <= r.x <= SCALE,
        -SCALE <= r.y <= SCALE,
{
    if dx == 0 && dy == 0 {
        return Vector { x: 0, y: 0 };
    }
    let len: u64 = isqrt(length_squared(dx, dy));
    proof {
        assert(len as int == norm_floor(dx as int, dy as int));
        assert(dx * dx <= 8589934592 * 8589934592 && dy * dy <= 8589934592 * 8589934592)
            by (nonlinear_arith)
            requires
                -8589934592 <= dx <= 8589934592,
                -8589934592 <= dy <= 8589934592,
        ;
        assert(len < 17179869184) by (nonlinear_arith)
            requires
                len * len <= 2 * (8589934592 * 8589934592),
                len >= 0,
        ;
        lemma_norm_floor_dominates(dx as int, dy as int);
        lemma_unit_component_bounds(dx as int, len as int);
        lemma_unit_component_bounds(dy as int, len as int);
    }
    let x: i128 = div_round_away(dx as i128 * 1000, len as i128);
    let y: i128 = div_round_away(dy as i128 * 1000, len as i128);
    Vector { x: x as i32, y: y as i32 }
}

impl Vector {
    /// The vector with the given components.
    pub fn new(x: i32, y: i32) -> (v: Vector)
        ensures
            v.x == x,
            v.y == y,
    {
        Vector { x, y }
    }

    /// The origin, and the displacement that moves nothing.
    pub fn zero() -> (v: Vector)
        ensures
            v.x == 0,
            v.y == 0,
    {
        Vector { x: 0, y: 0 }
    }

    /// Squared distance between two points.
    pub open spec fn distance_squared_to(self, other: Vector) -> int {
        norm_squared(other.x - self.x, other.y - self.y)
    }

    /// Squared distance between two points.
    pub fn distance_squared(&self, other: &Vector) -> (r: u128)
        ensures
            r as int == self.distance_squared_to(*other),
            r as int <= 2 * (span_max() * span_max()),
    {
        length_squared(other.x as i64 - self.x as i64, other.y as i64 - self.y as i64)
    }

    /// The direction from this point towards `other`, of length `SCALE`; zero
    /// when the two points coincide.
    pub fn direction_to(&self, other: &Vector) -> (r: Vector)
        ensures
            r.x as int == unit_of(other.x - self.x, other.y - self.y).0,
            r.y as int == unit_of(other.x - self.x, other.y - self.y).1,
            -SCALE <= r.x <= SCALE,
            -SCALE <= r.y <= SCALE,
    {
        unit(other.x as i64 - self.x as i64, other.y as i64 - self.y as i64)
    }

    /// This displacement brought to length `SCALE`; zero stays zero.
    pub fn normalize(&self) -> (r: Vector)
        ensures
            r.x as int == unit_of(self.x as int, self.y as int).0,
            r.y as int == unit_of(self.x as int, self.y as int).1,
            -SCALE <= r.x <= SCALE,
            -SCALE <= r.y <= SCALE,
    {
        unit(self.x as i64, self.y as i64)
    }

    /// This point moved by `(dx, dy)`, each coordinate held within the range
    /// of a coordinate.
    pub open spec fn moved_by(self, dx: int, dy: int) -> Vector {
        Vector { x: saturated(self.x + dx) as i32, y: saturated(self.y + dy) as i32 }
    }

    /// Moves this point by `(dx, dy)`, saturating at the ends of the
    /// coordinate range.
    pub fn translate(&self, dx: i32, dy: i32) -> (r: Vector)
        ensures
            r == self.moved_by(dx as int, dy as int),
    {
        Vector {
            x: saturate(self.x as i128 + dx as i128),
            y: saturate(self.y as i128 + dy as i128),
        }
    }
}

} // verus!
