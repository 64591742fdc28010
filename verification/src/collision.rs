//! Narrow-phase collision tests between discs and axis-aligned rectangles.
//!
//! A contact between a first and a second shape has a normal, which points
//! from the first towards the second, and a depth: how far the two reach
//! into each other along the normal. The normal has length `SCALE`, up to
//! rounding: each of its components is rounded away from zero, and so is the
//! push that is computed from it. Rounding this way, a push always takes the
//! first shape all the way out of the second. Shapes that only touch are not
//! in contact.

use vstd::prelude::*;
use crate::math::{clamped, div_away, div_round_away, isqrt, saturate, saturated, SCALE};
use crate::shapes::{Ball, Cuboid};
use crate::vector::{length_squared, norm_floor, norm_squared, unit, unit_of, Vector};

verus! {

/// The contact between two shapes that overlap.
#[derive(PartialEq, Eq, Copy, Clone, Debug, Structural)]
pub struct Contact {
    /// Points from the first shape towards the second; of length `SCALE`,
    /// each component rounded away from zero.
    pub normal: Vector,
    /// How far the shapes overlap along the normal.
    pub depth: i64,
}

/// A contact as numbers: the two components of the normal, and the depth.
pub struct ContactModel {
    pub normal_x: int,
    pub normal_y: int,
    pub depth: int,
}

impl View for Contact {
    type V = ContactModel;

    open spec fn view(&self) -> ContactModel {
        ContactModel {
            normal_x: self.normal.x as int,
            normal_y: self.normal.y as int,
            depth: self.depth as int,
        }
    }
}

impl ContactModel {
    /// The same contact seen from the second shape.
    pub open spec fn mirrored(self) -> ContactModel {
        ContactModel { normal_x: -self.normal_x, normal_y: -self.normal_y, depth: self.depth }
    }

    /// The displacement that takes the first shape out of the second:
    /// `-normal * depth`, each component rounded away from zero.
    pub open spec fn push(self) -> (int, int) {
        (
            div_away(-self.normal_x * self.depth, SCALE as int),
            div_away(-self.normal_y * self.depth, SCALE as int),
        )
    }
}

/// The magnitude of `v`.
pub open spec fn magnitude(v: int) -> int {
    if v >= 0 {
        v
    } else {
        -v
    }
}

/// The axis direction that `d` points in, of length `SCALE`; zero counts as
/// positive, so that shapes with the same centre are still told apart.
pub open spec fn axis_towards(d: int) -> int {
    if d >= 0 {
        SCALE as int
    } else {
        -(SCALE as int)
    }
}

/// The contact `found`, if it is one, seen from the second shape.
pub open spec fn mirror(found: Option<ContactModel>) -> Option<ContactModel> {
    match found {
        Some(c) => Some(c.mirrored()),
        None => None,
    }
}

/// Contact of two discs whose radii add up to `reach`, where the centre of
/// the second lies at `(dx, dy)` from the centre of the first: they overlap
/// when the centres are closer than `reach`. The normal points from the
/// first centre to the second, along the x axis where the centres coincide.
pub open spec fn discs(dx: int, dy: int, reach: int) -> Option<ContactModel> {
    if reach > 0 && norm_squared(dx, dy) < reach * reach {
        let normal = if dx == 0 && dy == 0 {
            (SCALE as int, 0int)
        } else {
            unit_of(dx, dy)
        };
        Some(
            ContactModel {
                normal_x: normal.0,
                normal_y: normal.1,
                depth: reach - norm_floor(dx, dy),
            },
        )
    } else {
        None
    }
}

/// Contact of two rectangles whose half widths add up to `wx` and whose
/// half heights add up to `wy`, where the centre of the second lies at
/// `(dx, dy)` from the centre of the first: they overlap when they overlap
/// on both axes. The normal lies along the axis of the smaller overlap, the
/// x axis where both are equal.
pub open spec fn rectangles(dx: int, dy: int, wx: int, wy: int) -> Option<ContactModel> {
    let overlap_x = wx - magnitude(dx);
    let overlap_y = wy - magnitude(dy);
    if overlap_x > 0 && overlap_y > 0 {
        if overlap_x <= overlap_y {
            Some(ContactModel { normal_x: axis_towards(dx), normal_y: 0, depth: overlap_x })
        } else {
            Some(ContactModel { normal_x: 0, normal_y: axis_towards(dy), depth: overlap_y })
        }
    } else {
        None
    }
}

/// Contact of a disc of radius `r` with a rectangle of half extents
/// `(hx, hy)`, where the centre of the disc lies at `(px, py)` from the
/// centre of the rectangle.
///
/// Where the centre of the disc lies outside the rectangle, they overlap
/// when the point of the rectangle nearest to the centre is closer than the
/// radius; the normal points from the centre to that point. Where the centre
/// lies in the rectangle, the normal points away from the nearest side (the
/// vertical one where both are equally near), and the depth is the radius
/// and the distance to that side together.
pub open spec fn disc_on_rectangle(px: int, py: int, r: int, hx: int, hy: int) -> Option<
    ContactModel,
> {
    let ex = px - clamped(px, -hx, hx);
    let ey = py - clamped(py, -hy, hy);
    if ex == 0 && ey == 0 {
        let side_x = hx - magnitude(px);
        let side_y = hy - magnitude(py);
        if side_x <= side_y {
            if r + side_x > 0 {
                Some(
                    ContactModel { normal_x: -axis_towards(px), normal_y: 0, depth: r + side_x },
                )
            } else {
                None
            }
        } else {
            if r + side_y > 0 {
                Some(
                    ContactModel { normal_x: 0, normal_y: -axis_towards(py), depth: r + side_y },
                )
            } else {
                None
            }
        }
    } else if r > 0 && norm_squared(ex, ey) < r * r {
        Some(
            ContactModel {
                normal_x: -unit_of(ex, ey).0,
                normal_y: -unit_of(ex, ey).1,
                depth: r - norm_floor(ex, ey),
            },
        )
    } else {
        None
    }
}

/// Contact of a disc at `a` with a disc at `b`.
pub open spec fn circle_circle(a: Vector, ball_a: Ball, b: Vector, ball_b: Ball) -> Option<
    ContactModel,
> {
    discs(b.x - a.x, b.y - a.y, ball_a.radius + ball_b.radius)
}

/// Contact of a rectangle at `a` with a rectangle at `b`.
pub open spec fn box_box(a: Vector, box_a: Cuboid, b: Vector, box_b: Cuboid) -> Option<
    ContactModel,
> {
    rectangles(
        b.x - a.x,
        b.y - a.y,
        box_a.half_extents.x + box_b.half_extents.x,
        box_a.half_extents.y + box_b.half_extents.y,
    )
}

/// Contact of a disc at `a` with a rectangle at `b`.
pub open spec fn circle_box(a: Vector, ball: Ball, b: Vector, cuboid: Cuboid) -> Option<
    ContactModel,
> {
    disc_on_rectangle(
        a.x - b.x,
        a.y - b.y,
        ball.radius as int,
        cuboid.half_extents.x as int,
        cuboid.half_extents.y as int,
    )
}

/// Contact of a rectangle at `a` with a disc at `b`: that of the disc with
/// the rectangle, seen from the rectangle.
pub open spec fn box_circle(a: Vector, cuboid: Cuboid, b: Vector, ball: Ball) -> Option<
    ContactModel,
> {
    mirror(circle_box(b, ball, a, cuboid))
}

/// Whether `found` is what `model` says: the same contact, or none on both
/// sides.
pub open spec fn agrees(found: Option<Contact>, model: Option<ContactModel>) -> bool {
    match found {
        Some(c) => model == Some(c@),
        None => model.is_none(),
    }
}

impl Contact {
    /// The same contact seen from the second shape: the normal turned round.
    pub fn mirrored(&self) -> (other: Contact)
        requires
            self.normal.x > i32::MIN,
            self.normal.y > i32::MIN,
        ensures
            other@ == self@.mirrored(),
    {
        Contact { normal: Vector { x: -self.normal.x, y: -self.normal.y }, depth: self.depth }
    }

    /// The displacement that takes the first shape out of the second,
    /// `-normal * depth`, held within the range of a coordinate.
    pub fn displacement(&self) -> (push: Vector)
        ensures
            push.x as int == saturated(self@.push().0),
            push.y as int == saturated(self@.push().1),
    {
        assert(-2147483648 * 9223372036854775808 <= self.normal.x * self.depth <= 2147483648
            * 9223372036854775808) by (nonlinear_arith)
            requires
                -2147483648 <= self.normal.x <= 2147483647,
                -9223372036854775808 <= self.depth <= 9223372036854775807,
        ;
        assert(-2147483648 * 9223372036854775808 <= self.normal.y * self.depth <= 2147483648
            * 9223372036854775808) by (nonlinear_arith)
            requires
                -2147483648 <= self.normal.y <= 2147483647,
                -9223372036854775808 <= self.depth <= 9223372036854775807,
        ;
        assert(-self.normal.x * self.depth == -(self.normal.x * self.depth)) by (nonlinear_arith);
        assert(-self.normal.y * self.depth == -(self.normal.y * self.depth)) by (nonlinear_arith);
        let x: i128 = div_round_away(-(self.normal.x as i128 * self.depth as i128), 1000);
        let y: i128 = div_round_away(-(self.normal.y as i128 * self.depth as i128), 1000);
        Vector { x: saturate(x), y: saturate(y) }
    }
}

/// The axis direction that `d` points in, zero counting as positive.
fn axis(d: i64) -> (r: i32)
    ensures
        r as int == axis_towards(d as int),
{
    if d >= 0 {
        1000
    } else {
        -1000
    }
}

/// The magnitude of a coordinate difference.
fn abs(d: i64) -> (r: i64)
    requires
        d > i64::MIN,
    ensures
        r as int == magnitude(d as int),
{
    if d >= 0 {
        d
    } else {
        -d
    }
}

/// Tests a disc at `a` against a disc at `b`.
pub fn contact_circle_circle(a: &Vector, ball_a: &Ball, b: &Vector, ball_b: &Ball) -> (found:
    Option<Contact>)
    ensures
        agrees(found, circle_circle(*a, *ball_a, *b, *ball_b)),
{
    let dx: i64 = b.x as i64 - a.x as i64;
    let dy: i64 = b.y as i64 - a.y as i64;
    let reach: i64 = ball_a.radius as i64 + ball_b.radius as i64;
    if reach <= 0 {
        return None;
    }
    assert(0 < reach * reach <= 4294967296 * 4294967296) by (nonlinear_arith)
        requires
            0 < reach <= 4294967296,
    ;
    let apart: u128 = length_squared(dx, dy);
    if apart >= (reach as u128) * (reach as u128) {
        return None;
    }
    let distance: u64 = isqrt(apart);
    assert(distance < reach) by (nonlinear_arith)
        requires
            distance * distance <= apart,
            apart < reach * reach,
            reach > 0,
            distance >= 0,
    ;
    let normal = if dx == 0 && dy == 0 {
        Vector { x: 1000, y: 0 }
    } else {
        unit(dx, dy)
    };
    Some(Contact { normal, depth: reach - distance as i64 })
}

/// Tests a rectangle at `a` against a rectangle at `b`.
pub fn contact_box_box(a: &Vector, box_a: &Cuboid, b: &Vector, box_b: &Cuboid) -> (found: Option<
    Contact,
>)
    ensures
        agrees(found, box_box(*a, *box_a, *b, *box_b)),
{
    let dx: i64 = b.x as i64 - a.x as i64;
    let dy: i64 = b.y as i64 - a.y as i64;
    let overlap_x: i64 = box_a.half_extents.x as i64 + box_b.half_extents.x as i64 - abs(dx);
    let overlap_y: i64 = box_a.half_extents.y as i64 + box_b.half_extents.y as i64 - abs(dy);
    if overlap_x > 0 && overlap_y > 0 {
        if overlap_x <= overlap_y {
            Some(Contact { normal: Vector { x: axis(dx), y: 0 }, depth: overlap_x })
        } else {
            Some(Contact { normal: Vector { x: 0, y: axis(dy) }, depth: overlap_y })
        }
    } else {
        None
    }
}

/// `v` limited to `[lo, hi]`, on coordinate differences.
fn clamp_wide(v: i64, lo: i64, hi: i64) -> (r: i64)
    ensures
        r as int == clamped(v as int, lo as int, hi as int),
{
    let capped: i64 = if v < hi { v } else { hi };
    if capped > lo { capped } else { lo }
}

/// Tests a disc at `a` against a rectangle at `b`.
pub fn contact_circle_box(a: &Vector, ball: &Ball, b: &Vector, cuboid: &Cuboid) -> (found: Option<
    Contact,
>)
    ensures
        agrees(found, circle_box(*a, *ball, *b, *cuboid)),
{
    let px: i64 = a.x as i64 - b.x as i64;
    let py: i64 = a.y as i64 - b.y as i64;
    let hx: i64 = cuboid.half_extents.x as i64;
    let hy: i64 = cuboid.half_extents.y as i64;
    let ex: i64 = px - clamp_wide(px, -hx, hx);
    let ey: i64 = py - clamp_wide(py, -hy, hy);
    let r: i64 = ball.radius as i64;
    if ex == 0 && ey == 0 {
        let side_x: i64 = hx - abs(px);
        let side_y: i64 = hy - abs(py);
        if side_x <= side_y {
            if r + side_x > 0 {
                Some(Contact { normal: Vector { x: -axis(px), y: 0 }, depth: r + side_x })
            } else {
                None
            }
        } else {
            if r + side_y > 0 {
                Some(Contact { normal: Vector { x: 0, y: -axis(py) }, depth: r + side_y })
            } else {
                None
            }
        }
    } else {
        if r <= 0 {
            return None;
        }
        assert(0 < r * r <= 2147483647 * 2147483647) by (nonlinear_arith)
            requires
                0 < r <= 2147483647,
        ;
        let apart: u128 = length_squared(ex, ey);
        if apart >= (r as u128) * (r as u128) {
            return None;
        }
        let distance: u64 = isqrt(apart);
        assert(distance < r) by (nonlinear_arith)
            requires
                distance * distance <= apart,
                apart < r * r,
                r > 0,
                distance >= 0,
        ;
        let away = unit(ex, ey);
        Some(Contact { normal: Vector { x: -away.x, y: -away.y }, depth: r - distance as i64 })
    }
}

/// Tests a rectangle at `a` against a disc at `b`, by testing the disc
/// against the rectangle and turning the normal round.
pub fn contact_box_circle(a: &Vector, cuboid: &Cuboid, b: &Vector, ball: &Ball) -> (found: Option<
    Contact,
>)
    ensures
        agrees(found, box_circle(*a, *cuboid, *b, *ball)),
{
    match contact_circle_box(b, ball, a, cuboid) {
        Some(contact) => {
            proof {
                lemma_circle_box_normal(*b, *ball, *a, *cuboid);
            }
            Some(contact.mirrored())
        },
        None => None,
    }
}

/// The normal of a contact between a disc and a rectangle is no longer than
/// `SCALE` on either axis.
pub proof fn lemma_circle_box_normal(a: Vector, ball: Ball, b: Vector, cuboid: Cuboid)
    ensures
        match circle_box(a, ball, b, cuboid) {
            Some(c) => -SCALE <= c.normal_x <= SCALE && -SCALE <= c.normal_y <= SCALE,
            None => true,
        },
{
    let px = a.x - b.x;
    let py = a.y - b.y;
    let hx = cuboid.half_extents.x as int;
    let hy = cuboid.half_extents.y as int;
    let ex = px - clamped(px, -hx, hx);
    let ey = py - clamped(py, -hy, hy);
    if !(ex == 0 && ey == 0) {
        crate::vector::lemma_unit_bounds(ex, ey);
    }
}

/// Dividing a multiple of `d` by `d` needs no rounding.
pub proof fn lemma_div_away_exact(k: int, d: int)
    requires
        d > 0,
    ensures
        div_away(k * d, d) == k,
{
    crate::math::lemma_div_away_bounds(k * d, d);
    let q = div_away(k * d, d);
    if k > 0 {
        assert(k * d > 0) by (nonlinear_arith)
            requires
                k > 0,
                d > 0,
        ;
        assert(q == k) by (nonlinear_arith)
            requires
                q * d >= k * d,
                (q - 1) * d < k * d,
                d > 0,
        ;
    } else if k < 0 {
        assert(k * d < 0) by (nonlinear_arith)
            requires
                k < 0,
                d > 0,
        ;
        assert(q == k) by (nonlinear_arith)
            requires
                q * d <= k * d,
                (q + 1) * d > k * d,
                d > 0,
        ;
    } else {
        assert(k * d == 0) by (nonlinear_arith)
            requires
                k == 0,
        ;
    }
}

/// One component of the push out of a corner. Let `e` be a component of the
/// offset from the nearest point to the centre, `s` the rounded-down length
/// of the offset and `r` the radius. The push `p` along this component, got
/// by rounding away from zero twice, points the way `e` does and is long
/// enough: `(e + p) * s` reaches `e * r` in magnitude.
pub proof fn lemma_push_component(e: int, s: int, r: int)
    requires
        s >= 1,
        r > s,
        -s <= e <= s,
    ensures
        ({
            let u = div_away(e * SCALE as int, s);
            let p = div_away(u * (r - s), SCALE as int);
            &&& (e > 0 ==> p > 0)
            &&& (e < 0 ==> p < 0)
            &&& (e == 0 ==> p == 0)
            &&& ((e + p) * s) * ((e + p) * s) >= (e * r) * (e * r)
        }),
{
    let u = div_away(e * SCALE as int, s);
    let p = div_away(u * (r - s), SCALE as int);
    let depth = r - s;
    crate::math::lemma_div_away_bounds(e * SCALE as int, s);
    crate::math::lemma_div_away_bounds(u * depth, SCALE as int);
    if e > 0 {
        assert(e * 1000 > 0) by (nonlinear_arith)
            requires
                e > 0,
        ;
        assert(u * depth > 0) by (nonlinear_arith)
            requires
                u > 0,
                depth > 0,
        ;
        assert(p * s >= e * depth) by (nonlinear_arith)
            requires
                u * s >= e * 1000,
                p * 1000 >= u * depth,
                depth > 0,
                s > 0,
                u > 0,
                p > 0,
        ;
        assert((e + p) * s >= e * r && e * r >= 0) by (nonlinear_arith)
            requires
                p * s >= e * depth,
                depth == r - s,
                e > 0,
                r > 0,
        ;
        assert(((e + p) * s) * ((e + p) * s) >= (e * r) * (e * r)) by (nonlinear_arith)
            requires
                (e + p) * s >= e * r,
                e * r >= 0,
        ;
    } else if e < 0 {
        assert(e * 1000 < 0) by (nonlinear_arith)
            requires
                e < 0,
        ;
        assert(u * depth < 0) by (nonlinear_arith)
            requires
                u < 0,
                depth > 0,
        ;
        assert(p * s <= e * depth) by (nonlinear_arith)
            requires
                u * s <= e * 1000,
                p * 1000 <= u * depth,
                depth > 0,
                s > 0,
                u < 0,
                p < 0,
        ;
        assert((e + p) * s <= e * r && e * r <= 0) by (nonlinear_arith)
            requires
                p * s <= e * depth,
                depth == r - s,
                e < 0,
                r > 0,
        ;
        assert(((e + p) * s) * ((e + p) * s) >= (e * r) * (e * r)) by (nonlinear_arith)
            requires
                (e + p) * s <= e * r,
                e * r <= 0,
        ;
    } else {
        assert(e * 1000 == 0);
        assert(u * depth == 0) by (nonlinear_arith)
            requires
                u == 0,
        ;
        assert(((e + p) * s) * ((e + p) * s) >= (e * r) * (e * r)) by (nonlinear_arith)
            requires
                e == 0,
                p == 0,
        ;
    }
}

/// Turning a contact round turns its push round.
pub proof fn lemma_mirrored_push(contact: ContactModel)
    ensures
        contact.mirrored().push().0 == -contact.push().0,
        contact.mirrored().push().1 == -contact.push().1,
{
    crate::math::lemma_div_away_bounds(-contact.normal_x * contact.depth, SCALE as int);
    crate::math::lemma_div_away_bounds(-contact.normal_y * contact.depth, SCALE as int);
    assert(-(-contact.normal_x) * contact.depth == -(-contact.normal_x * contact.depth))
        by (nonlinear_arith);
    assert(-(-contact.normal_y) * contact.depth == -(-contact.normal_y * contact.depth))
        by (nonlinear_arith);
}

/// Where the pushes along both axes are long enough, the pushed offset is
/// no shorter than `r`.
proof fn lemma_pushed_length(ex: int, ey: int, fx: int, fy: int, s: int, r: int)
    requires
        s >= 1,
        s * s <= norm_squared(ex, ey),
        (fx * s) * (fx * s) >= (ex * r) * (ex * r),
        (fy * s) * (fy * s) >= (ey * r) * (ey * r),
    ensures
        norm_squared(fx, fy) >= r * r,
{
    let n2 = norm_squared(ex, ey);
    let m2 = norm_squared(fx, fy);
    let ss = s * s;
    let rr = r * r;
    assert((fx * s) * (fx * s) == (fx * fx) * ss) by (nonlinear_arith)
        requires
            ss == s * s,
    ;
    assert((fy * s) * (fy * s) == (fy * fy) * ss) by (nonlinear_arith)
        requires
            ss == s * s,
    ;
    assert((ex * r) * (ex * r) == (ex * ex) * rr) by (nonlinear_arith)
        requires
            rr == r * r,
    ;
    assert((ey * r) * (ey * r) == (ey * ey) * rr) by (nonlinear_arith)
        requires
            rr == r * r,
    ;
    assert(m2 * ss == (fx * fx) * ss + (fy * fy) * ss) by (nonlinear_arith)
        requires
            m2 == fx * fx + fy * fy,
    ;
    assert(n2 * rr == (ex * ex) * rr + (ey * ey) * rr) by (nonlinear_arith)
        requires
            n2 == ex * ex + ey * ey,
    ;
    assert(ss >= 1 && rr >= 0) by (nonlinear_arith)
        requires
            ss == s * s,
            rr == r * r,
            s >= 1,
    ;
    assert(n2 * rr >= ss * rr) by (nonlinear_arith)
        requires
            n2 >= ss,
            rr >= 0,
    ;
    assert(m2 >= rr) by (nonlinear_arith)
        requires
            m2 * ss >= ss * rr,
            ss >= 1,
    ;
}

/// A disc pushed away from another by their contact no longer overlaps it.
/// The push moves the first disc, so the offset to the second shrinks by
/// the push.
pub proof fn lemma_discs_part(dx: int, dy: int, reach: int)
    requires
        discs(dx, dy, reach).is_some(),
    ensures
        discs(
            dx - discs(dx, dy, reach).unwrap().push().0,
            dy - discs(dx, dy, reach).unwrap().push().1,
            reach,
        ).is_none(),
{
    let contact = discs(dx, dy, reach).unwrap();
    let push = contact.push();
    let fx = dx - push.0;
    let fy = dy - push.1;
    let n2 = norm_squared(dx, dy);
    assert(n2 >= 0) by (nonlinear_arith)
        requires
            n2 == dx * dx + dy * dy,
    ;
    crate::math::lemma_sqrt_floor_exists(n2);
    let s = norm_floor(dx, dy);
    if dx == 0 && dy == 0 {
        assert(n2 == 0);
        assert(s == 0) by (nonlinear_arith)
            requires
                s >= 0,
                s * s <= 0,
        ;
        assert(-1000 * reach == (-reach) * 1000) by (nonlinear_arith);
        lemma_div_away_exact(-reach, 1000);
        assert(-0int * reach == 0) by (nonlinear_arith);
        assert(norm_squared(fx, fy) == reach * reach) by (nonlinear_arith)
            requires
                fx == reach,
                fy == 0,
                norm_squared(fx, fy) == fx * fx + fy * fy,
        ;
    } else {
        crate::vector::lemma_norm_floor_dominates(dx, dy);
        assert(s < reach) by (nonlinear_arith)
            requires
                s * s <= n2,
                n2 < reach * reach,
                reach > 0,
                s >= 0,
        ;
        lemma_push_component(dx, s, reach);
        lemma_push_component(dy, s, reach);
        let ux = unit_of(dx, dy).0;
        let uy = unit_of(dx, dy).1;
        crate::math::lemma_div_away_bounds(ux * (reach - s), 1000);
        crate::math::lemma_div_away_bounds(uy * (reach - s), 1000);
        assert(-ux * (reach - s) == -(ux * (reach - s))) by (nonlinear_arith);
        assert(-uy * (reach - s) == -(uy * (reach - s))) by (nonlinear_arith);
        lemma_pushed_length(dx, dy, fx, fy, s, reach);
    }
}

/// A rectangle pushed away from another by their contact no longer overlaps
/// it. The push moves the first rectangle, so the offset to the second
/// shrinks by the push.
pub proof fn lemma_rectangles_part(dx: int, dy: int, wx: int, wy: int)
    requires
        rectangles(dx, dy, wx, wy).is_some(),
    ensures
        rectangles(
            dx - rectangles(dx, dy, wx, wy).unwrap().push().0,
            dy - rectangles(dx, dy, wx, wy).unwrap().push().1,
            wx,
            wy,
        ).is_none(),
{
    let overlap_x = wx - magnitude(dx);
    let overlap_y = wy - magnitude(dy);
    if overlap_x <= overlap_y {
        assert(-axis_towards(dx) * overlap_x == (if dx >= 0 {
            -overlap_x
        } else {
            overlap_x
        }) * 1000) by (nonlinear_arith)
            requires
                axis_towards(dx) == (if dx >= 0 {
                    1000int
                } else {
                    -1000int
                }),
        ;
        lemma_div_away_exact(
            if dx >= 0 {
                -overlap_x
            } else {
                overlap_x
            },
            1000,
        );
    } else {
        assert(-axis_towards(dy) * overlap_y == (if dy >= 0 {
            -overlap_y
        } else {
            overlap_y
        }) * 1000) by (nonlinear_arith)
            requires
                axis_towards(dy) == (if dy >= 0 {
                    1000int
                } else {
                    -1000int
                }),
        ;
        lemma_div_away_exact(
            if dy >= 0 {
                -overlap_y
            } else {
                overlap_y
            },
            1000,
        );
    }
}

/// A disc pushed out of a rectangle by their contact no longer overlaps it.
pub proof fn lemma_disc_leaves_rectangle(px: int, py: int, r: int, hx: int, hy: int)
    requires
        r > 0,
        hx >= 0,
        hy >= 0,
        disc_on_rectangle(px, py, r, hx, hy).is_some(),
    ensures
        disc_on_rectangle(
            px + disc_on_rectangle(px, py, r, hx, hy).unwrap().push().0,
            py + disc_on_rectangle(px, py, r, hx, hy).unwrap().push().1,
            r,
            hx,
            hy,
        ).is_none(),
{
    let contact = disc_on_rectangle(px, py, r, hx, hy).unwrap();
    let push = contact.push();
    let ex = px - clamped(px, -hx, hx);
    let ey = py - clamped(py, -hy, hy);
    let qx = px + push.0;
    let qy = py + push.1;
    let fx = qx - clamped(qx, -hx, hx);
    let fy = qy - clamped(qy, -hy, hy);
    if ex == 0 && ey == 0 {
        let side_x = hx - magnitude(px);
        let side_y = hy - magnitude(py);
        if side_x <= side_y {
            let depth = r + side_x;
            assert(-(-axis_towards(px)) * depth == (if px >= 0 {
                depth
            } else {
                -depth
            }) * 1000) by (nonlinear_arith)
                requires
                    axis_towards(px) == (if px >= 0 {
                        1000int
                    } else {
                        -1000int
                    }),
            ;
            lemma_div_away_exact(
                if px >= 0 {
                    depth
                } else {
                    -depth
                },
                1000,
            );
            assert(-0int * depth == 0) by (nonlinear_arith);
            assert(fy == 0);
            assert(fx == r || fx == -r);
            assert(norm_squared(fx, fy) == r * r) by (nonlinear_arith)
                requires
                    fx == r || fx == -r,
                    fy == 0,
                    norm_squared(fx, fy) == fx * fx + fy * fy,
            ;
        } else {
            let depth = r + side_y;
            assert(-(-axis_towards(py)) * depth == (if py >= 0 {
                depth
            } else {
                -depth
            }) * 1000) by (nonlinear_arith)
                requires
                    axis_towards(py) == (if py >= 0 {
                        1000int
                    } else {
                        -1000int
                    }),
            ;
            lemma_div_away_exact(
                if py >= 0 {
                    depth
                } else {
                    -depth
                },
                1000,
            );
            assert(-0int * depth == 0) by (nonlinear_arith);
            assert(fx == 0);
            assert(fy == r || fy == -r);
            assert(norm_squared(fx, fy) == r * r) by (nonlinear_arith)
                requires
                    fy == r || fy == -r,
                    fx == 0,
                    norm_squared(fx, fy) == fx * fx + fy * fy,
            ;
        }
    } else {
        let n2 = norm_squared(ex, ey);
        let s = norm_floor(ex, ey);
        assert(n2 >= 0) by (nonlinear_arith)
            requires
                n2 == ex * ex + ey * ey,
        ;
        crate::math::lemma_sqrt_floor_exists(n2);
        crate::vector::lemma_norm_floor_dominates(ex, ey);
        assert(s < r) by (nonlinear_arith)
            requires
                s * s <= n2,
                n2 < r * r,
                r > 0,
                s >= 0,
        ;
        lemma_push_component(ex, s, r);
        lemma_push_component(ey, s, r);
        let ux = unit_of(ex, ey).0;
        let uy = unit_of(ex, ey).1;
        assert(-(-ux) * (r - s) == ux * (r - s)) by (nonlinear_arith);
        assert(-(-uy) * (r - s) == uy * (r - s)) by (nonlinear_arith);
        assert(fx == ex + push.0);
        assert(fy == ey + push.1);
        assert(fx != 0 || fy != 0);
        lemma_pushed_length(ex, ey, fx, fy, s, r);
    }
}

} // verus!
