//! Values that exist once for the whole world.

use vstd::prelude::*;
use crate::math::div_away;
use crate::math::div_round_away;
use crate::math::saturate;
use crate::math::saturated;

verus! {

/// The rectangle that moving entities are kept in.
#[derive(PartialEq, Eq, Copy, Clone, Debug, Structural)]
pub struct WorldBounds {
    pub left: i32,
    pub right: i32,
    pub bottom: i32,
    pub top: i32,
}

impl WorldBounds {
    /// Bounds are valid when they enclose at least one point.
    pub open spec fn valid(self) -> bool {
        self.left <= self.right && self.bottom <= self.top
    }

    /// Half of an extent, rounded away from zero.
    pub open spec fn half(extent: int) -> int {
        div_away(extent, 2)
    }

    /// Create new bounds around origin.
    pub fn new_around_origin(width: i32, height: i32) -> (bounds: WorldBounds)
        ensures
            bounds.right as int == Self::half(width as int),
            bounds.left as int == saturated(-Self::half(width as int)),
            bounds.top as int == Self::half(height as int),
            bounds.bottom as int == saturated(-Self::half(height as int)),
            width >= 0 && height >= 0 ==> bounds.valid(),
    {
        let half_width: i128 = div_round_away(width as i128, 2);
        let half_height: i128 = div_round_away(height as i128, 2);
        WorldBounds {
            left: saturate(-half_width),
            right: saturate(half_width),
            bottom: saturate(-half_height),
            top: saturate(half_height),
        }
    }

    /// The bounds with the given sides.
    pub fn new(left: i32, right: i32, bottom: i32, top: i32) -> (bounds: WorldBounds)
        ensures
            bounds == (WorldBounds { left, right, bottom, top }),
    {
        WorldBounds { left, right, bottom, top }
    }
}

/// What the input devices read at the start of a tick.
#[derive(PartialEq, Eq, Copy, Clone, Debug, Structural)]
pub struct Input {
    /// Horizontal axis: positive is right, negative is left. Only the sign
    /// matters.
    pub right_left: i32,
    /// Vertical axis: positive is forward, negative is backward. Only the
    /// sign matters.
    pub up_down: i32,
    /// Whether the "use" action is held.
    pub interact: bool,
    /// Whether the escape key is held.
    pub escape: bool,
}

impl Input {
    /// The reading of devices that nobody touches.
    pub fn new() -> (input: Input)
        ensures
            input == (Input { right_left: 0, up_down: 0, interact: false, escape: false }),
    {
        Input { right_left: 0, up_down: 0, interact: false, escape: false }
    }
}

} // verus!
