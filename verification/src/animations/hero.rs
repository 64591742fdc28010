//! The animations of the hero.

use vstd::prelude::*;

verus! {

/// One animation for each of the eight directions of travel, and one for
/// standing still.
#[derive(PartialEq, Eq, Copy, Clone, Hash, Debug, Structural)]
pub enum AnimationId {
    Idle,
    GoRight,
    GoLeft,
    GoForward,
    GoBackward,
    GoRightForward,
    GoRightBackward,
    GoLeftBackward,
    GoLeftForward,
}

} // verus!
