use vstd::prelude::*;

verus! {

/// Mark an entity as being active.
/// Inactive entities must not be processed by 'game logic' systems.
#[derive(PartialEq, Eq, Copy, Clone, Debug, Default, Structural)]
pub struct Active;

/// Mark an entity as being compatible with the `Overworld` state.
#[derive(PartialEq, Eq, Copy, Clone, Debug, Default, Structural)]
pub struct OverworldCompat;

/// Mark an entity as being compatible with the `Instance` state.
#[derive(PartialEq, Eq, Copy, Clone, Debug, Default, Structural)]
pub struct InstanceCompat;

} // verus!
