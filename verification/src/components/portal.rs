use vstd::prelude::*;
use crate::shapes::Cuboid;
use crate::states::Instance;

verus! {

/// A door into an instance: the hero enters by standing in the trigger zone,
/// which is centred on the portal, and using it.
#[derive(PartialEq, Eq, Copy, Clone, Debug)]
pub struct Portal {
    pub instance: Instance,
    pub trigger_zone: Cuboid,
}

} // verus!
