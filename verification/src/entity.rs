//! Identities handed out by the host.

use vstd::prelude::*;

verus! {

/// The identity of an entity in the host's world, as the bits the host
/// gives for it. Two entities are the same exactly when their bits are.
#[derive(Clone, Copy, Debug, PartialEq, Eq, Structural)]
pub struct EntityId {
    pub bits: u64,
}

/// The identity of a material in the host's material store: the slot it
/// was stored in, or the fixed 128-bit id it was registered under.
#[derive(Clone, Copy, Debug, PartialEq, Eq, Structural)]
pub enum MaterialId {
    Slot(u64),
    Uuid(u128),
}

} // verus!
