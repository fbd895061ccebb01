//! Entity ids as plain values.
//!
//! The document keeps its entities in slotmaps; an id here is the slotmap key's
//! 64-bit FFI form, which is all the editor logic ever compares or hashes.

use vstd::prelude::*;

verus! {

/// A bone's key.
#[derive(Clone, Copy, Debug, PartialEq, Eq, Hash, Structural)]
pub struct BoneId(pub u64);

/// A slot's key.
#[derive(Clone, Copy, Debug, PartialEq, Eq, Hash, Structural)]
pub struct SlotId(pub u64);

/// A skin's key.
#[derive(Clone, Copy, Debug, PartialEq, Eq, Hash, Structural)]
pub struct SkinId(pub u64);

/// An animation's key.
#[derive(Clone, Copy, Debug, PartialEq, Eq, Hash, Structural)]
pub struct AnimationId(pub u64);

} // verus!
