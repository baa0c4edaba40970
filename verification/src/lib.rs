//! The SSZ records that a beacon node keeps in its store for the schema
//! version 23 migration, with their encodings proved against a byte-level
//! model of the format.

use vstd::prelude::*;

pub mod codec;
pub mod head_tracker;
pub mod persisted;
pub mod migration;

verus! {

/// A 32-byte root (block root, state root, genesis root).
pub type Hash256 = [u8; 32];

/// A slot number.
pub type Slot = u64;

} // verus!
