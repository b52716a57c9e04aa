use crate::sequence::IdSequence;
use vstd::prelude::*;

verus! {

/// The first entity identity of a fresh sequence.
pub const FIRST_ENTITY_ID: u32 = 1;

/// Handle of one simulated entity.
#[derive(Clone, Copy, Debug, PartialEq, Eq, Structural, Hash)]
pub struct EntityId(pub u32);

impl EntityId {
    /// Takes the next entity identity from `sequence`; `None` once the
    /// sequence is exhausted.
    pub fn new(sequence: &mut IdSequence) -> (r: Option<EntityId>)
        ensures
            match r {
                Some(id) => id.0 == old(sequence).upcoming() && final(sequence).upcoming() == old(sequence).upcoming() + 1,
                None => old(sequence).exhausted() && final(sequence).upcoming() == old(sequence).upcoming(),
            },
        no_unwind
    {
        match sequence.advance() {
            Some(v) => Some(EntityId(v)),
            None => None,
        }
    }
}

} // verus!
