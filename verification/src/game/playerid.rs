use crate::sequence::IdSequence;
use vstd::prelude::*;

verus! {

/// The first player number of a fresh sequence.
pub const FIRST_PLAYER_ID: u32 = 0;

/// Handle of one player: its number, and the position of its state in the
/// world's list of states.
#[derive(Clone, Copy, Debug, PartialEq, Eq, Structural, Hash)]
pub struct PlayerId(pub u32, pub usize);

impl PlayerId {
    /// Takes the next player number from `sequence` and pairs it with
    /// `index`; `None` once the sequence is exhausted.
    pub fn new(sequence: &mut IdSequence, index: usize) -> (r: Option<PlayerId>)
        ensures
            match r {
                Some(id) => id.0 == old(sequence).upcoming() && id.1 == index && final(sequence).upcoming() == old(sequence).upcoming() + 1,
                None => old(sequence).exhausted() && final(sequence).upcoming() == old(sequence).upcoming(),
            },
        no_unwind
    {
        match sequence.advance() {
            Some(v) => Some(PlayerId(v, index)),
            None => None,
        }
    }
}

} // verus!
