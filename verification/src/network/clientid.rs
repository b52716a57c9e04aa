use crate::sequence::IdSequence;
use vstd::prelude::*;

verus! {

/// The first client identity of a fresh sequence.
pub const FIRST_CLIENT_ID: u32 = 1;

/// The identity of the host's own player. No join assigns it, so the
/// registry never holds it and what is meant for it stays on the host.
pub const HOST_CLIENT_ID: u32 = 0;

/// Stable handle of one client, independent of its network address.
#[derive(Clone, Copy, Debug, PartialEq, Eq, Structural, Hash)]
pub struct ClientId(pub u32);

impl ClientId {
    /// Takes the next client identity from `sequence`; `None` once the
    /// sequence is exhausted.
    pub fn new(sequence: &mut IdSequence) -> (r: Option<ClientId>)
        ensures
            match r {
                Some(id) => id.0 == old(sequence).upcoming() && final(sequence).upcoming() == old(sequence).upcoming() + 1,
                None => old(sequence).exhausted() && final(sequence).upcoming() == old(sequence).upcoming(),
            },
        no_unwind
    {
        match sequence.advance() {
            Some(v) => Some(ClientId(v)),
            None => None,
        }
    }
}

} // verus!
