//! Explicitly owned generators of fresh identities.

use vstd::prelude::*;

verus! {

/// One past the largest value a sequence can hand out.
pub const SEQUENCE_END: u64 = 0x1_0000_0000;

/// A strictly increasing sequence of `u32` values.
///
/// The sequence is owned by the component that assigns identities, so two
/// sequences never influence each other. A value is handed out at most once;
/// when `u32::MAX` has been handed out the sequence is exhausted and stays so.
pub struct IdSequence {
    next: u64,
}

impl IdSequence {
    #[verifier::type_invariant]
    spec fn inv(self) -> bool {
        self.next <= SEQUENCE_END
    }

    /// The value that the next successful `advance` returns; `SEQUENCE_END`
    /// once the sequence is exhausted.
    pub closed spec fn upcoming(&self) -> int {
        self.next as int
    }

    /// No value is left to hand out.
    pub open spec fn exhausted(&self) -> bool {
        self.upcoming() >= SEQUENCE_END
    }

    /// A sequence whose first value is `first`.
    pub fn starting_at(first: u32) -> (s: Self)
        ensures
            s.upcoming() == first,
    {
        IdSequence { next: first as u64 }
    }

    /// Hands out the upcoming value and moves past it, or returns `None`
    /// and changes nothing when the sequence is exhausted.
    pub fn advance(&mut self) -> (r: Option<u32>)
        ensures
            0 <= old(self).upcoming() <= SEQUENCE_END,
            match r {
                Some(v) => v == old(self).upcoming() && final(self).upcoming() == old(self).upcoming()
                    + 1,
                None => old(self).exhausted() && final(self).upcoming() == old(self).upcoming(),
            },
        no_unwind
    {
        proof {
            use_type_invariant(&*self);
        }
        if self.next >= SEQUENCE_END {
            None
        } else {
            let v: u32 = self.next as u32;
            self.next = self.next + 1;
            Some(v)
        }
    }

    /// The value that the next successful `advance` returns, if any is left.
    pub fn peek(&self) -> (r: Option<u32>)
        ensures
            0 <= self.upcoming() <= SEQUENCE_END,
            match r {
                Some(v) => v == self.upcoming(),
                None => self.exhausted(),
            },
    {
        proof {
            use_type_invariant(self);
        }
        if self.next >= SEQUENCE_END {
            None
        } else {
            Some(self.next as u32)
        }
    }
}

} // verus!
