use vstd::prelude::*;

verus! {

/// Helpers for the lists of the simulation.
pub struct Util();

impl Util {
    /// Mutable access to two different places of one slice at a time: the
    /// first reference is to place `i`, the second to place `j`. What is
    /// written through them is what the slice holds at those places
    /// afterwards; every other place keeps its value.
    pub fn two_mut<T>(slice: &mut [T], i: usize, j: usize) -> (r: (&mut T, &mut T))
        requires
            i != j,
            i < old(slice)@.len(),
            j < old(slice)@.len(),
        ensures
            *r.0 == old(slice)@[i as int],
            *r.1 == old(slice)@[j as int],
            final(slice)@ == old(slice)@.update(i as int, *final(r.0)).update(
                j as int,
                *final(r.1),
            ),
    {
        if i < j {
            let (left, right) = slice.split_at_mut(j);
            (&mut left[i], &mut right[0])
        } else {
            let (left, right) = slice.split_at_mut(i);
            (&mut right[0], &mut left[j])
        }
    }
}

} // verus!
