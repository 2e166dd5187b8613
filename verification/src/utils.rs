//! Helpers on collections.
use vstd::prelude::*;

verus! {

/// Two distinct elements of one vector, both mutable at once: the first
/// of the pair is the element at `i`, the second the element at `j`.
pub fn double_mut_index<T>(vec: &mut Vec<T>, i: usize, j: usize) -> (r: (&mut T, &mut T))
    requires
        i != j,
        i < old(vec).len(),
        j < old(vec).len(),
    ensures
        *r.0 == old(vec)@[i as int],
        *r.1 == old(vec)@[j as int],
        final(vec)@ == old(vec)@.update(i as int, *final(r.0)).update(j as int, *final(r.1)),
{
    if i < j {
        let (low, hi) = vec.as_mut_slice().split_at_mut(j);
        (&mut low[i], &mut hi[0])
    } else {
        let (low, hi) = vec.as_mut_slice().split_at_mut(i);
        (&mut hi[0], &mut low[j])
    }
}

} // verus!
