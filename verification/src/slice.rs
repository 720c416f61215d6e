//! The first element of a possibly empty slice.

use vstd::prelude::*;

verus! {

/// The first element of `slice`, or `None` when the slice is empty.
pub fn head<T>(slice: &[T]) -> (first: Option<&T>)
    ensures
        slice@.len() == 0 ==> first is None,
        slice@.len() > 0 ==> first == Some(&slice@[0]),
{
    slice.get(0)
}

} // verus!
