//! Finding a value in a list.

use vstd::prelude::*;
use vstd::std_specs::cmp::PartialEqSpec;

verus! {

/// Get the index of a value within a slice: the first position that holds
/// an equal item, if there is one
pub fn index_of<T: PartialEq>(list: &[T], value: T) -> (found: Option<usize>)
    ensures
        T::obeys_eq_spec() ==> match found {
            Some(i) => {
                &&& i < list@.len()
                &&& list@[i as int].eq_spec(&value)
                &&& forall|j: int| 0 <= j < i ==> !(#[trigger] list@[j]).eq_spec(&value)
            },
            None => forall|j: int| 0 <= j < list@.len() ==> !(#[trigger] list@[j]).eq_spec(&value),
        },
{
    let mut i: usize = 0;
    while i < list.len()
        invariant
            i <= list@.len(),
            T::obeys_eq_spec() ==> forall|j: int| 0 <= j < i ==> !(#[trigger] list@[j]).eq_spec(&value),
        decreases list@.len() - i,
    {
        if list[i] == value {
            return Some(i);
        }
        i += 1;
    }
    None
}

} // verus!
