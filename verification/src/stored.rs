//! What a value must offer to be kept in storage.

use vstd::prelude::*;

verus! {

/// A value that a storage slot can hold: it has a mathematical view, and it
/// can be copied out of the slot without changing that view.
pub trait Stored: View + Sized {
    fn duplicate(&self) -> (copy: Self)
        ensures
            copy@ == self@,
    ;
}

} // verus!
