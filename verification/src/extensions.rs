//! Small fluent helpers.

use vstd::prelude::*;

verus! {

/// Discards a value produced in a fluent chain, changing nothing.
pub trait Nop: Sized {
    fn nop(&mut self)
        ensures
            *final(self) == *old(self),
    ;
}

impl<T> Nop for T {
    fn nop(&mut self)
        ensures
            *final(self) == *old(self),
    {
    }
}

} // verus!
