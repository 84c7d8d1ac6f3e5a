//! Explicit, idempotent release of resources.
use vstd::prelude::*;

verus! {

/// A resource that is released by an explicit call rather than left to a destructor.
pub trait IDisposable: Sized {
    /// Whether the resource has been released.
    spec fn is_released(&self) -> bool;

    /// Whether `self` is what releasing `before` leaves.
    spec fn released_from(&self, before: Self) -> bool;

    /// Releases the resource; a second call is allowed and changes nothing.
    fn dispose(&mut self)
        ensures
            final(self).is_released(),
            final(self).released_from(*old(self)),
            old(self).is_released() ==> *final(self) == *old(self),
    ;
}

} // verus!
