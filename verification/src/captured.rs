//! A wrapper for values that ride along with a capability without taking part
//! in its identity.
use vstd::prelude::*;
use vstd::std_specs::cmp::PartialEqSpec;

verus! {

/// Carries a value (typically a client handle) inside a capability. Any two
/// `Captured` values compare equal and hash alike, whatever they hold, so a
/// capability that captures a different handle is still the same capability
/// and finds the same cache entry.
pub struct Captured<T: Clone>(pub T);

impl<T: Clone> Clone for Captured<T> {
    /// Captures a clone of the value.
    fn clone(&self) -> (copy: Self)
        ensures
            cloned(self.0, copy.0),
    {
        Captured(self.0.clone())
    }
}

impl<T: Clone> std::hash::Hash for Captured<T> {
    /// Feeds nothing to the hasher: all captured values hash alike.
    fn hash<H: std::hash::Hasher>(&self, _state: &mut H) {
    }
}

impl<T: Clone> PartialEq for Captured<T> {
    fn eq(&self, _other: &Self) -> (same: bool) {
        true
    }
}

impl<T: Clone> vstd::std_specs::cmp::PartialEqSpecImpl for Captured<T> {
    open spec fn obeys_eq_spec() -> bool {
        true
    }

    open spec fn eq_spec(&self, _other: &Self) -> bool {
        true
    }
}

impl<T: Clone> Eq for Captured<T> {

}

impl<T: Clone> std::ops::Deref for Captured<T> {
    type Target = T;

    fn deref(&self) -> (inner: &T)
        ensures
            *inner == self.0,
    {
        &self.0
    }
}

/// Captured values never tell two capabilities apart: `==` holds between any
/// two of them, and the comparison Verus sees is the one that runs.
pub proof fn lemma_captured_never_distinguishes<T: Clone>(a: Captured<T>, b: Captured<T>)
    ensures
        Captured::<T>::obeys_eq_spec(),
        a.eq_spec(&b),
{
}

} // verus!
