//! Query extractor (serde_qs based).

use std::ops::{Deref, DerefMut};
use vstd::prelude::*;

verus! {

/// A value that was read from a query string with bracketed keys and passed validation.
///
/// The wrapper compares as the value it holds. It has no `Debug` of its own:
/// a derived one would print the wrapper's name around the value, where the
/// value alone is meant.
#[derive(PartialEq, Eq, PartialOrd, Ord)]
pub struct QsQuery<T>(pub T);

impl<T> QsQuery<T> {
    /// Deconstruct to an inner value.
    pub fn into_inner(self) -> (inner: T)
        ensures
            inner == self.0,
    {
        self.0
    }
}

impl<T> AsRef<T> for QsQuery<T> {
    fn as_ref(&self) -> (inner: &T)
        ensures
            *inner == self.0,
    {
        &self.0
    }
}

impl<T> Deref for QsQuery<T> {
    type Target = T;

    fn deref(&self) -> (inner: &T)
        ensures
            *inner == self.0,
    {
        &self.0
    }
}

impl<T> DerefMut for QsQuery<T> {
    fn deref_mut(&mut self) -> (inner: &mut T)
        ensures
            *inner == old(self).0,
            final(self).0 == *final(inner),
    {
        &mut self.0
    }
}

} // verus!
