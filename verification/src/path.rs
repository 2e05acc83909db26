//! Path extractor.

use std::ops::Deref;
use vstd::prelude::*;

verus! {

/// A value that was read from the segments of the request's path and passed
/// validation.
///
/// The wrapper compares as the value it holds. It has no `Debug` of its own:
/// a derived one would print the wrapper's name around the value, where the
/// value alone is meant.
#[derive(PartialEq, Eq, PartialOrd, Ord)]
pub struct Path<T> {
    inner: T,
}

impl<T> Path<T> {
    /// The model of a path value: what it holds.
    pub closed spec fn view(&self) -> T {
        self.inner
    }

    /// Wraps a value that was extracted and validated.
    pub fn new(inner: T) -> (path: Path<T>)
        ensures
            path@ == inner,
    {
        Path { inner }
    }

    /// Deconstruct to an inner value
    pub fn into_inner(self) -> (inner: T)
        ensures
            inner == self@,
    {
        self.inner
    }
}

impl<T> AsRef<T> for Path<T> {
    fn as_ref(&self) -> (inner: &T)
        ensures
            *inner == self@,
    {
        &self.inner
    }
}

impl<T> Deref for Path<T> {
    type Target = T;

    fn deref(&self) -> (inner: &T)
        ensures
            *inner == self@,
    {
        &self.inner
    }
}

} // verus!
