//! Json extractor.

use std::ops::Deref;
use vstd::prelude::*;

verus! {

/// Largest JSON payload that is read when nothing else is configured: 32 KiB.
pub const DEFAULT_JSON_LIMIT: usize = 32_768;

/// A value that was read from a JSON body and passed validation.
#[derive(Debug)]
pub struct Json<T>(pub T);

impl<T> Json<T> {
    /// Deconstruct to an inner value
    pub fn into_inner(self) -> (inner: T)
        ensures
            inner == self.0,
    {
        self.0
    }
}

impl<T> AsRef<T> for Json<T> {
    fn as_ref(&self) -> (inner: &T)
        ensures
            *inner == self.0,
    {
        &self.0
    }
}

impl<T> Deref for Json<T> {
    type Target = T;

    fn deref(&self) -> (inner: &T)
        ensures
            *inner == self.0,
    {
        &self.0
    }
}

} // verus!
