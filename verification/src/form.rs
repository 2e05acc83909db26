//! Form extractor.

use std::ops::Deref;
use vstd::prelude::*;

verus! {

/// Largest form payload that is read when nothing else is configured: 16 KiB.
pub const DEFAULT_FORM_LIMIT: usize = 16_384;

/// A value that was read from a URL-encoded form body and passed validation.
#[derive(Debug)]
pub struct Form<T>(pub T);

impl<T> Form<T> {
    /// Deconstruct to an inner value
    pub fn into_inner(self) -> (inner: T)
        ensures
            inner == self.0,
    {
        self.0
    }
}

impl<T> AsRef<T> for Form<T> {
    fn as_ref(&self) -> (inner: &T)
        ensures
            *inner == self.0,
    {
        &self.0
    }
}

impl<T> Deref for Form<T> {
    type Target = T;

    fn deref(&self) -> (inner: &T)
        ensures
            *inner == self.0,
    {
        &self.0
    }
}

} // verus!
