//! Helpers for integrating with I/O types.
//!
//! The central function in this module is the [wrap] function which constructs
//! an adapter around an I/O type.

use vstd::prelude::*;

verus! {

/// Wrapper constructed with [wrap].
pub struct Wrap<T> {
    inner: T,
}

impl<T> Wrap<T> {
    /// What is wrapped.
    pub closed spec fn inner(self) -> T {
        self.inner
    }

    /// Take out what is wrapped.
    #[inline]
    pub fn into_inner(self) -> (inner: T)
        ensures
            inner == self.inner(),
    {
        self.inner
    }
}

/// Wrap a type so that it can be given the traits of a reader or a writer.
#[inline]
pub fn wrap<T>(inner: T) -> (wrapped: Wrap<T>)
    ensures
        wrapped.inner() == inner,
{
    Wrap { inner }
}

} // verus!
