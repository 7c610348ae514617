//! From what an implementation of [`Encode`](crate::en::Encode) or
//! [`Decode`](crate::de::Decode) returns to what the library returns.
//!
//! What such an implementation does is decided by the type it is written
//! for. What the library makes of its result is decided here.

use crate::error::Error;
use crate::writer::VecWriterError;
use vstd::prelude::*;

verus! {

/// The given value, where encoding came to its end without an error, and
/// the error otherwise.
#[inline]
pub fn kept<V, E>(r: Result<(), E>, value: V) -> (out: Result<V, E>)
    ensures
        out == (match r {
            Ok(()) => Ok::<V, E>(value),
            Err(e) => Err::<V, E>(e),
        }),
{
    match r {
        Ok(()) => Ok(value),
        Err(e) => Err(e),
    }
}

/// The element that was decoded as one that there is, and the error
/// otherwise.
#[inline]
pub fn found<T, E>(r: Result<T, E>) -> (out: Result<Option<T>, E>)
    ensures
        out == (match r {
            Ok(value) => Ok::<Option<T>, E>(Some(value)),
            Err(e) => Err::<Option<T>, E>(e),
        }),
{
    match r {
        Ok(value) => Ok(Some(value)),
        Err(e) => Err(e),
    }
}

/// What encoding into a buffer came to, as the error of another writer
/// tells it: the error is made from what the error of the buffer was made
/// from.
#[inline]
pub fn converted<E: Error>(r: Result<(), VecWriterError>) -> (out: Result<(), E>)
    ensures
        match r {
            Ok(()) => out is Ok,
            Err(e) => out matches Err(x) && x.cause() == e.cause(),
        },
{
    match r {
        Ok(()) => Ok(()),
        Err(e) => Err(e.into_error()),
    }
}

} // verus!
