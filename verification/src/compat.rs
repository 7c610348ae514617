//! Wrapper types which ensures that a given field is encoded or decoded as a
//! certain kind of value.

use crate::de::{Decode, Decoder};
use crate::en::{Encode, Encoder};
use crate::results::kept;
use vstd::prelude::*;

verus! {

/// Ensures that the given value `T` is encoded as a sequence.
///
/// In contrast to the typical values that are encoded as sequences, this can
/// take a sequence by reference.
#[derive(Debug, Clone, Copy, PartialEq, Eq, PartialOrd, Ord, Hash)]
pub struct Sequence<T>(pub T);

impl<T> Sequence<T> {
    /// Construct a new sequence wrapper.
    pub fn new(value: T) -> (wrapper: Self)
        ensures
            wrapper.0 == value,
    {
        Self(value)
    }
}

/// Ensures that the given value `T` is encoded as bytes.
///
/// This is useful for values which have a generic implementation to be encoded
/// as a sequence.
#[derive(Debug, Clone, Copy, PartialEq, Eq, PartialOrd, Ord, Hash)]
pub struct Bytes<T>(pub T);

impl<T> Bytes<T> {
    /// Construct a new bytes wrapper.
    pub fn new(value: T) -> (wrapper: Self)
        ensures
            wrapper.0 == value,
    {
        Self(value)
    }
}

/// The empty sequence is encoded as a unit, which the binary formats write
/// as they write a sequence without elements.
impl<Mode> Encode<Mode> for Sequence<()> {
    #[inline]
    fn encode<E: Encoder>(&self, encoder: E) -> Result<E::Ok, E::Error> {
        encoder.encode_unit()
    }
}

impl<'de, Mode> Decode<'de, Mode> for Sequence<()> {
    #[inline]
    fn decode<D: Decoder<'de>>(decoder: D) -> Result<Self, D::Error> {
        kept(decoder.decode_unit(), Sequence(()))
    }
}

impl<const N: usize> Bytes<[u8; N]> {
    /// The array that was decoded, behind the wrapper, and the error
    /// otherwise.
    #[inline]
    pub fn wrapped<E>(r: Result<[u8; N], E>) -> (out: Result<Self, E>)
        ensures
            out == (match r {
                Ok(array) => Ok::<Self, E>(Bytes(array)),
                Err(e) => Err::<Self, E>(e),
            }),
    {
        match r {
            Ok(array) => Ok(Bytes(array)),
            Err(e) => Err(e),
        }
    }
}

impl<Mode, const N: usize> Encode<Mode> for Bytes<[u8; N]> {
    #[inline]
    fn encode<E: Encoder>(&self, encoder: E) -> Result<E::Ok, E::Error> {
        encoder.encode_array(self.0)
    }
}

impl<'de, Mode, const N: usize> Decode<'de, Mode> for Bytes<[u8; N]> {
    #[inline]
    fn decode<D: Decoder<'de>>(decoder: D) -> Result<Self, D::Error> {
        Self::wrapped(decoder.decode_array::<N>())
    }
}

} // verus!
