//! A never type which implements all the encoder and decoder traits so that it can be
//! used as a placeholder.

use crate::de::{Decode, Decoder, PackDecoder, PairDecoder, PairsDecoder, SequenceDecoder};
use crate::en::{Encode, Encoder, PairEncoder, PairsEncoder, SequenceEncoder};
use crate::error::{Cause, Error, Expecting, Message};
use std::marker::PhantomData;
use vstd::prelude::*;

verus! {

/// Marker type used for the [`Never`] type. No function of the library makes
/// a value of it.
pub struct NeverMarker {
    never: core::convert::Infallible,
}

/// An uninhabitable never type which implements all possible encoders. This
/// can be used if an [Encoder] implementation doesn't implement a particular
/// function. As there is no value of the type, none of its methods is ever
/// called; each of them does what an encoder does that supports nothing.
pub struct Never<A, B = NeverMarker> {
    // Field makes type uninhabitable.
    never: NeverMarker,
    marker: PhantomData<(A, B)>,
}

impl<O, E: Error> Encoder for Never<O, E> {
    type Ok = O;

    type Error = E;

    type Pack = Self;

    type Some = Self;

    type Sequence = Self;

    type Tuple = Self;

    type Map = Self;

    type Struct = Self;

    type TupleStruct = Self;

    type Variant = Self;

    #[inline]
    fn expecting(&self) -> &'static str {
        "nothing"
    }
}

impl<O, E: Error> SequenceEncoder for Never<O, E> {
    type Ok = O;

    type Error = E;

    #[inline]
    fn push<T: Encode<M>, M>(&mut self, value: &T) -> Result<(), Self::Error> {
        Ok(())
    }

    #[inline]
    fn end(self) -> Result<Self::Ok, Self::Error> {
        self.encode_unit()
    }
}

impl<O, E: Error> PairsEncoder for Never<O, E> {
    type Ok = O;

    type Error = E;

    #[inline]
    fn insert<F: Encode<M>, S: Encode<M>, M>(&mut self, first: &F, second: &S) -> Result<(), Self::Error> {
        Ok(())
    }

    #[inline]
    fn end(self) -> Result<Self::Ok, Self::Error> {
        self.encode_unit()
    }
}

impl<O, E: Error> PairEncoder for Never<O, E> {
    type Ok = O;

    type Error = E;

    #[inline]
    fn insert<F: Encode<M>, S: Encode<M>, M>(self, first: &F, second: &S) -> Result<Self::Ok, Self::Error> {
        self.encode_unit()
    }
}

// ---- decoders ----
impl<'de, O, E: Error> Decoder<'de> for Never<O, E> {
    type Error = E;

    type Pack = Self;

    type Sequence = Self;

    type Tuple = Self;

    type Map = Self;

    type Some = Self;

    type Struct = Self;

    type Variant = Self;

    #[inline]
    fn expecting(&self) -> &'static str {
        "nothing"
    }
}

impl<'de, O, E: Error> PackDecoder<'de> for Never<O, E> {
    type Error = E;

    open spec fn unpacked(before: Self, after: Self, fault: Option<Cause>) -> bool {
        fault is Some
    }

    #[inline]
    fn next<T: Decode<'de, M>, M>(&mut self) -> (r: Result<T, Self::Error>) {
        Err(E::message(Message::InvalidType { requested: Expecting::Any }))
    }
}

impl<'de, O, E: Error> SequenceDecoder<'de> for Never<O, E> {
    type Error = E;

    #[inline]
    fn size_hint(&self) -> Option<usize> {
        None
    }

    open spec fn stepped(before: Self, after: Self, absent: bool, fault: Option<Cause>) -> bool {
        absent
    }

    #[inline]
    fn next<T: Decode<'de, M>, M>(&mut self) -> (r: Result<Option<T>, Self::Error>) {
        Ok(None)
    }
}

impl<'de, O, E: Error> PairsDecoder<'de> for Never<O, E> {
    type Error = E;

    #[inline]
    fn size_hint(&self) -> Option<usize> {
        None
    }

    #[inline]
    fn first<F: Decode<'de, M>, M>(&mut self) -> Result<Option<F>, Self::Error> {
        Ok(None)
    }

    #[inline]
    fn second<S: Decode<'de, M>, M>(&mut self) -> Result<S, Self::Error> {
        Err(E::message(Message::InvalidType { requested: Expecting::Any }))
    }

    #[inline]
    fn skip_second(&mut self) -> Result<bool, Self::Error> {
        Ok(false)
    }
}

impl<'de, O, E: Error> PairDecoder<'de> for Never<O, E> {
    type Error = E;

    #[inline]
    fn first<F: Decode<'de, M>, M>(&mut self) -> Result<F, Self::Error> {
        Err(E::message(Message::InvalidType { requested: Expecting::Any }))
    }

    #[inline]
    fn second<S: Decode<'de, M>, M>(self) -> Result<S, Self::Error> {
        Err(E::message(Message::InvalidType { requested: Expecting::Any }))
    }

    #[inline]
    fn skip_second(self) -> Result<bool, Self::Error> {
        Ok(false)
    }
}

} // verus!
