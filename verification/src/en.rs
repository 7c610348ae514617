//! The protocol of encoders: one method for each kind of value.
//!
//! An encoder that does not support a kind of value fails with an error
//! that names the kind.

use crate::error::{Cause, Error, Expecting, Message};
use crate::mode::DefaultMode;
use vstd::prelude::*;

verus! {

/// Trait governing how types are encoded, in the mode `Mode`. A type that
/// holds other values hands the mode on to them.
pub trait Encode<Mode = DefaultMode> {
    /// Encode the given output.
    fn encode<E: Encoder>(&self, encoder: E) -> Result<E::Ok, E::Error>;
}

impl<T: Encode<Mode>, Mode> Encode<Mode> for &T {
    #[inline]
    fn encode<E: Encoder>(&self, encoder: E) -> Result<E::Ok, E::Error> {
        T::encode(*self, encoder)
    }
}

/// Trait governing how to encode a sequence.
pub trait SequenceEncoder: Sized {
    /// Result type of the encoder.
    type Ok;

    /// The error raised by a sequence encoder.
    type Error: Error;

    /// Push an element into the sequence.
    fn push<T: Encode<M>, M>(&mut self, value: &T) -> Result<(), Self::Error>;

    /// End the sequence.
    fn end(self) -> Result<Self::Ok, Self::Error>;
}

/// Encoder for a sequence of pairs.
pub trait PairsEncoder: Sized {
    /// Result type of the encoder.
    type Ok;

    /// The error raised by a map encoder.
    type Error: Error;

    /// Insert a pair immediately.
    fn insert<F: Encode<M>, S: Encode<M>, M>(&mut self, first: &F, second: &S) -> Result<(), Self::Error>;

    /// Finish encoding pairs.
    fn end(self) -> Result<Self::Ok, Self::Error>;
}

/// Trait governing how to encode a sequence of pairs.
pub trait PairEncoder: Sized {
    /// Result type of the encoder.
    type Ok;

    /// The error raised by a map encoder.
    type Error: Error;

    /// Insert the pair immediately.
    fn insert<F: Encode<M>, S: Encode<M>, M>(self, first: &F, second: &S) -> Result<Self::Ok, Self::Error>;
}

/// Trait governing how the encoder works.
pub trait Encoder: Sized {
    /// The type returned by the encoder. For [Encode] implementations ensures
    /// that they are used correctly, since only functions returned by the
    /// [Encoder] is capable of returning this value.
    type Ok;

    /// The error raised by an encoder.
    type Error: Error;

    /// A simple pack that packs a sequence of elements.
    type Pack;

    /// Encoder returned when encoding an optional value which is present.
    type Some;

    /// The type of a sequence encoder.
    type Sequence;

    /// The type of a tuple encoder.
    type Tuple;

    /// The type of a map encoder.
    type Map;

    /// Encoder that can encode a struct.
    type Struct;

    /// Encoder that can encode a tuple struct.
    type TupleStruct;

    /// Encoder for a struct variant.
    type Variant;

    /// The kinds of values that the encoder supports, in words. Every
    /// failure to encode a kind of value that is not among them goes with it.
    fn expecting(&self) -> &'static str;

    /// Encode a unit or something that is completely empty.
    #[inline]
    fn encode_unit(self) -> (r: Result<Self::Ok, Self::Error>)
        default_ensures
            r matches Err(e) && e.cause() == Cause::Message(
                Message::InvalidType { requested: Expecting::Unit },
            ),
    {
        Err(Self::Error::message(Message::InvalidType { requested: Expecting::Unit }))
    }

    /// Encode a boolean value.
    #[inline]
    fn encode_bool(self, _value: bool) -> (r: Result<Self::Ok, Self::Error>)
        default_ensures
            r matches Err(e) && e.cause() == Cause::Message(
                Message::InvalidType { requested: Expecting::Bool },
            ),
    {
        Err(Self::Error::message(Message::InvalidType { requested: Expecting::Bool }))
    }

    /// Encode a character.
    #[inline]
    fn encode_char(self, _value: char) -> (r: Result<Self::Ok, Self::Error>)
        default_ensures
            r matches Err(e) && e.cause() == Cause::Message(
                Message::InvalidType { requested: Expecting::Char },
            ),
    {
        Err(Self::Error::message(Message::InvalidType { requested: Expecting::Char }))
    }

    /// Encode a 8-bit unsigned integer.
    #[inline]
    fn encode_u8(self, _value: u8) -> (r: Result<Self::Ok, Self::Error>)
        default_ensures
            r matches Err(e) && e.cause() == Cause::Message(
                Message::InvalidType { requested: Expecting::Unsigned8 },
            ),
    {
        Err(Self::Error::message(Message::InvalidType { requested: Expecting::Unsigned8 }))
    }

    /// Encode a 16-bit unsigned integer.
    #[inline]
    fn encode_u16(self, _value: u16) -> (r: Result<Self::Ok, Self::Error>)
        default_ensures
            r matches Err(e) && e.cause() == Cause::Message(
                Message::InvalidType { requested: Expecting::Unsigned16 },
            ),
    {
        Err(Self::Error::message(Message::InvalidType { requested: Expecting::Unsigned16 }))
    }

    /// Encode a 32-bit unsigned integer.
    #[inline]
    fn encode_u32(self, _value: u32) -> (r: Result<Self::Ok, Self::Error>)
        default_ensures
            r matches Err(e) && e.cause() == Cause::Message(
                Message::InvalidType { requested: Expecting::Unsigned32 },
            ),
    {
        Err(Self::Error::message(Message::InvalidType { requested: Expecting::Unsigned32 }))
    }

    /// Encode a 64-bit unsigned integer.
    #[inline]
    fn encode_u64(self, _value: u64) -> (r: Result<Self::Ok, Self::Error>)
        default_ensures
            r matches Err(e) && e.cause() == Cause::Message(
                Message::InvalidType { requested: Expecting::Unsigned64 },
            ),
    {
        Err(Self::Error::message(Message::InvalidType { requested: Expecting::Unsigned64 }))
    }

    /// Encode a 128-bit unsigned integer.
    #[inline]
    fn encode_u128(self, _value: u128) -> (r: Result<Self::Ok, Self::Error>)
        default_ensures
            r matches Err(e) && e.cause() == Cause::Message(
                Message::InvalidType { requested: Expecting::Unsigned128 },
            ),
    {
        Err(Self::Error::message(Message::InvalidType { requested: Expecting::Unsigned128 }))
    }

    /// Encode a 8-bit signed integer.
    #[inline]
    fn encode_i8(self, _value: i8) -> (r: Result<Self::Ok, Self::Error>)
        default_ensures
            r matches Err(e) && e.cause() == Cause::Message(
                Message::InvalidType { requested: Expecting::Signed8 },
            ),
    {
        Err(Self::Error::message(Message::InvalidType { requested: Expecting::Signed8 }))
    }

    /// Encode a 16-bit signed integer.
    #[inline]
    fn encode_i16(self, _value: i16) -> (r: Result<Self::Ok, Self::Error>)
        default_ensures
            r matches Err(e) && e.cause() == Cause::Message(
                Message::InvalidType { requested: Expecting::Signed16 },
            ),
    {
        Err(Self::Error::message(Message::InvalidType { requested: Expecting::Signed16 }))
    }

    /// Encode a 32-bit signed integer.
    #[inline]
    fn encode_i32(self, _value: i32) -> (r: Result<Self::Ok, Self::Error>)
        default_ensures
            r matches Err(e) && e.cause() == Cause::Message(
                Message::InvalidType { requested: Expecting::Signed32 },
            ),
    {
        Err(Self::Error::message(Message::InvalidType { requested: Expecting::Signed32 }))
    }

    /// Encode a 64-bit signed integer.
    #[inline]
    fn encode_i64(self, _value: i64) -> (r: Result<Self::Ok, Self::Error>)
        default_ensures
            r matches Err(e) && e.cause() == Cause::Message(
                Message::InvalidType { requested: Expecting::Signed64 },
            ),
    {
        Err(Self::Error::message(Message::InvalidType { requested: Expecting::Signed64 }))
    }

    /// Encode a 128-bit signed integer.
    #[inline]
    fn encode_i128(self, _value: i128) -> (r: Result<Self::Ok, Self::Error>)
        default_ensures
            r matches Err(e) && e.cause() == Cause::Message(
                Message::InvalidType { requested: Expecting::Signed128 },
            ),
    {
        Err(Self::Error::message(Message::InvalidType { requested: Expecting::Signed128 }))
    }

    /// Encode Rusts [`usize`].
    #[inline]
    fn encode_usize(self, _value: usize) -> (r: Result<Self::Ok, Self::Error>)
        default_ensures
            r matches Err(e) && e.cause() == Cause::Message(
                Message::InvalidType { requested: Expecting::Usize },
            ),
    {
        Err(Self::Error::message(Message::InvalidType { requested: Expecting::Usize }))
    }

    /// Encode Rusts [`isize`].
    #[inline]
    fn encode_isize(self, _value: isize) -> (r: Result<Self::Ok, Self::Error>)
        default_ensures
            r matches Err(e) && e.cause() == Cause::Message(
                Message::InvalidType { requested: Expecting::Isize },
            ),
    {
        Err(Self::Error::message(Message::InvalidType { requested: Expecting::Isize }))
    }

    /// Encode fixed-length array.
    #[inline]
    fn encode_array<const N: usize>(self, _array: [u8; N]) -> (r: Result<Self::Ok, Self::Error>)
        default_ensures
            r matches Err(e) && e.cause() == Cause::Message(
                Message::InvalidType { requested: Expecting::Array },
            ),
    {
        Err(Self::Error::message(Message::InvalidType { requested: Expecting::Array }))
    }

    /// Encode a sequence of bytes.
    #[inline]
    fn encode_bytes(self, _bytes: &[u8]) -> (r: Result<Self::Ok, Self::Error>)
        default_ensures
            r matches Err(e) && e.cause() == Cause::Message(
                Message::InvalidType { requested: Expecting::Bytes },
            ),
    {
        Err(Self::Error::message(Message::InvalidType { requested: Expecting::Bytes }))
    }

    /// Encode the given slices of bytes in sequence, with one following another as a single contiguous byte array.
    #[inline]
    fn encode_bytes_vectored(self, _vectors: &[&[u8]]) -> (r: Result<Self::Ok, Self::Error>)
        default_ensures
            r matches Err(e) && e.cause() == Cause::Message(
                Message::InvalidType { requested: Expecting::Bytes },
            ),
    {
        Err(Self::Error::message(Message::InvalidType { requested: Expecting::Bytes }))
    }

    /// Encode a string.
    #[inline]
    fn encode_string(self, _string: &str) -> (r: Result<Self::Ok, Self::Error>)
        default_ensures
            r matches Err(e) && e.cause() == Cause::Message(
                Message::InvalidType { requested: Expecting::String },
            ),
    {
        Err(Self::Error::message(Message::InvalidType { requested: Expecting::String }))
    }

    /// Encode an optional value that is present.
    #[inline]
    fn encode_some(self) -> (r: Result<Self::Some, Self::Error>)
        default_ensures
            r matches Err(e) && e.cause() == Cause::Message(
                Message::InvalidType { requested: Expecting::Option },
            ),
    {
        Err(Self::Error::message(Message::InvalidType { requested: Expecting::Option }))
    }

    /// Encode an optional value that is absent.
    #[inline]
    fn encode_none(self) -> (r: Result<Self::Ok, Self::Error>)
        default_ensures
            r matches Err(e) && e.cause() == Cause::Message(
                Message::InvalidType { requested: Expecting::Option },
            ),
    {
        Err(Self::Error::message(Message::InvalidType { requested: Expecting::Option }))
    }

    /// Construct a pack that can encode more than one element at a time.
    #[inline]
    fn encode_pack(self) -> (r: Result<Self::Pack, Self::Error>)
        default_ensures
            r matches Err(e) && e.cause() == Cause::Message(
                Message::InvalidType { requested: Expecting::Pack },
            ),
    {
        Err(Self::Error::message(Message::InvalidType { requested: Expecting::Pack }))
    }

    /// Encode a sequence with a known length.
    #[inline]
    fn encode_sequence(self, _len: usize) -> (r: Result<Self::Sequence, Self::Error>)
        default_ensures
            r matches Err(e) && e.cause() == Cause::Message(
                Message::InvalidType { requested: Expecting::Sequence },
            ),
    {
        Err(Self::Error::message(Message::InvalidType { requested: Expecting::Sequence }))
    }

    /// Encode a tuple.
    #[inline]
    fn encode_tuple(self, _len: usize) -> (r: Result<Self::Tuple, Self::Error>)
        default_ensures
            r matches Err(e) && e.cause() == Cause::Message(
                Message::InvalidType { requested: Expecting::Tuple },
            ),
    {
        Err(Self::Error::message(Message::InvalidType { requested: Expecting::Tuple }))
    }

    /// Encode a map with a known length.
    #[inline]
    fn encode_map(self, _len: usize) -> (r: Result<Self::Map, Self::Error>)
        default_ensures
            r matches Err(e) && e.cause() == Cause::Message(
                Message::InvalidType { requested: Expecting::Mapping },
            ),
    {
        Err(Self::Error::message(Message::InvalidType { requested: Expecting::Mapping }))
    }

    /// Encode a struct.
    #[inline]
    fn encode_struct(self, _fields: usize) -> (r: Result<Self::Struct, Self::Error>)
        default_ensures
            r matches Err(e) && e.cause() == Cause::Message(
                Message::InvalidType { requested: Expecting::Struct },
            ),
    {
        Err(Self::Error::message(Message::InvalidType { requested: Expecting::Struct }))
    }

    /// Encode a tuple struct.
    #[inline]
    fn encode_tuple_struct(self, _fields: usize) -> (r: Result<Self::TupleStruct, Self::Error>)
        default_ensures
            r matches Err(e) && e.cause() == Cause::Message(
                Message::InvalidType { requested: Expecting::TupleStruct },
            ),
    {
        Err(Self::Error::message(Message::InvalidType { requested: Expecting::TupleStruct }))
    }

    /// Encode a unit struct.
    #[inline]
    fn encode_unit_struct(self) -> (r: Result<Self::Ok, Self::Error>)
        default_ensures
            r matches Err(e) && e.cause() == Cause::Message(
                Message::InvalidType { requested: Expecting::UnitStruct },
            ),
    {
        Err(Self::Error::message(Message::InvalidType { requested: Expecting::UnitStruct }))
    }

    /// Encode an struct enum variant.
    #[inline]
    fn encode_variant(self) -> (r: Result<Self::Variant, Self::Error>)
        default_ensures
            r matches Err(e) && e.cause() == Cause::Message(
                Message::InvalidType { requested: Expecting::Variant },
            ),
    {
        Err(Self::Error::message(Message::InvalidType { requested: Expecting::Variant }))
    }

}

} // verus!
