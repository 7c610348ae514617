//! The protocol of decoders: one method for each kind of value.
//!
//! A decoder that does not support a kind of value fails with an error
//! that names the kind.

use crate::error::{Cause, Error, Expecting, Message};
use crate::mode::DefaultMode;
use vstd::prelude::*;

verus! {

/// What the error of a result was made from, where the result is one.
pub open spec fn fault<T, E: Error>(r: Result<T, E>) -> Option<Cause> {
    match r {
        Ok(_) => None,
        Err(e) => Some(e.cause()),
    }
}

/// Trait governing how types are decoded, in the mode `Mode`. A type that
/// holds other values hands the mode on to them.
pub trait Decode<'de, Mode = DefaultMode>: Sized {
    /// Decode the given input.
    fn decode<D: Decoder<'de>>(decoder: D) -> Result<Self, D::Error>;
}

/// A visitor for data where it might be possible to borrow it without
/// copying from the underlying [Decoder]: a string or a sequence of bytes.
///
/// A decoder hands what it has decoded to exactly one of the methods.
pub trait ValueVisitor<'de>: Sized {
    /// The value visited: `str` or `[u8]`.
    type Target: ?Sized;

    /// The value produced.
    type Ok;

    /// Visit a value that lives only as long as the call, such as one in
    /// the scratch buffer of the decoder.
    fn visit_ref<E: Error>(self, value: &Self::Target) -> Result<Self::Ok, E>;

    /// Visit a value that is borrowed directly from the source.
    #[inline]
    fn visit_borrowed<E: Error>(self, value: &'de Self::Target) -> Result<Self::Ok, E> {
        self.visit_ref(value)
    }
}

/// A pack that can construct decoders: a sequence whose length is not told.
pub trait PackDecoder<'de>: Sized {
    /// Error type raised by this unpack.
    type Error: Error;

    /// What decoding the next element does, as far as the pack decides it
    /// and not the type of the element. `fault` is what the error was made
    /// from, where decoding failed.
    spec fn unpacked(before: Self, after: Self, fault: Option<Cause>) -> bool;

    /// Decode the next element of the pack.
    fn next<T: Decode<'de, M>, M>(&mut self) -> (r: Result<T, Self::Error>)
        ensures
            Self::unpacked(*old(self), *final(self), fault(r)),
    ;
}

/// Trait governing how to decode a sequence.
pub trait SequenceDecoder<'de>: Sized {
    /// Error type.
    type Error: Error;

    /// What decoding the next element does, as far as the sequence decides
    /// it and not the type of the element: whether there is an element, and
    /// how the decoder steps to it. `absent` tells that no element was
    /// found, `fault` what the error was made from, where decoding failed.
    spec fn stepped(before: Self, after: Self, absent: bool, fault: Option<Cause>) -> bool;

    /// Get a size hint of known remaining elements.
    fn size_hint(&self) -> Option<usize>;

    /// Decode the next element, as long as there is one.
    fn next<T: Decode<'de, M>, M>(&mut self) -> (r: Result<Option<T>, Self::Error>)
        ensures
            Self::stepped(*old(self), *final(self), r matches Ok(None), fault(r)),
    ;
}

/// Trait governing how to decode a sequence of pairs.
pub trait PairsDecoder<'de> {
    /// Error type.
    type Error: Error;

    /// Get a size hint of known remaining elements.
    fn size_hint(&self) -> Option<usize>;

    /// Decode the first value of the next pair, as long as there is a pair.
    fn first<F: Decode<'de, M>, M>(&mut self) -> Result<Option<F>, Self::Error>;

    /// Decode the second value of the pair whose first value was decoded
    /// last.
    fn second<S: Decode<'de, M>, M>(&mut self) -> Result<S, Self::Error>;

    /// Skip the second value of the pair whose first value was decoded
    /// last. The result tells whether the decoder could skip it.
    fn skip_second(&mut self) -> Result<bool, Self::Error>;
}

/// Trait governing how to decode a pair: what a map holds under a key, the
/// field of a struct, or a variant with its content.
pub trait PairDecoder<'de>: Sized {
    /// Error type.
    type Error: Error;

    /// Decode the first value in the pair.
    fn first<F: Decode<'de, M>, M>(&mut self) -> Result<F, Self::Error>;

    /// Decode the second value in the pair.
    fn second<S: Decode<'de, M>, M>(self) -> Result<S, Self::Error>;

    /// Skip the second value in the pair. The result tells whether the
    /// decoder could skip it.
    fn skip_second(self) -> Result<bool, Self::Error>;
}

/// Trait governing the implementation of a decoder.
pub trait Decoder<'de>: Sized {
    /// Error type raised by the decoder.
    type Error: Error;

    /// Pack decoder implementation.
    type Pack;

    /// Sequence decoder implementation.
    type Sequence;

    /// Tuple decoder implementation.
    type Tuple;

    /// Map decoder implementation.
    type Map;

    /// Decoder for a value that is present.
    type Some;

    /// Decoder for a struct.
    type Struct;

    /// Decoder for a variant.
    type Variant;

    /// The kinds of values that the decoder supports, in words. Every
    /// failure to decode a kind of value that is not among them goes with it.
    fn expecting(&self) -> &'static str;

    /// Skip over the current value, whatever it is.
    #[inline]
    fn skip_any(self) -> (r: Result<(), Self::Error>)
        default_ensures
            r matches Err(e) && e.cause() == Cause::Message(
                Message::InvalidType { requested: Expecting::Any },
            ),
    {
        Err(Self::Error::message(Message::InvalidType { requested: Expecting::Any }))
    }

    /// Decode a unit or something that is completely empty.
    #[inline]
    fn decode_unit(self) -> (r: Result<(), Self::Error>)
        default_ensures
            r matches Err(e) && e.cause() == Cause::Message(
                Message::InvalidType { requested: Expecting::Unit },
            ),
    {
        Err(Self::Error::message(Message::InvalidType { requested: Expecting::Unit }))
    }

    /// Decode a boolean.
    #[inline]
    fn decode_bool(self) -> (r: Result<bool, Self::Error>)
        default_ensures
            r matches Err(e) && e.cause() == Cause::Message(
                Message::InvalidType { requested: Expecting::Bool },
            ),
    {
        Err(Self::Error::message(Message::InvalidType { requested: Expecting::Bool }))
    }

    /// Decode a character.
    #[inline]
    fn decode_char(self) -> (r: Result<char, Self::Error>)
        default_ensures
            r matches Err(e) && e.cause() == Cause::Message(
                Message::InvalidType { requested: Expecting::Char },
            ),
    {
        Err(Self::Error::message(Message::InvalidType { requested: Expecting::Char }))
    }

    /// Decode a 8-bit unsigned integer (a.k.a. a byte).
    #[inline]
    fn decode_u8(self) -> (r: Result<u8, Self::Error>)
        default_ensures
            r matches Err(e) && e.cause() == Cause::Message(
                Message::InvalidType { requested: Expecting::Unsigned8 },
            ),
    {
        Err(Self::Error::message(Message::InvalidType { requested: Expecting::Unsigned8 }))
    }

    /// Decode a 16-bit unsigned integer.
    #[inline]
    fn decode_u16(self) -> (r: Result<u16, Self::Error>)
        default_ensures
            r matches Err(e) && e.cause() == Cause::Message(
                Message::InvalidType { requested: Expecting::Unsigned16 },
            ),
    {
        Err(Self::Error::message(Message::InvalidType { requested: Expecting::Unsigned16 }))
    }

    /// Decode a 32-bit unsigned integer.
    #[inline]
    fn decode_u32(self) -> (r: Result<u32, Self::Error>)
        default_ensures
            r matches Err(e) && e.cause() == Cause::Message(
                Message::InvalidType { requested: Expecting::Unsigned32 },
            ),
    {
        Err(Self::Error::message(Message::InvalidType { requested: Expecting::Unsigned32 }))
    }

    /// Decode a 64-bit unsigned integer.
    #[inline]
    fn decode_u64(self) -> (r: Result<u64, Self::Error>)
        default_ensures
            r matches Err(e) && e.cause() == Cause::Message(
                Message::InvalidType { requested: Expecting::Unsigned64 },
            ),
    {
        Err(Self::Error::message(Message::InvalidType { requested: Expecting::Unsigned64 }))
    }

    /// Decode a 128-bit unsigned integer.
    #[inline]
    fn decode_u128(self) -> (r: Result<u128, Self::Error>)
        default_ensures
            r matches Err(e) && e.cause() == Cause::Message(
                Message::InvalidType { requested: Expecting::Unsigned128 },
            ),
    {
        Err(Self::Error::message(Message::InvalidType { requested: Expecting::Unsigned128 }))
    }

    /// Decode a 8-bit signed integer.
    #[inline]
    fn decode_i8(self) -> (r: Result<i8, Self::Error>)
        default_ensures
            r matches Err(e) && e.cause() == Cause::Message(
                Message::InvalidType { requested: Expecting::Signed8 },
            ),
    {
        Err(Self::Error::message(Message::InvalidType { requested: Expecting::Signed8 }))
    }

    /// Decode a 16-bit signed integer.
    #[inline]
    fn decode_i16(self) -> (r: Result<i16, Self::Error>)
        default_ensures
            r matches Err(e) && e.cause() == Cause::Message(
                Message::InvalidType { requested: Expecting::Signed16 },
            ),
    {
        Err(Self::Error::message(Message::InvalidType { requested: Expecting::Signed16 }))
    }

    /// Decode a 32-bit signed integer.
    #[inline]
    fn decode_i32(self) -> (r: Result<i32, Self::Error>)
        default_ensures
            r matches Err(e) && e.cause() == Cause::Message(
                Message::InvalidType { requested: Expecting::Signed32 },
            ),
    {
        Err(Self::Error::message(Message::InvalidType { requested: Expecting::Signed32 }))
    }

    /// Decode a 64-bit signed integer.
    #[inline]
    fn decode_i64(self) -> (r: Result<i64, Self::Error>)
        default_ensures
            r matches Err(e) && e.cause() == Cause::Message(
                Message::InvalidType { requested: Expecting::Signed64 },
            ),
    {
        Err(Self::Error::message(Message::InvalidType { requested: Expecting::Signed64 }))
    }

    /// Decode a 128-bit signed integer.
    #[inline]
    fn decode_i128(self) -> (r: Result<i128, Self::Error>)
        default_ensures
            r matches Err(e) && e.cause() == Cause::Message(
                Message::InvalidType { requested: Expecting::Signed128 },
            ),
    {
        Err(Self::Error::message(Message::InvalidType { requested: Expecting::Signed128 }))
    }

    /// Decode Rusts [`usize`].
    #[inline]
    fn decode_usize(self) -> (r: Result<usize, Self::Error>)
        default_ensures
            r matches Err(e) && e.cause() == Cause::Message(
                Message::InvalidType { requested: Expecting::Usize },
            ),
    {
        Err(Self::Error::message(Message::InvalidType { requested: Expecting::Usize }))
    }

    /// Decode Rusts [`isize`].
    #[inline]
    fn decode_isize(self) -> (r: Result<isize, Self::Error>)
        default_ensures
            r matches Err(e) && e.cause() == Cause::Message(
                Message::InvalidType { requested: Expecting::Isize },
            ),
    {
        Err(Self::Error::message(Message::InvalidType { requested: Expecting::Isize }))
    }

    /// Decode a fixed-length array.
    #[inline]
    fn decode_array<const N: usize>(self) -> (r: Result<[u8; N], Self::Error>)
        default_ensures
            r matches Err(e) && e.cause() == Cause::Message(
                Message::InvalidType { requested: Expecting::Array },
            ),
    {
        Err(Self::Error::message(Message::InvalidType { requested: Expecting::Array }))
    }

    /// Decode a sequence of bytes whos length is encoded in the payload.
    #[inline]
    fn decode_bytes<V: ValueVisitor<'de, Target = [u8]>>(self, _visitor: V) -> (r: Result<V::Ok, Self::Error>)
        default_ensures
            r matches Err(e) && e.cause() == Cause::Message(
                Message::InvalidType { requested: Expecting::Bytes },
            ),
    {
        Err(Self::Error::message(Message::InvalidType { requested: Expecting::Bytes }))
    }

    /// Decode a string slice from the current decoder.
    #[inline]
    fn decode_string<V: ValueVisitor<'de, Target = str>>(self, _visitor: V) -> (r: Result<V::Ok, Self::Error>)
        default_ensures
            r matches Err(e) && e.cause() == Cause::Message(
                Message::InvalidType { requested: Expecting::String },
            ),
    {
        Err(Self::Error::message(Message::InvalidType { requested: Expecting::String }))
    }

    /// Decode an optional value.
    #[inline]
    fn decode_option(self) -> (r: Result<Option<Self::Some>, Self::Error>)
        default_ensures
            r matches Err(e) && e.cause() == Cause::Message(
                Message::InvalidType { requested: Expecting::Option },
            ),
    {
        Err(Self::Error::message(Message::InvalidType { requested: Expecting::Option }))
    }

    /// Construct an unpack that can decode more than one element at a time.
    #[inline]
    fn decode_pack(self) -> (r: Result<Self::Pack, Self::Error>)
        default_ensures
            r matches Err(e) && e.cause() == Cause::Message(
                Message::InvalidType { requested: Expecting::Pack },
            ),
    {
        Err(Self::Error::message(Message::InvalidType { requested: Expecting::Pack }))
    }

    /// Decode a sequence.
    #[inline]
    fn decode_sequence(self) -> (r: Result<Self::Sequence, Self::Error>)
        default_ensures
            r matches Err(e) && e.cause() == Cause::Message(
                Message::InvalidType { requested: Expecting::Sequence },
            ),
    {
        Err(Self::Error::message(Message::InvalidType { requested: Expecting::Sequence }))
    }

    /// Decode a fixed-length sequence of elements of length `len`.
    #[inline]
    fn decode_tuple(self, _len: usize) -> (r: Result<Self::Tuple, Self::Error>)
        default_ensures
            r matches Err(e) && e.cause() == Cause::Message(
                Message::InvalidType { requested: Expecting::Tuple },
            ),
    {
        Err(Self::Error::message(Message::InvalidType { requested: Expecting::Tuple }))
    }

    /// Decode a map.
    #[inline]
    fn decode_map(self) -> (r: Result<Self::Map, Self::Error>)
        default_ensures
            r matches Err(e) && e.cause() == Cause::Message(
                Message::InvalidType { requested: Expecting::Mapping },
            ),
    {
        Err(Self::Error::message(Message::InvalidType { requested: Expecting::Mapping }))
    }

    /// Decode a struct which has an expected `len` number of elements.
    #[inline]
    fn decode_struct(self, _fields: usize) -> (r: Result<Self::Struct, Self::Error>)
        default_ensures
            r matches Err(e) && e.cause() == Cause::Message(
                Message::InvalidType { requested: Expecting::Struct },
            ),
    {
        Err(Self::Error::message(Message::InvalidType { requested: Expecting::Struct }))
    }

    /// Decode a tuple struct which has an expected `len` number of elements.
    #[inline]
    fn decode_tuple_struct(self, _fields: usize) -> (r: Result<Self::Struct, Self::Error>)
        default_ensures
            r matches Err(e) && e.cause() == Cause::Message(
                Message::InvalidType { requested: Expecting::TupleStruct },
            ),
    {
        Err(Self::Error::message(Message::InvalidType { requested: Expecting::TupleStruct }))
    }

    /// Decode a unit struct.
    #[inline]
    fn decode_unit_struct(self) -> (r: Result<(), Self::Error>)
        default_ensures
            r matches Err(e) && e.cause() == Cause::Message(
                Message::InvalidType { requested: Expecting::UnitStruct },
            ),
    {
        Err(Self::Error::message(Message::InvalidType { requested: Expecting::UnitStruct }))
    }

    /// Decode a variant: its tag and its content.
    #[inline]
    fn decode_variant(self) -> (r: Result<Self::Variant, Self::Error>)
        default_ensures
            r matches Err(e) && e.cause() == Cause::Message(
                Message::InvalidType { requested: Expecting::Variant },
            ),
    {
        Err(Self::Error::message(Message::InvalidType { requested: Expecting::Variant }))
    }
}

} // verus!
