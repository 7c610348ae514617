//! The storage encoder and decoder as an encoder and a decoder of the
//! protocol.

use crate::de::{Decode, Decoder, PackDecoder, PairDecoder, PairsDecoder, SequenceDecoder, ValueVisitor};
use crate::en::{Encode, Encoder, PairEncoder, PairsEncoder, SequenceEncoder};
use crate::error::Cause;
use crate::never::Never;
use crate::reader::Reader;
use crate::results::found;
use crate::storage::de::{LimitedStorageDecoder, StorageDecoder};
use crate::storage::en::StorageEncoder;
use crate::storage::integer_encoding::{IntegerEncoding, UsizeEncoding};
use crate::writer::Writer;
use vstd::prelude::*;

verus! {

/// Every kind of value but a tuple struct.
impl<'a, W: Writer, I: IntegerEncoding, L: UsizeEncoding> Encoder for StorageEncoder<'a, W, I, L> {
    type Ok = ();

    type Error = W::Error;

    type Pack = Self;

    type Some = Self;

    type Sequence = Self;

    type Tuple = Self;

    type Map = Self;

    type Struct = Self;

    type TupleStruct = Never<(), W::Error>;

    type Variant = Self;

    #[inline]
    fn expecting(&self) -> &'static str {
        "type supported by the storage encoder"
    }

    #[inline]
    fn encode_unit(self) -> (r: Result<(), W::Error>) {
        StorageEncoder::encode_unit(self)
    }

    #[inline]
    fn encode_bool(self, value: bool) -> (r: Result<(), W::Error>) {
        StorageEncoder::encode_bool(self, value)
    }

    #[inline]
    fn encode_char(self, value: char) -> (r: Result<(), W::Error>) {
        StorageEncoder::encode_char(self, value)
    }

    #[inline]
    fn encode_u8(self, value: u8) -> (r: Result<(), W::Error>) {
        StorageEncoder::encode_u8(self, value)
    }

    #[inline]
    fn encode_u16(self, value: u16) -> (r: Result<(), W::Error>) {
        StorageEncoder::encode_u16(self, value)
    }

    #[inline]
    fn encode_u32(self, value: u32) -> (r: Result<(), W::Error>) {
        StorageEncoder::encode_u32(self, value)
    }

    #[inline]
    fn encode_u64(self, value: u64) -> (r: Result<(), W::Error>) {
        StorageEncoder::encode_u64(self, value)
    }

    #[inline]
    fn encode_u128(self, value: u128) -> (r: Result<(), W::Error>) {
        StorageEncoder::encode_u128(self, value)
    }

    #[inline]
    fn encode_usize(self, value: usize) -> (r: Result<(), W::Error>) {
        StorageEncoder::encode_usize(self, value)
    }

    #[inline]
    fn encode_i8(self, value: i8) -> (r: Result<(), W::Error>) {
        StorageEncoder::encode_i8(self, value)
    }

    #[inline]
    fn encode_i16(self, value: i16) -> (r: Result<(), W::Error>) {
        StorageEncoder::encode_i16(self, value)
    }

    #[inline]
    fn encode_i32(self, value: i32) -> (r: Result<(), W::Error>) {
        StorageEncoder::encode_i32(self, value)
    }

    #[inline]
    fn encode_i64(self, value: i64) -> (r: Result<(), W::Error>) {
        StorageEncoder::encode_i64(self, value)
    }

    #[inline]
    fn encode_i128(self, value: i128) -> (r: Result<(), W::Error>) {
        StorageEncoder::encode_i128(self, value)
    }

    #[inline]
    fn encode_isize(self, value: isize) -> (r: Result<(), W::Error>) {
        StorageEncoder::encode_isize(self, value)
    }

    #[inline]
    fn encode_array<const N: usize>(self, array: [u8; N]) -> (r: Result<(), W::Error>) {
        StorageEncoder::encode_array(self, array)
    }

    #[inline]
    fn encode_bytes(self, bytes: &[u8]) -> (r: Result<(), W::Error>) {
        StorageEncoder::encode_bytes(self, bytes)
    }

    #[inline]
    fn encode_bytes_vectored(self, vectors: &[&[u8]]) -> (r: Result<(), W::Error>) {
        StorageEncoder::encode_bytes_vectored(self, vectors)
    }

    #[inline]
    fn encode_string(self, string: &str) -> (r: Result<(), W::Error>) {
        StorageEncoder::encode_string(self, string)
    }

    #[inline]
    fn encode_none(self) -> (r: Result<(), W::Error>) {
        StorageEncoder::encode_none(self)
    }

    #[inline]
    fn encode_unit_struct(self) -> (r: Result<(), W::Error>) {
        StorageEncoder::encode_unit_struct(self)
    }

    #[inline]
    fn encode_some(self) -> (r: Result<Self, W::Error>) {
        StorageEncoder::encode_some(self)
    }

    #[inline]
    fn encode_pack(self) -> (r: Result<Self, W::Error>) {
        StorageEncoder::encode_pack(self)
    }

    #[inline]
    fn encode_sequence(self, len: usize) -> (r: Result<Self, W::Error>) {
        StorageEncoder::encode_sequence(self, len)
    }

    #[inline]
    fn encode_tuple(self, len: usize) -> (r: Result<Self, W::Error>) {
        StorageEncoder::encode_tuple(self, len)
    }

    #[inline]
    fn encode_map(self, len: usize) -> (r: Result<Self, W::Error>) {
        StorageEncoder::encode_map(self, len)
    }

    #[inline]
    fn encode_struct(self, fields: usize) -> (r: Result<Self, W::Error>) {
        StorageEncoder::encode_struct(self, fields)
    }

    #[inline]
    fn encode_variant(self) -> (r: Result<Self, W::Error>) {
        StorageEncoder::encode_variant(self)
    }
}

impl<'a, W: Writer, I: IntegerEncoding, L: UsizeEncoding> SequenceEncoder for StorageEncoder<'a, W, I, L> {
    type Ok = ();

    type Error = W::Error;

    #[inline]
    fn push<T: Encode<M>, M>(&mut self, value: &T) -> (r: Result<(), W::Error>) {
        let encoder = StorageEncoder::next(self)?;
        value.encode(encoder)
    }

    #[inline]
    fn end(self) -> Result<(), W::Error> {
        StorageEncoder::finish(self)
    }
}

impl<'a, W: Writer, I: IntegerEncoding, L: UsizeEncoding> PairsEncoder for StorageEncoder<'a, W, I, L> {
    type Ok = ();

    type Error = W::Error;

    #[inline]
    fn insert<F: Encode<M>, S: Encode<M>, M>(&mut self, first: &F, second: &S) -> Result<(), W::Error> {
        first.encode(StorageEncoder::encode_first(self)?)?;
        second.encode(StorageEncoder::encode_second(self)?)
    }

    #[inline]
    fn end(self) -> Result<(), W::Error> {
        StorageEncoder::finish(self)
    }
}

impl<'a, W: Writer, I: IntegerEncoding, L: UsizeEncoding> PairEncoder for StorageEncoder<'a, W, I, L> {
    type Ok = ();

    type Error = W::Error;

    #[inline]
    fn insert<F: Encode<M>, S: Encode<M>, M>(self, first: &F, second: &S) -> Result<(), W::Error> {
        let mut pair = self;
        first.encode(StorageEncoder::encode_variant_tag(&mut pair)?)?;
        second.encode(StorageEncoder::encode_variant_value(pair)?)
    }
}

/// Every kind of value but a tuple struct. No value can be skipped: where one ends is known only to the decoder of its type.
impl<'a, 'de, R: Reader<'de>, I: IntegerEncoding, L: UsizeEncoding> Decoder<'de> for StorageDecoder<'a, R, I, L> {
    type Error = R::Error;

    type Pack = Self;

    type Sequence = LimitedStorageDecoder<'a, R, I, L>;

    type Tuple = LimitedStorageDecoder<'a, R, I, L>;

    type Map = LimitedStorageDecoder<'a, R, I, L>;

    type Some = Self;

    type Struct = LimitedStorageDecoder<'a, R, I, L>;

    type Variant = Self;

    #[inline]
    fn expecting(&self) -> &'static str {
        "type supported by the storage decoder"
    }

    #[inline]
    fn decode_unit(self) -> (r: Result<(), R::Error>) {
        StorageDecoder::decode_unit(self)
    }

    #[inline]
    fn decode_bool(self) -> (r: Result<bool, R::Error>) {
        StorageDecoder::decode_bool(self)
    }

    #[inline]
    fn decode_char(self) -> (r: Result<char, R::Error>) {
        StorageDecoder::decode_char(self)
    }

    #[inline]
    fn decode_u8(self) -> (r: Result<u8, R::Error>) {
        StorageDecoder::decode_u8(self)
    }

    #[inline]
    fn decode_u16(self) -> (r: Result<u16, R::Error>) {
        StorageDecoder::decode_u16(self)
    }

    #[inline]
    fn decode_u32(self) -> (r: Result<u32, R::Error>) {
        StorageDecoder::decode_u32(self)
    }

    #[inline]
    fn decode_u64(self) -> (r: Result<u64, R::Error>) {
        StorageDecoder::decode_u64(self)
    }

    #[inline]
    fn decode_u128(self) -> (r: Result<u128, R::Error>) {
        StorageDecoder::decode_u128(self)
    }

    #[inline]
    fn decode_usize(self) -> (r: Result<usize, R::Error>) {
        StorageDecoder::decode_usize(self)
    }

    #[inline]
    fn decode_i8(self) -> (r: Result<i8, R::Error>) {
        StorageDecoder::decode_i8(self)
    }

    #[inline]
    fn decode_i16(self) -> (r: Result<i16, R::Error>) {
        StorageDecoder::decode_i16(self)
    }

    #[inline]
    fn decode_i32(self) -> (r: Result<i32, R::Error>) {
        StorageDecoder::decode_i32(self)
    }

    #[inline]
    fn decode_i64(self) -> (r: Result<i64, R::Error>) {
        StorageDecoder::decode_i64(self)
    }

    #[inline]
    fn decode_i128(self) -> (r: Result<i128, R::Error>) {
        StorageDecoder::decode_i128(self)
    }

    #[inline]
    fn decode_isize(self) -> (r: Result<isize, R::Error>) {
        StorageDecoder::decode_isize(self)
    }

    #[inline]
    fn decode_unit_struct(self) -> (r: Result<(), R::Error>) {
        StorageDecoder::decode_unit_struct(self)
    }

    #[inline]
    fn decode_array<const N: usize>(self) -> (r: Result<[u8; N], R::Error>) {
        StorageDecoder::decode_array::<N>(self)
    }

    #[inline]
    fn decode_bytes<V: ValueVisitor<'de, Target = [u8]>>(self, visitor: V) -> (r: Result<
        V::Ok,
        R::Error,
    >) {
        let bytes = StorageDecoder::decode_bytes(self)?;
        visitor.visit_borrowed(bytes)
    }

    #[inline]
    fn decode_string<V: ValueVisitor<'de, Target = str>>(self, visitor: V) -> (r: Result<
        V::Ok,
        R::Error,
    >) {
        let string = StorageDecoder::decode_string(self)?;
        visitor.visit_borrowed(string)
    }

    #[inline]
    fn decode_option(self) -> (r: Result<Option<Self>, R::Error>) {
        StorageDecoder::decode_option(self)
    }

    #[inline]
    fn decode_pack(self) -> (r: Result<Self, R::Error>) {
        StorageDecoder::decode_pack(self)
    }

    #[inline]
    fn decode_sequence(self) -> (r: Result<LimitedStorageDecoder<'a, R, I, L>, R::Error>) {
        StorageDecoder::decode_sequence(self)
    }

    #[inline]
    fn decode_tuple(self, len: usize) -> (r: Result<LimitedStorageDecoder<'a, R, I, L>, R::Error>) {
        StorageDecoder::decode_tuple(self, len)
    }

    #[inline]
    fn decode_map(self) -> (r: Result<LimitedStorageDecoder<'a, R, I, L>, R::Error>) {
        StorageDecoder::decode_map(self)
    }

    #[inline]
    fn decode_struct(self, fields: usize) -> (r: Result<LimitedStorageDecoder<'a, R, I, L>, R::Error>) {
        StorageDecoder::decode_struct(self, fields)
    }

    #[inline]
    fn decode_variant(self) -> (r: Result<Self, R::Error>) {
        StorageDecoder::decode_variant(self)
    }
}

impl<'a, 'de, R: Reader<'de>, I: IntegerEncoding, L: UsizeEncoding> PackDecoder<'de> for StorageDecoder<'a, R, I, L> {
    type Error = R::Error;

    open spec fn unpacked(before: Self, after: Self, fault: Option<Cause>) -> bool {
        true
    }

    #[inline]
    fn next<T: Decode<'de, M>, M>(&mut self) -> (r: Result<T, R::Error>) {
        T::decode(StorageDecoder::next(self)?)
    }
}

impl<'a, 'de, R: Reader<'de>, I: IntegerEncoding, L: UsizeEncoding> PairDecoder<'de> for StorageDecoder<'a, R, I, L> {
    type Error = R::Error;

    #[inline]
    fn first<F: Decode<'de, M>, M>(&mut self) -> Result<F, R::Error> {
        F::decode(StorageDecoder::first(self)?)
    }

    #[inline]
    fn second<S: Decode<'de, M>, M>(self) -> Result<S, R::Error> {
        S::decode(StorageDecoder::second(self)?)
    }

    #[inline]
    fn skip_second(self) -> Result<bool, R::Error> {
        StorageDecoder::skip_second(self)
    }
}

impl<'a, 'de, R: Reader<'de>, I: IntegerEncoding, L: UsizeEncoding> SequenceDecoder<'de> for LimitedStorageDecoder<'a, R, I, L> {
    type Error = R::Error;

    open spec fn stepped(before: Self, after: Self, absent: bool, fault: Option<Cause>) -> bool {
        &&& before.remaining == 0 ==> (absent && after.remaining == 0 && *after.decoder.reader
            == *before.decoder.reader)
        &&& before.remaining > 0 ==> (!absent && after.remaining == before.remaining - 1)
    }

    #[inline]
    fn size_hint(&self) -> Option<usize> {
        LimitedStorageDecoder::size_hint(self)
    }

    #[inline]
    fn next<T: Decode<'de, M>, M>(&mut self) -> (r: Result<Option<T>, R::Error>) {
        match LimitedStorageDecoder::next(self)? {
            Some(decoder) => found(T::decode(decoder)),
            None => Ok(None),
        }
    }
}

impl<'a, 'de, R: Reader<'de>, I: IntegerEncoding, L: UsizeEncoding> PairsDecoder<'de> for LimitedStorageDecoder<'a, R, I, L> {
    type Error = R::Error;

    #[inline]
    fn size_hint(&self) -> Option<usize> {
        LimitedStorageDecoder::size_hint(self)
    }

    #[inline]
    fn first<F: Decode<'de, M>, M>(&mut self) -> (r: Result<Option<F>, R::Error>)
        ensures
            old(self).remaining == 0 ==> (r matches Ok(None) && final(self).remaining == 0
                && *final(self).decoder.reader == *old(self).decoder.reader),
            old(self).remaining > 0 ==> (!(r matches Ok(None)) && final(self).remaining
                == old(self).remaining - 1),
    {
        match LimitedStorageDecoder::next(self)? {
            Some(decoder) => {
                let mut pair = decoder;
                found(F::decode(StorageDecoder::first(&mut pair)?))
            },
            None => Ok(None),
        }
    }

    #[inline]
    fn second<S: Decode<'de, M>, M>(&mut self) -> (r: Result<S, R::Error>)
        ensures
            final(self).remaining == old(self).remaining,
    {
        S::decode(StorageDecoder::next(&mut self.decoder)?)
    }

    #[inline]
    fn skip_second(&mut self) -> (r: Result<bool, R::Error>)
        ensures
            r matches Ok(false),
            final(self).remaining == old(self).remaining,
            *final(self).decoder.reader == *old(self).decoder.reader,
    {
        Ok(false)
    }
}

} // verus!
