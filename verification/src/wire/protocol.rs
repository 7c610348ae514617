//! The wire encoder and decoder as an encoder and a decoder of the protocol.

use crate::de::{
    Decode, Decoder, PackDecoder, PairDecoder, PairsDecoder, SequenceDecoder, ValueVisitor,
};
use crate::en::{Encode, Encoder, PairEncoder, PairsEncoder, SequenceEncoder};
use crate::error::Cause;
use crate::reader::{read_with_at, PositionedReader};
use crate::results::{converted, found};
use crate::wire::format::skip_read;
use crate::wire::de::{MaybeWireDecoder, RemainingWireDecoder, VariantWireDecoder, WireDecoder};
use crate::wire::en::{WireEncoder, WirePairEncoder, WirePairsEncoder, WireSequenceEncoder};
use crate::wire::integer_encoding::{TypedIntegerEncoding, TypedUsizeEncoding};
use crate::wire::pack::{WirePackDecoder, WirePackEncoder};
use crate::writer::Writer;
use vstd::prelude::*;

verus! {

/// Every kind of value but bytes in several slices.
impl<'a, W: Writer, I: TypedIntegerEncoding, L: TypedUsizeEncoding> Encoder for WireEncoder<'a, W, I, L> {
    type Ok = ();

    type Error = W::Error;

    type Pack = WirePackEncoder<'a, W, I, L>;

    type Some = Self;

    type Sequence = WireSequenceEncoder<'a, W, I, L>;

    type Tuple = WireSequenceEncoder<'a, W, I, L>;

    type Map = WirePairsEncoder<'a, W, I, L>;

    type Struct = WirePairsEncoder<'a, W, I, L>;

    type TupleStruct = WirePairsEncoder<'a, W, I, L>;

    type Variant = WirePairEncoder<'a, W, I, L>;

    #[inline]
    fn expecting(&self) -> &'static str {
        "type supported by the wire encoder"
    }

    #[inline]
    fn encode_unit(self) -> (r: Result<(), W::Error>) {
        WireEncoder::encode_unit(self)
    }

    #[inline]
    fn encode_bool(self, value: bool) -> (r: Result<(), W::Error>) {
        WireEncoder::encode_bool(self, value)
    }

    #[inline]
    fn encode_char(self, value: char) -> (r: Result<(), W::Error>) {
        WireEncoder::encode_char(self, value)
    }

    #[inline]
    fn encode_u8(self, value: u8) -> (r: Result<(), W::Error>) {
        WireEncoder::encode_u8(self, value)
    }

    #[inline]
    fn encode_u16(self, value: u16) -> (r: Result<(), W::Error>) {
        WireEncoder::encode_u16(self, value)
    }

    #[inline]
    fn encode_u32(self, value: u32) -> (r: Result<(), W::Error>) {
        WireEncoder::encode_u32(self, value)
    }

    #[inline]
    fn encode_u64(self, value: u64) -> (r: Result<(), W::Error>) {
        WireEncoder::encode_u64(self, value)
    }

    #[inline]
    fn encode_u128(self, value: u128) -> (r: Result<(), W::Error>) {
        WireEncoder::encode_u128(self, value)
    }

    #[inline]
    fn encode_usize(self, value: usize) -> (r: Result<(), W::Error>) {
        WireEncoder::encode_usize(self, value)
    }

    #[inline]
    fn encode_i8(self, value: i8) -> (r: Result<(), W::Error>) {
        WireEncoder::encode_i8(self, value)
    }

    #[inline]
    fn encode_i16(self, value: i16) -> (r: Result<(), W::Error>) {
        WireEncoder::encode_i16(self, value)
    }

    #[inline]
    fn encode_i32(self, value: i32) -> (r: Result<(), W::Error>) {
        WireEncoder::encode_i32(self, value)
    }

    #[inline]
    fn encode_i64(self, value: i64) -> (r: Result<(), W::Error>) {
        WireEncoder::encode_i64(self, value)
    }

    #[inline]
    fn encode_i128(self, value: i128) -> (r: Result<(), W::Error>) {
        WireEncoder::encode_i128(self, value)
    }

    #[inline]
    fn encode_isize(self, value: isize) -> (r: Result<(), W::Error>) {
        WireEncoder::encode_isize(self, value)
    }

    #[inline]
    fn encode_array<const N: usize>(self, array: [u8; N]) -> (r: Result<(), W::Error>) {
        WireEncoder::encode_array(self, array)
    }

    #[inline]
    fn encode_bytes(self, bytes: &[u8]) -> (r: Result<(), W::Error>) {
        WireEncoder::encode_bytes(self, bytes)
    }

    #[inline]
    fn encode_string(self, string: &str) -> (r: Result<(), W::Error>) {
        WireEncoder::encode_string(self, string)
    }

    #[inline]
    fn encode_none(self) -> (r: Result<(), W::Error>) {
        WireEncoder::encode_none(self)
    }

    #[inline]
    fn encode_unit_struct(self) -> (r: Result<(), W::Error>) {
        WireEncoder::encode_unit_struct(self)
    }

    #[inline]
    fn encode_some(self) -> (r: Result<Self, W::Error>) {
        WireEncoder::encode_some(self)
    }

    #[inline]
    fn encode_pack(self) -> (r: Result<WirePackEncoder<'a, W, I, L>, W::Error>) {
        WireEncoder::encode_pack(self)
    }

    #[inline]
    fn encode_sequence(self, len: usize) -> (r: Result<WireSequenceEncoder<'a, W, I, L>, W::Error>) {
        WireEncoder::encode_sequence(self, len)
    }

    #[inline]
    fn encode_tuple(self, len: usize) -> (r: Result<WireSequenceEncoder<'a, W, I, L>, W::Error>) {
        WireEncoder::encode_tuple(self, len)
    }

    #[inline]
    fn encode_map(self, len: usize) -> (r: Result<WirePairsEncoder<'a, W, I, L>, W::Error>) {
        WireEncoder::encode_map(self, len)
    }

    #[inline]
    fn encode_struct(self, fields: usize) -> (r: Result<WirePairsEncoder<'a, W, I, L>, W::Error>) {
        WireEncoder::encode_struct(self, fields)
    }

    #[inline]
    fn encode_tuple_struct(self, fields: usize) -> (r: Result<WirePairsEncoder<'a, W, I, L>, W::Error>) {
        WireEncoder::encode_tuple_struct(self, fields)
    }

    #[inline]
    fn encode_variant(self) -> (r: Result<WirePairEncoder<'a, W, I, L>, W::Error>) {
        WireEncoder::encode_variant(self)
    }
}

impl<'a, W: Writer, I: TypedIntegerEncoding, L: TypedUsizeEncoding> SequenceEncoder for WireSequenceEncoder<'a, W, I, L> {
    type Ok = ();

    type Error = W::Error;

    #[inline]
    fn push<T: Encode<M>, M>(&mut self, value: &T) -> (r: Result<(), W::Error>) {
        let encoder = WireSequenceEncoder::next(self)?;
        value.encode(encoder)
    }

    #[inline]
    fn end(self) -> Result<(), W::Error> {
        WireSequenceEncoder::end(self)
    }
}

impl<'a, W: Writer, I: TypedIntegerEncoding, L: TypedUsizeEncoding> SequenceEncoder for WirePackEncoder<'a, W, I, L> {
    type Ok = ();

    type Error = W::Error;

    #[inline]
    fn push<T: Encode<M>, M>(&mut self, value: &T) -> (r: Result<(), W::Error>)
        ensures
            *final(self).writer == *old(self).writer,
    {
        let encoder = WirePackEncoder::next(self)?;
        converted(value.encode(encoder))
    }

    #[inline]
    fn end(self) -> Result<(), W::Error> {
        WirePackEncoder::end(self)
    }
}

impl<'a, W: Writer, I: TypedIntegerEncoding, L: TypedUsizeEncoding> PairsEncoder for WirePairsEncoder<'a, W, I, L> {
    type Ok = ();

    type Error = W::Error;

    #[inline]
    fn insert<F: Encode<M>, S: Encode<M>, M>(&mut self, first: &F, second: &S) -> Result<(), W::Error> {
        let mut pair = WirePairsEncoder::next(self)?;
        first.encode(WirePairEncoder::first(&mut pair)?)?;
        second.encode(WirePairEncoder::second(&mut pair)?)?;
        WirePairEncoder::end(pair)
    }

    #[inline]
    fn end(self) -> Result<(), W::Error> {
        WirePairsEncoder::end(self)
    }
}

impl<'a, W: Writer, I: TypedIntegerEncoding, L: TypedUsizeEncoding> PairEncoder for WirePairEncoder<'a, W, I, L> {
    type Ok = ();

    type Error = W::Error;

    #[inline]
    fn insert<F: Encode<M>, S: Encode<M>, M>(self, first: &F, second: &S) -> Result<(), W::Error> {
        let mut pair = self;
        first.encode(WirePairEncoder::first(&mut pair)?)?;
        second.encode(WirePairEncoder::second(&mut pair)?)?;
        WirePairEncoder::end(pair)
    }
}

/// Every kind of value but a tuple struct.
impl<'a, 'de, R: PositionedReader<'de>, I: TypedIntegerEncoding, L: TypedUsizeEncoding> Decoder<'de> for WireDecoder<'a, R, I, L> {
    type Error = R::Error;

    type Pack = WirePackDecoder<'a, R, I, L>;

    type Sequence = RemainingWireDecoder<'a, R, I, L>;

    type Tuple = RemainingWireDecoder<'a, R, I, L>;

    type Map = RemainingWireDecoder<'a, R, I, L>;

    type Some = Self;

    type Struct = RemainingWireDecoder<'a, R, I, L>;

    type Variant = VariantWireDecoder<'a, R, I, L>;

    #[inline]
    fn expecting(&self) -> &'static str {
        "type supported by the wire decoder"
    }

    #[inline]
    fn skip_any(self) -> (r: Result<(), R::Error>) {
        let mut decoder = self;
        WireDecoder::skip_any(&mut decoder)
    }

    #[inline]
    fn decode_unit(self) -> (r: Result<(), R::Error>) {
        WireDecoder::decode_unit(self)
    }

    #[inline]
    fn decode_bool(self) -> (r: Result<bool, R::Error>) {
        WireDecoder::decode_bool(self)
    }

    #[inline]
    fn decode_char(self) -> (r: Result<char, R::Error>) {
        WireDecoder::decode_char(self)
    }

    #[inline]
    fn decode_u8(self) -> (r: Result<u8, R::Error>) {
        WireDecoder::decode_u8(self)
    }

    #[inline]
    fn decode_u16(self) -> (r: Result<u16, R::Error>) {
        WireDecoder::decode_u16(self)
    }

    #[inline]
    fn decode_u32(self) -> (r: Result<u32, R::Error>) {
        WireDecoder::decode_u32(self)
    }

    #[inline]
    fn decode_u64(self) -> (r: Result<u64, R::Error>) {
        WireDecoder::decode_u64(self)
    }

    #[inline]
    fn decode_u128(self) -> (r: Result<u128, R::Error>) {
        WireDecoder::decode_u128(self)
    }

    #[inline]
    fn decode_usize(self) -> (r: Result<usize, R::Error>) {
        WireDecoder::decode_usize(self)
    }

    #[inline]
    fn decode_i8(self) -> (r: Result<i8, R::Error>) {
        WireDecoder::decode_i8(self)
    }

    #[inline]
    fn decode_i16(self) -> (r: Result<i16, R::Error>) {
        WireDecoder::decode_i16(self)
    }

    #[inline]
    fn decode_i32(self) -> (r: Result<i32, R::Error>) {
        WireDecoder::decode_i32(self)
    }

    #[inline]
    fn decode_i64(self) -> (r: Result<i64, R::Error>) {
        WireDecoder::decode_i64(self)
    }

    #[inline]
    fn decode_i128(self) -> (r: Result<i128, R::Error>) {
        WireDecoder::decode_i128(self)
    }

    #[inline]
    fn decode_isize(self) -> (r: Result<isize, R::Error>) {
        WireDecoder::decode_isize(self)
    }

    #[inline]
    fn decode_unit_struct(self) -> (r: Result<(), R::Error>) {
        WireDecoder::decode_unit_struct(self)
    }

    #[inline]
    fn decode_array<const N: usize>(self) -> (r: Result<[u8; N], R::Error>) {
        WireDecoder::decode_array::<N>(self)
    }

    #[inline]
    fn decode_bytes<V: ValueVisitor<'de, Target = [u8]>>(self, visitor: V) -> (r: Result<
        V::Ok,
        R::Error,
    >) {
        let bytes = WireDecoder::decode_bytes(self)?;
        visitor.visit_borrowed(bytes)
    }

    #[inline]
    fn decode_string<V: ValueVisitor<'de, Target = str>>(self, visitor: V) -> (r: Result<
        V::Ok,
        R::Error,
    >) {
        let string = WireDecoder::decode_string(self)?;
        visitor.visit_borrowed(string)
    }

    #[inline]
    fn decode_option(self) -> (r: Result<Option<Self>, R::Error>) {
        WireDecoder::decode_option(self)
    }

    #[inline]
    fn decode_pack(self) -> (r: Result<WirePackDecoder<'a, R, I, L>, R::Error>) {
        WireDecoder::decode_pack(self)
    }

    #[inline]
    fn decode_sequence(self) -> (r: Result<RemainingWireDecoder<'a, R, I, L>, R::Error>) {
        WireDecoder::decode_sequence(self)
    }

    #[inline]
    fn decode_tuple(self, len: usize) -> (r: Result<RemainingWireDecoder<'a, R, I, L>, R::Error>) {
        WireDecoder::decode_tuple(self, len)
    }

    #[inline]
    fn decode_map(self) -> (r: Result<RemainingWireDecoder<'a, R, I, L>, R::Error>) {
        WireDecoder::decode_map(self)
    }

    #[inline]
    fn decode_struct(self, fields: usize) -> (r: Result<RemainingWireDecoder<'a, R, I, L>, R::Error>) {
        WireDecoder::decode_struct(self, fields)
    }

    #[inline]
    fn decode_variant(self) -> (r: Result<VariantWireDecoder<'a, R, I, L>, R::Error>) {
        WireDecoder::decode_variant(self)
    }
}

impl<'a, 'de, R: PositionedReader<'de>, I: TypedIntegerEncoding, L: TypedUsizeEncoding> PackDecoder<'de> for WirePackDecoder<'a, R, I, L> {
    type Error = R::Error;

    open spec fn unpacked(before: Self, after: Self, fault: Option<Cause>) -> bool {
        true
    }

    #[inline]
    fn next<T: Decode<'de, M>, M>(&mut self) -> (r: Result<T, R::Error>) {
        T::decode(WirePackDecoder::next(self)?)
    }
}

/// The content of a variant, which may be empty: every kind of value but a tuple struct.
impl<'a, 'de, R: PositionedReader<'de>, I: TypedIntegerEncoding, L: TypedUsizeEncoding> Decoder<'de> for MaybeWireDecoder<'a, R, I, L> {
    type Error = R::Error;

    type Pack = WirePackDecoder<'a, R, I, L>;

    type Sequence = RemainingWireDecoder<'a, R, I, L>;

    type Tuple = RemainingWireDecoder<'a, R, I, L>;

    type Map = RemainingWireDecoder<'a, R, I, L>;

    type Some = WireDecoder<'a, R, I, L>;

    type Struct = RemainingWireDecoder<'a, R, I, L>;

    type Variant = VariantWireDecoder<'a, R, I, L>;

    #[inline]
    fn expecting(&self) -> &'static str {
        "type supported by the wire decoder of the content of a variant"
    }

    #[inline]
    fn decode_unit(self) -> (r: Result<(), R::Error>) {
        MaybeWireDecoder::decode_unit(self)
    }

    #[inline]
    fn decode_bool(self) -> (r: Result<bool, R::Error>) {
        MaybeWireDecoder::decode_bool(self)
    }

    #[inline]
    fn decode_char(self) -> (r: Result<char, R::Error>) {
        MaybeWireDecoder::decode_char(self)
    }

    #[inline]
    fn decode_u8(self) -> (r: Result<u8, R::Error>) {
        MaybeWireDecoder::decode_u8(self)
    }

    #[inline]
    fn decode_u16(self) -> (r: Result<u16, R::Error>) {
        MaybeWireDecoder::decode_u16(self)
    }

    #[inline]
    fn decode_u32(self) -> (r: Result<u32, R::Error>) {
        MaybeWireDecoder::decode_u32(self)
    }

    #[inline]
    fn decode_u64(self) -> (r: Result<u64, R::Error>) {
        MaybeWireDecoder::decode_u64(self)
    }

    #[inline]
    fn decode_u128(self) -> (r: Result<u128, R::Error>) {
        MaybeWireDecoder::decode_u128(self)
    }

    #[inline]
    fn decode_usize(self) -> (r: Result<usize, R::Error>) {
        MaybeWireDecoder::decode_usize(self)
    }

    #[inline]
    fn decode_i8(self) -> (r: Result<i8, R::Error>) {
        MaybeWireDecoder::decode_i8(self)
    }

    #[inline]
    fn decode_i16(self) -> (r: Result<i16, R::Error>) {
        MaybeWireDecoder::decode_i16(self)
    }

    #[inline]
    fn decode_i32(self) -> (r: Result<i32, R::Error>) {
        MaybeWireDecoder::decode_i32(self)
    }

    #[inline]
    fn decode_i64(self) -> (r: Result<i64, R::Error>) {
        MaybeWireDecoder::decode_i64(self)
    }

    #[inline]
    fn decode_i128(self) -> (r: Result<i128, R::Error>) {
        MaybeWireDecoder::decode_i128(self)
    }

    #[inline]
    fn decode_isize(self) -> (r: Result<isize, R::Error>) {
        MaybeWireDecoder::decode_isize(self)
    }

    #[inline]
    fn decode_unit_struct(self) -> (r: Result<(), R::Error>) {
        MaybeWireDecoder::decode_unit_struct(self)
    }

    #[inline]
    fn decode_array<const N: usize>(self) -> (r: Result<[u8; N], R::Error>) {
        MaybeWireDecoder::decode_array::<N>(self)
    }

    #[inline]
    fn decode_bytes<V: ValueVisitor<'de, Target = [u8]>>(self, visitor: V) -> (r: Result<
        V::Ok,
        R::Error,
    >) {
        let bytes = MaybeWireDecoder::decode_bytes(self)?;
        visitor.visit_borrowed(bytes)
    }

    #[inline]
    fn decode_string<V: ValueVisitor<'de, Target = str>>(self, visitor: V) -> (r: Result<
        V::Ok,
        R::Error,
    >) {
        let string = MaybeWireDecoder::decode_string(self)?;
        visitor.visit_borrowed(string)
    }

    #[inline]
    fn decode_option(self) -> (r: Result<Option<WireDecoder<'a, R, I, L>>, R::Error>) {
        MaybeWireDecoder::decode_option(self)
    }

    #[inline]
    fn decode_pack(self) -> (r: Result<WirePackDecoder<'a, R, I, L>, R::Error>) {
        MaybeWireDecoder::decode_pack(self)
    }

    #[inline]
    fn decode_sequence(self) -> (r: Result<RemainingWireDecoder<'a, R, I, L>, R::Error>) {
        MaybeWireDecoder::decode_sequence(self)
    }

    #[inline]
    fn decode_tuple(self, len: usize) -> (r: Result<RemainingWireDecoder<'a, R, I, L>, R::Error>) {
        MaybeWireDecoder::decode_tuple(self, len)
    }

    #[inline]
    fn decode_map(self) -> (r: Result<RemainingWireDecoder<'a, R, I, L>, R::Error>) {
        MaybeWireDecoder::decode_map(self)
    }

    #[inline]
    fn decode_struct(self, fields: usize) -> (r: Result<RemainingWireDecoder<'a, R, I, L>, R::Error>) {
        MaybeWireDecoder::decode_struct(self, fields)
    }

    #[inline]
    fn decode_variant(self) -> (r: Result<VariantWireDecoder<'a, R, I, L>, R::Error>) {
        MaybeWireDecoder::decode_variant(self)
    }
}

impl<'a, 'de, R: PositionedReader<'de>, I: TypedIntegerEncoding, L: TypedUsizeEncoding> PairDecoder<'de> for WireDecoder<'a, R, I, L> {
    type Error = R::Error;

    #[inline]
    fn first<F: Decode<'de, M>, M>(&mut self) -> Result<F, R::Error> {
        F::decode(WireDecoder::first(self)?)
    }

    #[inline]
    fn second<S: Decode<'de, M>, M>(self) -> Result<S, R::Error> {
        S::decode(WireDecoder::second(self)?)
    }

    #[inline]
    fn skip_second(self) -> Result<bool, R::Error> {
        WireDecoder::skip_second(self)
    }
}

impl<'a, 'de, R: PositionedReader<'de>, I: TypedIntegerEncoding, L: TypedUsizeEncoding> PairDecoder<'de> for VariantWireDecoder<'a, R, I, L> {
    type Error = R::Error;

    #[inline]
    fn first<F: Decode<'de, M>, M>(&mut self) -> Result<F, R::Error> {
        F::decode(VariantWireDecoder::first(self)?)
    }

    #[inline]
    fn second<S: Decode<'de, M>, M>(self) -> Result<S, R::Error> {
        S::decode(VariantWireDecoder::second(self)?)
    }

    #[inline]
    fn skip_second(self) -> Result<bool, R::Error> {
        VariantWireDecoder::skip_second(self)
    }
}

impl<'a, 'de, R: PositionedReader<'de>, I: TypedIntegerEncoding, L: TypedUsizeEncoding> SequenceDecoder<'de> for RemainingWireDecoder<'a, R, I, L> {
    type Error = R::Error;

    open spec fn stepped(before: Self, after: Self, absent: bool, fault: Option<Cause>) -> bool {
        &&& before.remaining == 0 ==> (absent && after.remaining == 0 && *after.decoder.reader
            == *before.decoder.reader)
        &&& before.remaining > 0 ==> (!absent && after.remaining == before.remaining - 1)
    }

    #[inline]
    fn size_hint(&self) -> Option<usize> {
        RemainingWireDecoder::size_hint(self)
    }

    #[inline]
    fn next<T: Decode<'de, M>, M>(&mut self) -> (r: Result<Option<T>, R::Error>) {
        match RemainingWireDecoder::next(self)? {
            Some(decoder) => found(T::decode(decoder)),
            None => Ok(None),
        }
    }
}

impl<'a, 'de, R: PositionedReader<'de>, I: TypedIntegerEncoding, L: TypedUsizeEncoding> PairsDecoder<'de> for RemainingWireDecoder<'a, R, I, L> {
    type Error = R::Error;

    #[inline]
    fn size_hint(&self) -> Option<usize> {
        RemainingWireDecoder::size_hint(self)
    }

    #[inline]
    fn first<F: Decode<'de, M>, M>(&mut self) -> (r: Result<Option<F>, R::Error>)
        ensures
            old(self).remaining == 0 ==> (r matches Ok(None) && final(self).remaining == 0
                && *final(self).decoder.reader == *old(self).decoder.reader),
            old(self).remaining > 0 ==> (!(r matches Ok(None)) && final(self).remaining
                == old(self).remaining - 1),
    {
        match RemainingWireDecoder::next(self)? {
            Some(decoder) => {
                let mut pair = decoder;
                found(F::decode(WireDecoder::first(&mut pair)?))
            },
            None => Ok(None),
        }
    }

    #[inline]
    fn second<S: Decode<'de, M>, M>(&mut self) -> (r: Result<S, R::Error>)
        ensures
            final(self).remaining == old(self).remaining,
    {
        S::decode(WireDecoder::first(&mut self.decoder)?)
    }

    #[inline]
    fn skip_second(&mut self) -> (r: Result<bool, R::Error>)
        ensures
            final(self).remaining == old(self).remaining,
            read_with_at(
                *old(self).decoder.reader,
                *final(self).decoder.reader,
                r,
                skip_read::<L>(old(self).decoder.reader.remaining()),
                |v: bool, m: ()| v,
            ),
    {
        WireDecoder::skip_any(&mut self.decoder)?;
        Ok(true)
    }
}

} // verus!
