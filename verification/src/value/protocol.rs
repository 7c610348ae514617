//! The value encoder and decoder as an encoder and a decoder of the protocol.

use crate::de::{Decode, Decoder, PackDecoder, PairDecoder, PairsDecoder, SequenceDecoder, ValueVisitor};
use crate::en::{Encode, Encoder, PairEncoder, PairsEncoder, SequenceEncoder};
use crate::value::de::{PairValueDecoder, PairsValueDecoder, SequenceValueDecoder, ValueDecoder};
use crate::value::en::{
    PairValueEncoder, PairsValueEncoder, SequenceValueEncoder, ValueEncoder, VariantValueEncoder,
};
use crate::error::{Cause, Error, Message};
use crate::results::found;
use crate::value::ValueError;
use vstd::prelude::*;

verus! {

/// Every kind of value but bytes in several slices.
impl<'a> Encoder for ValueEncoder<'a> {
    type Ok = ();

    type Error = ValueError;

    type Pack = SequenceValueEncoder<'a>;

    type Some = Self;

    type Sequence = SequenceValueEncoder<'a>;

    type Tuple = SequenceValueEncoder<'a>;

    type Map = PairsValueEncoder<'a>;

    type Struct = PairsValueEncoder<'a>;

    type TupleStruct = PairsValueEncoder<'a>;

    type Variant = VariantValueEncoder<'a>;

    #[inline]
    fn expecting(&self) -> &'static str {
        "type supported by the value encoder"
    }

    #[inline]
    fn encode_unit(self) -> (r: Result<(), ValueError>) {
        ValueEncoder::encode_unit(self)
    }

    #[inline]
    fn encode_bool(self, value: bool) -> (r: Result<(), ValueError>) {
        ValueEncoder::encode_bool(self, value)
    }

    #[inline]
    fn encode_char(self, value: char) -> (r: Result<(), ValueError>) {
        ValueEncoder::encode_char(self, value)
    }

    #[inline]
    fn encode_u8(self, value: u8) -> (r: Result<(), ValueError>) {
        ValueEncoder::encode_u8(self, value)
    }

    #[inline]
    fn encode_u16(self, value: u16) -> (r: Result<(), ValueError>) {
        ValueEncoder::encode_u16(self, value)
    }

    #[inline]
    fn encode_u32(self, value: u32) -> (r: Result<(), ValueError>) {
        ValueEncoder::encode_u32(self, value)
    }

    #[inline]
    fn encode_u64(self, value: u64) -> (r: Result<(), ValueError>) {
        ValueEncoder::encode_u64(self, value)
    }

    #[inline]
    fn encode_u128(self, value: u128) -> (r: Result<(), ValueError>) {
        ValueEncoder::encode_u128(self, value)
    }

    #[inline]
    fn encode_usize(self, value: usize) -> (r: Result<(), ValueError>) {
        ValueEncoder::encode_usize(self, value)
    }

    #[inline]
    fn encode_i8(self, value: i8) -> (r: Result<(), ValueError>) {
        ValueEncoder::encode_i8(self, value)
    }

    #[inline]
    fn encode_i16(self, value: i16) -> (r: Result<(), ValueError>) {
        ValueEncoder::encode_i16(self, value)
    }

    #[inline]
    fn encode_i32(self, value: i32) -> (r: Result<(), ValueError>) {
        ValueEncoder::encode_i32(self, value)
    }

    #[inline]
    fn encode_i64(self, value: i64) -> (r: Result<(), ValueError>) {
        ValueEncoder::encode_i64(self, value)
    }

    #[inline]
    fn encode_i128(self, value: i128) -> (r: Result<(), ValueError>) {
        ValueEncoder::encode_i128(self, value)
    }

    #[inline]
    fn encode_isize(self, value: isize) -> (r: Result<(), ValueError>) {
        ValueEncoder::encode_isize(self, value)
    }

    #[inline]
    fn encode_array<const N: usize>(self, array: [u8; N]) -> (r: Result<(), ValueError>) {
        ValueEncoder::encode_array(self, array)
    }

    #[inline]
    fn encode_bytes(self, bytes: &[u8]) -> (r: Result<(), ValueError>) {
        ValueEncoder::encode_bytes(self, bytes)
    }

    #[inline]
    fn encode_string(self, string: &str) -> (r: Result<(), ValueError>) {
        ValueEncoder::encode_string(self, string)
    }

    #[inline]
    fn encode_none(self) -> (r: Result<(), ValueError>) {
        ValueEncoder::encode_none(self)
    }

    #[inline]
    fn encode_unit_struct(self) -> (r: Result<(), ValueError>) {
        ValueEncoder::encode_unit_struct(self)
    }

    #[inline]
    fn encode_some(self) -> (r: Result<Self, ValueError>) {
        ValueEncoder::encode_some(self)
    }

    #[inline]
    fn encode_pack(self) -> (r: Result<SequenceValueEncoder<'a>, ValueError>) {
        ValueEncoder::encode_pack(self)
    }

    #[inline]
    fn encode_sequence(self, len: usize) -> (r: Result<SequenceValueEncoder<'a>, ValueError>) {
        ValueEncoder::encode_sequence(self, len)
    }

    #[inline]
    fn encode_tuple(self, len: usize) -> (r: Result<SequenceValueEncoder<'a>, ValueError>) {
        ValueEncoder::encode_tuple(self, len)
    }

    #[inline]
    fn encode_map(self, len: usize) -> (r: Result<PairsValueEncoder<'a>, ValueError>) {
        ValueEncoder::encode_map(self, len)
    }

    #[inline]
    fn encode_struct(self, fields: usize) -> (r: Result<PairsValueEncoder<'a>, ValueError>) {
        ValueEncoder::encode_struct(self, fields)
    }

    #[inline]
    fn encode_tuple_struct(self, fields: usize) -> (r: Result<PairsValueEncoder<'a>, ValueError>) {
        ValueEncoder::encode_tuple_struct(self, fields)
    }

    #[inline]
    fn encode_variant(self) -> (r: Result<VariantValueEncoder<'a>, ValueError>) {
        ValueEncoder::encode_variant(self)
    }
}

impl<'a> SequenceEncoder for SequenceValueEncoder<'a> {
    type Ok = ();

    type Error = ValueError;

    #[inline]
    fn push<T: Encode<M>, M>(&mut self, value: &T) -> (r: Result<(), ValueError>)
        ensures
            final(self).values@.len() == old(self).values@.len() + 1,
            final(self).values@.drop_last() == old(self).values@,
            *final(self).output == *old(self).output,
    {
        let encoder = SequenceValueEncoder::next(self)?;
        let r = value.encode(encoder);
        assert(self.values@.drop_last() == old(self).values@);
        r
    }

    #[inline]
    fn end(self) -> Result<(), ValueError> {
        SequenceValueEncoder::end(self)
    }
}

impl<'a> PairsEncoder for PairsValueEncoder<'a> {
    type Ok = ();

    type Error = ValueError;

    #[inline]
    fn insert<F: Encode<M>, S: Encode<M>, M>(&mut self, first: &F, second: &S) -> (r: Result<
        (),
        ValueError,
    >)
        ensures
            final(self).pairs@.len() == old(self).pairs@.len() + 1,
            final(self).pairs@.drop_last() == old(self).pairs@,
            *final(self).output == *old(self).output,
    {
        let r = insert_pair(PairsValueEncoder::next(self)?, first, second);
        assert(self.pairs@.drop_last() == old(self).pairs@);
        r
    }

    #[inline]
    fn end(self) -> Result<(), ValueError> {
        PairsValueEncoder::end(self)
    }
}

/// Encode the two values of a pair into the place of the pair.
fn insert_pair<'a, F: Encode<M>, S: Encode<M>, M>(pair: PairValueEncoder<'a>, first: &F, second: &S) -> (r:
    Result<(), ValueError>) {
    let mut pair = pair;
    first.encode(PairValueEncoder::first(&mut pair)?)?;
    second.encode(PairValueEncoder::second(&mut pair)?)?;
    PairValueEncoder::end(pair)
}

impl<'a> PairEncoder for VariantValueEncoder<'a> {
    type Ok = ();

    type Error = ValueError;

    #[inline]
    fn insert<F: Encode<M>, S: Encode<M>, M>(self, first: &F, second: &S) -> (r: Result<(), ValueError>)
        ensures
            r is Ok ==> final(self.output)@ is Variant,
            r is Err ==> *final(self.output) == *old(self.output),
    {
        let mut pair = self;
        first.encode(VariantValueEncoder::first(&mut pair)?)?;
        second.encode(VariantValueEncoder::second(&mut pair)?)?;
        VariantValueEncoder::end(pair)
    }
}

/// Every kind of value but a tuple struct.
impl<'de> Decoder<'de> for ValueDecoder<'de> {
    type Error = ValueError;

    type Pack = SequenceValueDecoder<'de>;

    type Sequence = SequenceValueDecoder<'de>;

    type Tuple = SequenceValueDecoder<'de>;

    type Map = PairsValueDecoder<'de>;

    type Some = Self;

    type Struct = PairsValueDecoder<'de>;

    type Variant = PairValueDecoder<'de>;

    #[inline]
    fn expecting(&self) -> &'static str {
        "type supported by the value decoder"
    }

    #[inline]
    fn decode_unit(self) -> (r: Result<(), ValueError>) {
        ValueDecoder::decode_unit(self)
    }

    #[inline]
    fn decode_bool(self) -> (r: Result<bool, ValueError>) {
        ValueDecoder::decode_bool(self)
    }

    #[inline]
    fn decode_char(self) -> (r: Result<char, ValueError>) {
        ValueDecoder::decode_char(self)
    }

    #[inline]
    fn decode_u8(self) -> (r: Result<u8, ValueError>) {
        ValueDecoder::decode_u8(self)
    }

    #[inline]
    fn decode_u16(self) -> (r: Result<u16, ValueError>) {
        ValueDecoder::decode_u16(self)
    }

    #[inline]
    fn decode_u32(self) -> (r: Result<u32, ValueError>) {
        ValueDecoder::decode_u32(self)
    }

    #[inline]
    fn decode_u64(self) -> (r: Result<u64, ValueError>) {
        ValueDecoder::decode_u64(self)
    }

    #[inline]
    fn decode_u128(self) -> (r: Result<u128, ValueError>) {
        ValueDecoder::decode_u128(self)
    }

    #[inline]
    fn decode_usize(self) -> (r: Result<usize, ValueError>) {
        ValueDecoder::decode_usize(self)
    }

    #[inline]
    fn decode_i8(self) -> (r: Result<i8, ValueError>) {
        ValueDecoder::decode_i8(self)
    }

    #[inline]
    fn decode_i16(self) -> (r: Result<i16, ValueError>) {
        ValueDecoder::decode_i16(self)
    }

    #[inline]
    fn decode_i32(self) -> (r: Result<i32, ValueError>) {
        ValueDecoder::decode_i32(self)
    }

    #[inline]
    fn decode_i64(self) -> (r: Result<i64, ValueError>) {
        ValueDecoder::decode_i64(self)
    }

    #[inline]
    fn decode_i128(self) -> (r: Result<i128, ValueError>) {
        ValueDecoder::decode_i128(self)
    }

    #[inline]
    fn decode_isize(self) -> (r: Result<isize, ValueError>) {
        ValueDecoder::decode_isize(self)
    }

    #[inline]
    fn decode_unit_struct(self) -> (r: Result<(), ValueError>) {
        ValueDecoder::decode_unit_struct(self)
    }

    #[inline]
    fn decode_array<const N: usize>(self) -> (r: Result<[u8; N], ValueError>) {
        ValueDecoder::decode_array::<N>(self)
    }

    #[inline]
    fn decode_bytes<V: ValueVisitor<'de, Target = [u8]>>(self, visitor: V) -> (r: Result<
        V::Ok,
        ValueError,
    >) {
        let bytes = ValueDecoder::decode_bytes(self)?;
        visitor.visit_borrowed(bytes)
    }

    #[inline]
    fn decode_string<V: ValueVisitor<'de, Target = str>>(self, visitor: V) -> (r: Result<
        V::Ok,
        ValueError,
    >) {
        let string = ValueDecoder::decode_string(self)?;
        visitor.visit_borrowed(string)
    }

    #[inline]
    fn decode_option(self) -> (r: Result<Option<Self>, ValueError>) {
        ValueDecoder::decode_option(self)
    }

    #[inline]
    fn decode_pack(self) -> (r: Result<SequenceValueDecoder<'de>, ValueError>) {
        ValueDecoder::decode_pack(self)
    }

    #[inline]
    fn decode_sequence(self) -> (r: Result<SequenceValueDecoder<'de>, ValueError>) {
        ValueDecoder::decode_sequence(self)
    }

    #[inline]
    fn decode_tuple(self, len: usize) -> (r: Result<SequenceValueDecoder<'de>, ValueError>) {
        ValueDecoder::decode_tuple(self, len)
    }

    #[inline]
    fn decode_map(self) -> (r: Result<PairsValueDecoder<'de>, ValueError>) {
        ValueDecoder::decode_map(self)
    }

    #[inline]
    fn decode_struct(self, fields: usize) -> (r: Result<PairsValueDecoder<'de>, ValueError>) {
        ValueDecoder::decode_struct(self, fields)
    }

    #[inline]
    fn decode_variant(self) -> (r: Result<PairValueDecoder<'de>, ValueError>) {
        ValueDecoder::decode_variant(self)
    }
}

impl<'de> PackDecoder<'de> for SequenceValueDecoder<'de> {
    type Error = ValueError;

    open spec fn unpacked(before: Self, after: Self, fault: Option<Cause>) -> bool {
        &&& after.values == before.values
        &&& before.index >= before.values@.len() ==> (fault == Some(
            Cause::Message(Message::EmptyValue),
        ) && after.index == before.index)
        &&& before.index < before.values@.len() ==> after.index == before.index + 1
    }

    #[inline]
    fn next<T: Decode<'de, M>, M>(&mut self) -> (r: Result<T, ValueError>) {
        match SequenceValueDecoder::next(self)? {
            Some(decoder) => T::decode(decoder),
            None => Err(<ValueError as Error>::message(Message::EmptyValue)),
        }
    }
}

impl<'de> PairDecoder<'de> for PairValueDecoder<'de> {
    type Error = ValueError;

    #[inline]
    fn first<F: Decode<'de, M>, M>(&mut self) -> Result<F, ValueError> {
        F::decode(PairValueDecoder::first(self)?)
    }

    #[inline]
    fn second<S: Decode<'de, M>, M>(self) -> Result<S, ValueError> {
        S::decode(PairValueDecoder::second(self)?)
    }

    #[inline]
    fn skip_second(self) -> Result<bool, ValueError> {
        PairValueDecoder::skip_second(self)
    }
}

impl<'de> SequenceDecoder<'de> for SequenceValueDecoder<'de> {
    type Error = ValueError;

    open spec fn stepped(before: Self, after: Self, absent: bool, fault: Option<Cause>) -> bool {
        &&& after.values == before.values
        &&& before.index >= before.values@.len() ==> (absent && after.index == before.index)
        &&& before.index < before.values@.len() ==> (!absent && after.index == before.index + 1)
    }

    #[inline]
    fn size_hint(&self) -> Option<usize> {
        Some(SequenceValueDecoder::size_hint(self))
    }

    #[inline]
    fn next<T: Decode<'de, M>, M>(&mut self) -> (r: Result<Option<T>, ValueError>) {
        match SequenceValueDecoder::next(self)? {
            Some(decoder) => found(T::decode(decoder)),
            None => Ok(None),
        }
    }
}

impl<'de> PairsDecoder<'de> for PairsValueDecoder<'de> {
    type Error = ValueError;

    #[inline]
    fn size_hint(&self) -> Option<usize> {
        Some(PairsValueDecoder::size_hint(self))
    }

    #[inline]
    fn first<F: Decode<'de, M>, M>(&mut self) -> (r: Result<Option<F>, ValueError>)
        ensures
            final(self).pairs == old(self).pairs,
            final(self).index == old(self).index,
            old(self).index >= old(self).pairs@.len() ==> r matches Ok(None),
            old(self).index < old(self).pairs@.len() ==> !(r matches Ok(None)),
    {
        if self.index < self.pairs.len() {
            found(F::decode(ValueDecoder::new(&self.pairs[self.index].0)))
        } else {
            Ok(None)
        }
    }

    #[inline]
    fn second<S: Decode<'de, M>, M>(&mut self) -> (r: Result<S, ValueError>)
        ensures
            final(self).pairs == old(self).pairs,
            old(self).index >= old(self).pairs@.len() ==> (r matches Err(e) && e.cause() == Cause::Message(
                Message::EmptyValue,
            ) && final(self).index == old(self).index),
            old(self).index < old(self).pairs@.len() ==> final(self).index == old(self).index + 1,
    {
        if self.index < self.pairs.len() {
            let value = &self.pairs[self.index].1;
            self.index = self.index + 1;
            S::decode(ValueDecoder::new(value))
        } else {
            Err(<ValueError as Error>::message(Message::EmptyValue))
        }
    }

    #[inline]
    fn skip_second(&mut self) -> (r: Result<bool, ValueError>)
        ensures
            r matches Ok(true),
            final(self).pairs == old(self).pairs,
            old(self).index >= old(self).pairs@.len() ==> final(self).index == old(self).index,
            old(self).index < old(self).pairs@.len() ==> final(self).index == old(self).index + 1,
    {
        if self.index < self.pairs.len() {
            self.index = self.index + 1;
        }
        Ok(true)
    }
}

} // verus!
