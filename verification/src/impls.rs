//! How the types of the language are encoded and decoded.

use crate::de::{Decode, Decoder, ValueVisitor};
use crate::en::{Encode, Encoder};
use crate::error::Error;
use vstd::prelude::*;
use vstd::slice::slice_to_vec;

verus! {

impl<Mode> Encode<Mode> for () {
    #[inline]
    fn encode<E: Encoder>(&self, encoder: E) -> Result<E::Ok, E::Error> {
        encoder.encode_unit()
    }
}

impl<'de, Mode> Decode<'de, Mode> for () {
    #[inline]
    fn decode<D: Decoder<'de>>(decoder: D) -> Result<Self, D::Error> {
        decoder.decode_unit()
    }
}

impl<Mode> Encode<Mode> for bool {
    #[inline]
    fn encode<E: Encoder>(&self, encoder: E) -> Result<E::Ok, E::Error> {
        encoder.encode_bool(*self)
    }
}

impl<'de, Mode> Decode<'de, Mode> for bool {
    #[inline]
    fn decode<D: Decoder<'de>>(decoder: D) -> Result<Self, D::Error> {
        decoder.decode_bool()
    }
}

impl<Mode> Encode<Mode> for char {
    #[inline]
    fn encode<E: Encoder>(&self, encoder: E) -> Result<E::Ok, E::Error> {
        encoder.encode_char(*self)
    }
}

impl<'de, Mode> Decode<'de, Mode> for char {
    #[inline]
    fn decode<D: Decoder<'de>>(decoder: D) -> Result<Self, D::Error> {
        decoder.decode_char()
    }
}

impl<Mode> Encode<Mode> for u8 {
    #[inline]
    fn encode<E: Encoder>(&self, encoder: E) -> Result<E::Ok, E::Error> {
        encoder.encode_u8(*self)
    }
}

impl<'de, Mode> Decode<'de, Mode> for u8 {
    #[inline]
    fn decode<D: Decoder<'de>>(decoder: D) -> Result<Self, D::Error> {
        decoder.decode_u8()
    }
}

impl<Mode> Encode<Mode> for u16 {
    #[inline]
    fn encode<E: Encoder>(&self, encoder: E) -> Result<E::Ok, E::Error> {
        encoder.encode_u16(*self)
    }
}

impl<'de, Mode> Decode<'de, Mode> for u16 {
    #[inline]
    fn decode<D: Decoder<'de>>(decoder: D) -> Result<Self, D::Error> {
        decoder.decode_u16()
    }
}

impl<Mode> Encode<Mode> for u32 {
    #[inline]
    fn encode<E: Encoder>(&self, encoder: E) -> Result<E::Ok, E::Error> {
        encoder.encode_u32(*self)
    }
}

impl<'de, Mode> Decode<'de, Mode> for u32 {
    #[inline]
    fn decode<D: Decoder<'de>>(decoder: D) -> Result<Self, D::Error> {
        decoder.decode_u32()
    }
}

impl<Mode> Encode<Mode> for u64 {
    #[inline]
    fn encode<E: Encoder>(&self, encoder: E) -> Result<E::Ok, E::Error> {
        encoder.encode_u64(*self)
    }
}

impl<'de, Mode> Decode<'de, Mode> for u64 {
    #[inline]
    fn decode<D: Decoder<'de>>(decoder: D) -> Result<Self, D::Error> {
        decoder.decode_u64()
    }
}

impl<Mode> Encode<Mode> for u128 {
    #[inline]
    fn encode<E: Encoder>(&self, encoder: E) -> Result<E::Ok, E::Error> {
        encoder.encode_u128(*self)
    }
}

impl<'de, Mode> Decode<'de, Mode> for u128 {
    #[inline]
    fn decode<D: Decoder<'de>>(decoder: D) -> Result<Self, D::Error> {
        decoder.decode_u128()
    }
}

impl<Mode> Encode<Mode> for usize {
    #[inline]
    fn encode<E: Encoder>(&self, encoder: E) -> Result<E::Ok, E::Error> {
        encoder.encode_usize(*self)
    }
}

impl<'de, Mode> Decode<'de, Mode> for usize {
    #[inline]
    fn decode<D: Decoder<'de>>(decoder: D) -> Result<Self, D::Error> {
        decoder.decode_usize()
    }
}

impl<Mode> Encode<Mode> for i8 {
    #[inline]
    fn encode<E: Encoder>(&self, encoder: E) -> Result<E::Ok, E::Error> {
        encoder.encode_i8(*self)
    }
}

impl<'de, Mode> Decode<'de, Mode> for i8 {
    #[inline]
    fn decode<D: Decoder<'de>>(decoder: D) -> Result<Self, D::Error> {
        decoder.decode_i8()
    }
}

impl<Mode> Encode<Mode> for i16 {
    #[inline]
    fn encode<E: Encoder>(&self, encoder: E) -> Result<E::Ok, E::Error> {
        encoder.encode_i16(*self)
    }
}

impl<'de, Mode> Decode<'de, Mode> for i16 {
    #[inline]
    fn decode<D: Decoder<'de>>(decoder: D) -> Result<Self, D::Error> {
        decoder.decode_i16()
    }
}

impl<Mode> Encode<Mode> for i32 {
    #[inline]
    fn encode<E: Encoder>(&self, encoder: E) -> Result<E::Ok, E::Error> {
        encoder.encode_i32(*self)
    }
}

impl<'de, Mode> Decode<'de, Mode> for i32 {
    #[inline]
    fn decode<D: Decoder<'de>>(decoder: D) -> Result<Self, D::Error> {
        decoder.decode_i32()
    }
}

impl<Mode> Encode<Mode> for i64 {
    #[inline]
    fn encode<E: Encoder>(&self, encoder: E) -> Result<E::Ok, E::Error> {
        encoder.encode_i64(*self)
    }
}

impl<'de, Mode> Decode<'de, Mode> for i64 {
    #[inline]
    fn decode<D: Decoder<'de>>(decoder: D) -> Result<Self, D::Error> {
        decoder.decode_i64()
    }
}

impl<Mode> Encode<Mode> for i128 {
    #[inline]
    fn encode<E: Encoder>(&self, encoder: E) -> Result<E::Ok, E::Error> {
        encoder.encode_i128(*self)
    }
}

impl<'de, Mode> Decode<'de, Mode> for i128 {
    #[inline]
    fn decode<D: Decoder<'de>>(decoder: D) -> Result<Self, D::Error> {
        decoder.decode_i128()
    }
}

impl<Mode> Encode<Mode> for isize {
    #[inline]
    fn encode<E: Encoder>(&self, encoder: E) -> Result<E::Ok, E::Error> {
        encoder.encode_isize(*self)
    }
}

impl<'de, Mode> Decode<'de, Mode> for isize {
    #[inline]
    fn decode<D: Decoder<'de>>(decoder: D) -> Result<Self, D::Error> {
        decoder.decode_isize()
    }
}

impl<Mode, const N: usize> Encode<Mode> for [u8; N] {
    #[inline]
    fn encode<E: Encoder>(&self, encoder: E) -> Result<E::Ok, E::Error> {
        encoder.encode_array(*self)
    }
}

impl<'de, Mode, const N: usize> Decode<'de, Mode> for [u8; N] {
    #[inline]
    fn decode<D: Decoder<'de>>(decoder: D) -> Result<Self, D::Error> {
        decoder.decode_array::<N>()
    }
}

impl<Mode> Encode<Mode> for String {
    #[inline]
    fn encode<E: Encoder>(&self, encoder: E) -> Result<E::Ok, E::Error> {
        encoder.encode_string(self.as_str())
    }
}

/// The visitor that makes a string of its own out of the one it visits.
pub struct StringVisitor;

impl<'de> ValueVisitor<'de> for StringVisitor {
    type Target = str;

    type Ok = String;

    #[inline]
    fn visit_ref<E: Error>(self, value: &str) -> (r: Result<String, E>)
        ensures
            r matches Ok(string) && string@ == value@,
    {
        Ok(value.to_owned())
    }
}

impl<'de, Mode> Decode<'de, Mode> for String {
    #[inline]
    fn decode<D: Decoder<'de>>(decoder: D) -> Result<Self, D::Error> {
        decoder.decode_string(StringVisitor)
    }
}

impl<Mode> Encode<Mode> for Vec<u8> {
    #[inline]
    fn encode<E: Encoder>(&self, encoder: E) -> Result<E::Ok, E::Error> {
        encoder.encode_bytes(self.as_slice())
    }
}

/// The visitor that makes a vector of its own out of the bytes it visits.
pub struct BytesVisitor;

impl<'de> ValueVisitor<'de> for BytesVisitor {
    type Target = [u8];

    type Ok = Vec<u8>;

    #[inline]
    fn visit_ref<E: Error>(self, value: &[u8]) -> (r: Result<Vec<u8>, E>)
        ensures
            r matches Ok(bytes) && bytes@ == value@,
    {
        Ok(slice_to_vec(value))
    }
}

impl<'de, Mode> Decode<'de, Mode> for Vec<u8> {
    #[inline]
    fn decode<D: Decoder<'de>>(decoder: D) -> Result<Self, D::Error> {
        decoder.decode_bytes(BytesVisitor)
    }
}

} // verus!
