//! Default encoding of the JSON format.
//!
//! What is written for a value, and what is read for one, is decided by
//! how its type implements [`Encode`] and [`Decode`]: the functions here
//! hand the encoder or decoder of the format to that implementation and
//! return what it returns.

use crate::de::Decode;
use crate::en::Encode;
use crate::json::de::JsonDecoder;
use crate::json::en::JsonEncoder;
use crate::json::protocol::JsonError;
use crate::json::reader::{Parser, SliceParser};
use crate::results::kept;
use crate::writer::{FixedBytes, FixedBytesWriterError, VecWriterError, Writer};
use vstd::prelude::*;

verus! {

/// Encode the given value to the given [Writer] as a JSON text.
#[inline]
pub fn encode<W: Writer, T: Encode>(writer: &mut W, value: &T) -> Result<(), W::Error> {
    value.encode(JsonEncoder::<W>::new(writer))
}

/// Encode the given value to a [`Vec`] as a JSON text: what the encoder has
/// written into a vector that was empty.
#[inline]
pub fn to_vec<T: Encode>(value: &T) -> Result<Vec<u8>, VecWriterError> {
    let mut data: Vec<u8> = Vec::new();
    let r = value.encode(JsonEncoder::<Vec<u8>>::new(&mut data));
    kept(r, data)
}

/// Encode the given value to a fixed-size bytes as a JSON text: what the
/// encoder has written into bytes that were empty, where it came by with
/// the `N` bytes there are.
#[inline]
pub fn to_fixed_bytes<const N: usize, T: Encode>(value: &T) -> Result<
    FixedBytes<N>,
    FixedBytesWriterError,
> {
    let mut bytes = FixedBytes::<N>::new();
    let r = value.encode(JsonEncoder::<FixedBytes<N>>::new(&mut bytes));
    kept(r, bytes)
}

/// Decode the given type `T` from the JSON text that the given [Parser]
/// reads.
#[inline]
pub fn decode<'de, P: Parser<'de>, T: Decode<'de>>(parser: &mut P) -> Result<T, JsonError> {
    let mut scratch: Vec<u8> = Vec::new();
    T::decode(JsonDecoder::<P>::new(&mut scratch, parser))
}

/// Decode the given type `T` from the JSON text in the given slice.
#[inline]
pub fn from_slice<'de, T: Decode<'de>>(bytes: &'de [u8]) -> Result<T, JsonError> {
    let mut scratch: Vec<u8> = Vec::new();
    let mut parser = SliceParser::new(bytes);
    T::decode(JsonDecoder::<SliceParser<'de>>::new(&mut scratch, &mut parser))
}

} // verus!
