//! The decoder that walks a value in memory.

use crate::error::{Error, Expecting, Message};
use crate::text::array_from_slice;
use crate::value::{lemma_mapping, lemma_sequence, pair_trees, trees, Tree, Value, ValueError};
use vstd::prelude::*;

verus! {

/// The number that a value holds, where it holds one.
pub open spec fn number(tree: Tree) -> Option<int> {
    match tree {
        Tree::Unsigned(value) => Some(value as int),
        Tree::Signed(value) => Some(value as int),
        _ => None,
    }
}

/// What comes of decoding a number between `min` and `max` out of a value:
/// the number that the value holds, where it holds one and the number lies
/// between the two.
pub open spec fn ranged(tree: Tree, min: int, max: int, expected: Expecting) -> Result<
    int,
    Message,
> {
    match number(tree) {
        Some(value) => if min <= value <= max {
            Ok(value)
        } else {
            Err(Message::IntegerOverflow)
        },
        None => Err(Message::Mismatch { expected }),
    }
}

/// Whether a decoder reports that the value is of another kind than the
/// one asked for.
pub open spec fn mismatch<T>(r: Result<T, ValueError>, expected: Expecting) -> bool {
    r matches Err(e) && e.cause() == crate::error::Cause::Message(Message::Mismatch { expected })
}

/// A number that an encoder stored as an unsigned number is decoded again
/// as any type that holds it.
pub proof fn lemma_unsigned_round_trip(value: u128, min: int, max: int, expected: Expecting)
    requires
        min <= value <= max,
    ensures
        ranged(Tree::Unsigned(value), min, max, expected) == Ok::<int, Message>(value as int),
{
}

/// A number that an encoder stored as a signed number is decoded again as
/// any type that holds it.
pub proof fn lemma_signed_round_trip(value: i128, min: int, max: int, expected: Expecting)
    requires
        min <= value <= max,
    ensures
        ranged(Tree::Signed(value), min, max, expected) == Ok::<int, Message>(value as int),
{
}

/// Decode a number that is no less than zero and no more than `max`.
pub fn decode_unsigned(value: &Value, max: u128, expected: Expecting) -> (r: Result<
    u128,
    ValueError,
>)
    ensures
        match ranged(value@, 0, max as int, expected) {
            Ok(number) => r matches Ok(v) && v == number,
            Err(message) => r matches Err(e) && e.cause() == crate::error::Cause::Message(message),
        },
{
    match value {
        Value::Unsigned(number) => {
            if *number <= max {
                Ok(*number)
            } else {
                Err(ValueError::message(Message::IntegerOverflow))
            }
        },
        Value::Signed(number) => {
            if *number >= 0 && (*number as u128) <= max {
                Ok(*number as u128)
            } else {
                Err(ValueError::message(Message::IntegerOverflow))
            }
        },
        _ => Err(ValueError::message(Message::Mismatch { expected })),
    }
}

/// Decode a number that is no less than `min` and no more than `max`.
pub fn decode_signed(value: &Value, min: i128, max: i128, expected: Expecting) -> (r: Result<
    i128,
    ValueError,
>)
    requires
        min <= 0 <= max,
    ensures
        match ranged(value@, min as int, max as int, expected) {
            Ok(number) => r matches Ok(v) && v == number,
            Err(message) => r matches Err(e) && e.cause() == crate::error::Cause::Message(message),
        },
{
    match value {
        Value::Unsigned(number) => {
            if *number <= max as u128 {
                Ok(*number as i128)
            } else {
                Err(ValueError::message(Message::IntegerOverflow))
            }
        },
        Value::Signed(number) => {
            if min <= *number && *number <= max {
                Ok(*number)
            } else {
                Err(ValueError::message(Message::IntegerOverflow))
            }
        },
        _ => Err(ValueError::message(Message::Mismatch { expected })),
    }
}

/// Decoder for a single value, which it reads in the place that it holds.
pub struct ValueDecoder<'de> {
    /// The value.
    pub value: &'de Value,
}

/// Decoder for a sequence: it hands out the elements one after the other.
pub struct SequenceValueDecoder<'de> {
    /// The elements of the sequence.
    pub values: &'de Vec<Value>,
    /// How many of them were handed out.
    pub index: usize,
}

/// Decoder for a sequence of pairs: it hands out the pairs one after the
/// other.
pub struct PairsValueDecoder<'de> {
    /// The pairs of the sequence.
    pub pairs: &'de Vec<(Value, Value)>,
    /// How many of them were handed out.
    pub index: usize,
}

/// Decoder for one pair: a pair of a sequence of pairs, or the tag and the
/// content of a variant.
pub struct PairValueDecoder<'de> {
    /// The pair.
    pub pair: &'de (Value, Value),
}

impl<'de> SequenceValueDecoder<'de> {
    /// The number of elements that are left.
    #[inline]
    pub fn size_hint(&self) -> (n: usize)
        ensures
            n == self.values@.len() - self.index || (self.index > self.values@.len() && n == 0),
    {
        if self.index <= self.values.len() {
            self.values.len() - self.index
        } else {
            0
        }
    }

    /// Decode the next element: the decoder of the element that follows
    /// those handed out, as long as there is one.
    #[inline]
    pub fn next(&mut self) -> (r: Result<Option<ValueDecoder<'de>>, ValueError>)
        ensures
            final(self).values == old(self).values,
            old(self).index < old(self).values@.len() ==> (r matches Ok(Some(decoder))
                && *decoder.value == old(self).values@[old(self).index as int] && final(self).index
                == old(self).index + 1),
            old(self).index >= old(self).values@.len() ==> (r matches Ok(None) && final(self).index
                == old(self).index),
    {
        if self.index < self.values.len() {
            let value = &self.values[self.index];
            self.index = self.index + 1;
            Ok(Some(ValueDecoder { value }))
        } else {
            Ok(None)
        }
    }
}

impl<'de> PairsValueDecoder<'de> {
    /// The number of pairs that are left.
    #[inline]
    pub fn size_hint(&self) -> (n: usize)
        ensures
            n == self.pairs@.len() - self.index || (self.index > self.pairs@.len() && n == 0),
    {
        if self.index <= self.pairs.len() {
            self.pairs.len() - self.index
        } else {
            0
        }
    }

    /// Decode the next pair: the decoder of the pair that follows those
    /// handed out, as long as there is one.
    #[inline]
    pub fn next(&mut self) -> (r: Result<Option<PairValueDecoder<'de>>, ValueError>)
        ensures
            final(self).pairs == old(self).pairs,
            old(self).index < old(self).pairs@.len() ==> (r matches Ok(Some(decoder))
                && *decoder.pair == old(self).pairs@[old(self).index as int] && final(self).index
                == old(self).index + 1),
            old(self).index >= old(self).pairs@.len() ==> (r matches Ok(None) && final(self).index
                == old(self).index),
    {
        if self.index < self.pairs.len() {
            let pair = &self.pairs[self.index];
            self.index = self.index + 1;
            Ok(Some(PairValueDecoder { pair }))
        } else {
            Ok(None)
        }
    }
}

impl<'de> PairValueDecoder<'de> {
    /// Return the decoder for the first value in the pair.
    #[inline]
    pub fn first(&mut self) -> (r: Result<ValueDecoder<'de>, ValueError>)
        ensures
            final(self).pair == old(self).pair,
            r matches Ok(decoder) && *decoder.value == old(self).pair.0,
    {
        Ok(ValueDecoder { value: &self.pair.0 })
    }

    /// Decode the second value in the pair.
    #[inline]
    pub fn second(self) -> (r: Result<ValueDecoder<'de>, ValueError>)
        ensures
            r matches Ok(decoder) && *decoder.value == self.pair.1,
    {
        Ok(ValueDecoder { value: &self.pair.1 })
    }

    /// Indicate that the second value should be skipped, which it always
    /// can be.
    #[inline]
    pub fn skip_second(self) -> (r: Result<bool, ValueError>)
        ensures
            r == Ok::<bool, ValueError>(true),
    {
        Ok(true)
    }
}

impl<'de> ValueDecoder<'de> {
    /// Construct a new decoder of the given value.
    #[inline]
    pub fn new(value: &'de Value) -> (decoder: Self)
        ensures
            decoder.value == value,
    {
        Self { value }
    }

    /// Decode a unit.
    #[inline]
    pub fn decode_unit(self) -> (r: Result<(), ValueError>)
        ensures
            self.value@ == Tree::Unit ==> r is Ok,
            self.value@ != Tree::Unit ==> mismatch(r, Expecting::Unit),
    {
        match self.value {
            Value::Unit => Ok(()),
            _ => Err(ValueError::message(Message::Mismatch { expected: Expecting::Unit })),
        }
    }

    /// Decode a unit struct, which is a unit.
    #[inline]
    pub fn decode_unit_struct(self) -> (r: Result<(), ValueError>)
        ensures
            self.value@ == Tree::Unit ==> r is Ok,
            self.value@ != Tree::Unit ==> mismatch(r, Expecting::UnitStruct),
    {
        match self.value {
            Value::Unit => Ok(()),
            _ => Err(ValueError::message(Message::Mismatch { expected: Expecting::UnitStruct })),
        }
    }

    /// Decode a boolean.
    #[inline]
    pub fn decode_bool(self) -> (r: Result<bool, ValueError>)
        ensures
            self.value@ matches Tree::Bool(value) ==> r == Ok::<bool, ValueError>(value),
            !(self.value@ is Bool) ==> mismatch(r, Expecting::Bool),
    {
        match self.value {
            Value::Bool(value) => Ok(*value),
            _ => Err(ValueError::message(Message::Mismatch { expected: Expecting::Bool })),
        }
    }

    /// Decode a character.
    #[inline]
    pub fn decode_char(self) -> (r: Result<char, ValueError>)
        ensures
            self.value@ matches Tree::Char(value) ==> r == Ok::<char, ValueError>(value),
            !(self.value@ is Char) ==> mismatch(r, Expecting::Char),
    {
        match self.value {
            Value::Char(value) => Ok(*value),
            _ => Err(ValueError::message(Message::Mismatch { expected: Expecting::Char })),
        }
    }

    /// Decode an 8-bit unsigned integer: the number that the value holds,
    /// where the type holds it too.
    #[inline]
    pub fn decode_u8(self) -> (r: Result<u8, ValueError>)
        ensures
            match ranged(self.value@, 0, u8::MAX as int, Expecting::Unsigned8) {
                Ok(number) => r matches Ok(v) && v == number,
                Err(message) => r matches Err(e) && e.cause() == crate::error::Cause::Message(
                    message,
                ),
            },
    {
        match decode_unsigned(self.value, u8::MAX as u128, Expecting::Unsigned8) {
            Ok(value) => Ok(value as u8),
            Err(e) => Err(e),
        }
    }

    /// Decode a 16-bit unsigned integer: the number that the value holds,
    /// where the type holds it too.
    #[inline]
    pub fn decode_u16(self) -> (r: Result<u16, ValueError>)
        ensures
            match ranged(self.value@, 0, u16::MAX as int, Expecting::Unsigned16) {
                Ok(number) => r matches Ok(v) && v == number,
                Err(message) => r matches Err(e) && e.cause() == crate::error::Cause::Message(
                    message,
                ),
            },
    {
        match decode_unsigned(self.value, u16::MAX as u128, Expecting::Unsigned16) {
            Ok(value) => Ok(value as u16),
            Err(e) => Err(e),
        }
    }

    /// Decode a 32-bit unsigned integer: the number that the value holds,
    /// where the type holds it too.
    #[inline]
    pub fn decode_u32(self) -> (r: Result<u32, ValueError>)
        ensures
            match ranged(self.value@, 0, u32::MAX as int, Expecting::Unsigned32) {
                Ok(number) => r matches Ok(v) && v == number,
                Err(message) => r matches Err(e) && e.cause() == crate::error::Cause::Message(
                    message,
                ),
            },
    {
        match decode_unsigned(self.value, u32::MAX as u128, Expecting::Unsigned32) {
            Ok(value) => Ok(value as u32),
            Err(e) => Err(e),
        }
    }

    /// Decode a 64-bit unsigned integer: the number that the value holds,
    /// where the type holds it too.
    #[inline]
    pub fn decode_u64(self) -> (r: Result<u64, ValueError>)
        ensures
            match ranged(self.value@, 0, u64::MAX as int, Expecting::Unsigned64) {
                Ok(number) => r matches Ok(v) && v == number,
                Err(message) => r matches Err(e) && e.cause() == crate::error::Cause::Message(
                    message,
                ),
            },
    {
        match decode_unsigned(self.value, u64::MAX as u128, Expecting::Unsigned64) {
            Ok(value) => Ok(value as u64),
            Err(e) => Err(e),
        }
    }

    /// Decode a 128-bit unsigned integer: the number that the value holds,
    /// where the type holds it too.
    #[inline]
    pub fn decode_u128(self) -> (r: Result<u128, ValueError>)
        ensures
            match ranged(self.value@, 0, u128::MAX as int, Expecting::Unsigned128) {
                Ok(number) => r matches Ok(v) && v == number,
                Err(message) => r matches Err(e) && e.cause() == crate::error::Cause::Message(
                    message,
                ),
            },
    {
        match decode_unsigned(self.value, u128::MAX, Expecting::Unsigned128) {
            Ok(value) => Ok(value),
            Err(e) => Err(e),
        }
    }

    /// Decode a pointer-sized unsigned integer: the number that the value holds,
    /// where the type holds it too.
    #[inline]
    pub fn decode_usize(self) -> (r: Result<usize, ValueError>)
        ensures
            match ranged(self.value@, 0, usize::MAX as int, Expecting::Usize) {
                Ok(number) => r matches Ok(v) && v == number,
                Err(message) => r matches Err(e) && e.cause() == crate::error::Cause::Message(
                    message,
                ),
            },
    {
        match decode_unsigned(self.value, usize::MAX as u128, Expecting::Usize) {
            Ok(value) => Ok(value as usize),
            Err(e) => Err(e),
        }
    }

    /// Decode an 8-bit signed integer: the number that the value holds,
    /// where the type holds it too.
    #[inline]
    pub fn decode_i8(self) -> (r: Result<i8, ValueError>)
        ensures
            match ranged(self.value@, i8::MIN as int, i8::MAX as int, Expecting::Signed8) {
                Ok(number) => r matches Ok(v) && v == number,
                Err(message) => r matches Err(e) && e.cause() == crate::error::Cause::Message(
                    message,
                ),
            },
    {
        match decode_signed(self.value, i8::MIN as i128, i8::MAX as i128, Expecting::Signed8) {
            Ok(value) => Ok(value as i8),
            Err(e) => Err(e),
        }
    }

    /// Decode a 16-bit signed integer: the number that the value holds,
    /// where the type holds it too.
    #[inline]
    pub fn decode_i16(self) -> (r: Result<i16, ValueError>)
        ensures
            match ranged(self.value@, i16::MIN as int, i16::MAX as int, Expecting::Signed16) {
                Ok(number) => r matches Ok(v) && v == number,
                Err(message) => r matches Err(e) && e.cause() == crate::error::Cause::Message(
                    message,
                ),
            },
    {
        match decode_signed(self.value, i16::MIN as i128, i16::MAX as i128, Expecting::Signed16) {
            Ok(value) => Ok(value as i16),
            Err(e) => Err(e),
        }
    }

    /// Decode a 32-bit signed integer: the number that the value holds,
    /// where the type holds it too.
    #[inline]
    pub fn decode_i32(self) -> (r: Result<i32, ValueError>)
        ensures
            match ranged(self.value@, i32::MIN as int, i32::MAX as int, Expecting::Signed32) {
                Ok(number) => r matches Ok(v) && v == number,
                Err(message) => r matches Err(e) && e.cause() == crate::error::Cause::Message(
                    message,
                ),
            },
    {
        match decode_signed(self.value, i32::MIN as i128, i32::MAX as i128, Expecting::Signed32) {
            Ok(value) => Ok(value as i32),
            Err(e) => Err(e),
        }
    }

    /// Decode a 64-bit signed integer: the number that the value holds,
    /// where the type holds it too.
    #[inline]
    pub fn decode_i64(self) -> (r: Result<i64, ValueError>)
        ensures
            match ranged(self.value@, i64::MIN as int, i64::MAX as int, Expecting::Signed64) {
                Ok(number) => r matches Ok(v) && v == number,
                Err(message) => r matches Err(e) && e.cause() == crate::error::Cause::Message(
                    message,
                ),
            },
    {
        match decode_signed(self.value, i64::MIN as i128, i64::MAX as i128, Expecting::Signed64) {
            Ok(value) => Ok(value as i64),
            Err(e) => Err(e),
        }
    }

    /// Decode a 128-bit signed integer: the number that the value holds,
    /// where the type holds it too.
    #[inline]
    pub fn decode_i128(self) -> (r: Result<i128, ValueError>)
        ensures
            match ranged(self.value@, i128::MIN as int, i128::MAX as int, Expecting::Signed128) {
                Ok(number) => r matches Ok(v) && v == number,
                Err(message) => r matches Err(e) && e.cause() == crate::error::Cause::Message(
                    message,
                ),
            },
    {
        match decode_signed(self.value, i128::MIN, i128::MAX, Expecting::Signed128) {
            Ok(value) => Ok(value),
            Err(e) => Err(e),
        }
    }

    /// Decode a pointer-sized signed integer: the number that the value holds,
    /// where the type holds it too.
    #[inline]
    pub fn decode_isize(self) -> (r: Result<isize, ValueError>)
        ensures
            match ranged(self.value@, isize::MIN as int, isize::MAX as int, Expecting::Isize) {
                Ok(number) => r matches Ok(v) && v == number,
                Err(message) => r matches Err(e) && e.cause() == crate::error::Cause::Message(
                    message,
                ),
            },
    {
        match decode_signed(self.value, isize::MIN as i128, isize::MAX as i128, Expecting::Isize) {
            Ok(value) => Ok(value as isize),
            Err(e) => Err(e),
        }
    }

    /// Decode a fixed-length array: the bytes that the value holds, where
    /// they are as many as the array takes.
    #[inline]
    pub fn decode_array<const N: usize>(self) -> (r: Result<[u8; N], ValueError>)
        ensures
            self.value@ matches Tree::Bytes(bytes) ==> (if bytes.len() == N {
                r matches Ok(array) && array@ == bytes
            } else {
                r matches Err(e) && e.cause() == crate::error::Cause::Message(
                    Message::BadLength { actual_len: bytes.len() as usize, expected_len: N, pos: 0 },
                )
            }),
            !(self.value@ is Bytes) ==> mismatch(r, Expecting::Array),
    {
        match self.value {
            Value::Bytes(bytes) => {
                if bytes.len() == N {
                    Ok(array_from_slice::<N>(bytes.as_slice()))
                } else {
                    Err(
                        ValueError::message(
                            Message::BadLength {
                                actual_len: bytes.len(),
                                expected_len: N,
                                pos: 0,
                            },
                        ),
                    )
                }
            },
            _ => Err(ValueError::message(Message::Mismatch { expected: Expecting::Array })),
        }
    }

    /// Decode a sequence of bytes.
    #[inline]
    pub fn decode_bytes(self) -> (r: Result<&'de [u8], ValueError>)
        ensures
            self.value@ matches Tree::Bytes(bytes) ==> (r matches Ok(slice) && slice@ == bytes),
            !(self.value@ is Bytes) ==> mismatch(r, Expecting::Bytes),
    {
        match self.value {
            Value::Bytes(bytes) => Ok(bytes.as_slice()),
            _ => Err(ValueError::message(Message::Mismatch { expected: Expecting::Bytes })),
        }
    }

    /// Decode a string.
    #[inline]
    pub fn decode_string(self) -> (r: Result<&'de str, ValueError>)
        ensures
            self.value@ matches Tree::String(text) ==> (r matches Ok(string) && string@ == text),
            !(self.value@ is String) ==> mismatch(r, Expecting::String),
    {
        match self.value {
            Value::String(text) => Ok(text.as_str()),
            _ => Err(ValueError::message(Message::Mismatch { expected: Expecting::String })),
        }
    }

    /// Decode an optional value: nothing where it is absent, the decoder of
    /// the value where it is present.
    #[inline]
    pub fn decode_option(self) -> (r: Result<Option<ValueDecoder<'de>>, ValueError>)
        ensures
            self.value@ is Absent ==> r matches Ok(None),
            self.value@ matches Tree::Present(inner) ==> (r matches Ok(Some(decoder))
                && decoder.value@ == *inner),
            !(self.value@ is Absent || self.value@ is Present) ==> mismatch(r, Expecting::Option),
    {
        match self.value {
            Value::Option(None) => Ok(None),
            Value::Option(Some(inner)) => Ok(Some(ValueDecoder { value: &**inner })),
            _ => Err(ValueError::message(Message::Mismatch { expected: Expecting::Option })),
        }
    }

    /// Decode a pack: the decoder of its elements, none of them handed out.
    #[inline]
    pub fn decode_pack(self) -> (r: Result<SequenceValueDecoder<'de>, ValueError>)
        ensures
            self.value@ matches Tree::Sequence(items) ==> (r matches Ok(decoder) && trees(
                decoder.values@,
            ) == items && decoder.index == 0),
            !(self.value@ is Sequence) ==> mismatch(r, Expecting::Pack),
    {
        match self.value {
            Value::Sequence(values) => {
                proof {
                    lemma_sequence(*values);
                }
                Ok(SequenceValueDecoder { values, index: 0 })
            },
            _ => Err(ValueError::message(Message::Mismatch { expected: Expecting::Pack })),
        }
    }

    /// Decode a sequence: the decoder of its elements, none of them handed out.
    #[inline]
    pub fn decode_sequence(self) -> (r: Result<SequenceValueDecoder<'de>, ValueError>)
        ensures
            self.value@ matches Tree::Sequence(items) ==> (r matches Ok(decoder) && trees(
                decoder.values@,
            ) == items && decoder.index == 0),
            !(self.value@ is Sequence) ==> mismatch(r, Expecting::Sequence),
    {
        match self.value {
            Value::Sequence(values) => {
                proof {
                    lemma_sequence(*values);
                }
                Ok(SequenceValueDecoder { values, index: 0 })
            },
            _ => Err(ValueError::message(Message::Mismatch { expected: Expecting::Sequence })),
        }
    }

    /// Decode a tuple, which is a sequence: the decoder of its elements, none of them handed out.
    #[inline]
    pub fn decode_tuple(self, _len: usize) -> (r: Result<SequenceValueDecoder<'de>, ValueError>)
        ensures
            self.value@ matches Tree::Sequence(items) ==> (r matches Ok(decoder) && trees(
                decoder.values@,
            ) == items && decoder.index == 0),
            !(self.value@ is Sequence) ==> mismatch(r, Expecting::Tuple),
    {
        match self.value {
            Value::Sequence(values) => {
                proof {
                    lemma_sequence(*values);
                }
                Ok(SequenceValueDecoder { values, index: 0 })
            },
            _ => Err(ValueError::message(Message::Mismatch { expected: Expecting::Tuple })),
        }
    }

    /// Decode a map: the decoder of its pairs, none of them handed out.
    #[inline]
    pub fn decode_map(self) -> (r: Result<PairsValueDecoder<'de>, ValueError>)
        ensures
            self.value@ matches Tree::Mapping(items) ==> (r matches Ok(decoder) && pair_trees(
                decoder.pairs@,
            ) == items && decoder.index == 0),
            !(self.value@ is Mapping) ==> mismatch(r, Expecting::Mapping),
    {
        match self.value {
            Value::Mapping(pairs) => {
                proof {
                    lemma_mapping(*pairs);
                }
                Ok(PairsValueDecoder { pairs, index: 0 })
            },
            _ => Err(ValueError::message(Message::Mismatch { expected: Expecting::Mapping })),
        }
    }

    /// Decode a struct, which is a map from what names a field to what it holds: the decoder of its pairs, none of them handed out.
    #[inline]
    pub fn decode_struct(self, _fields: usize) -> (r: Result<PairsValueDecoder<'de>, ValueError>)
        ensures
            self.value@ matches Tree::Mapping(items) ==> (r matches Ok(decoder) && pair_trees(
                decoder.pairs@,
            ) == items && decoder.index == 0),
            !(self.value@ is Mapping) ==> mismatch(r, Expecting::Struct),
    {
        match self.value {
            Value::Mapping(pairs) => {
                proof {
                    lemma_mapping(*pairs);
                }
                Ok(PairsValueDecoder { pairs, index: 0 })
            },
            _ => Err(ValueError::message(Message::Mismatch { expected: Expecting::Struct })),
        }
    }

    /// Decode a variant: the decoder of its tag and its content.
    #[inline]
    pub fn decode_variant(self) -> (r: Result<PairValueDecoder<'de>, ValueError>)
        ensures
            self.value@ matches Tree::Variant(tag, content) ==> (r matches Ok(decoder)
                && decoder.pair.0@ == *tag && decoder.pair.1@ == *content),
            !(self.value@ is Variant) ==> mismatch(r, Expecting::Variant),
    {
        match self.value {
            Value::Variant(pair) => Ok(PairValueDecoder { pair: &**pair }),
            _ => Err(ValueError::message(Message::Mismatch { expected: Expecting::Variant })),
        }
    }
}

} // verus!
