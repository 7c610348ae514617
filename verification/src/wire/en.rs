//! Encoding values of the binary-tagged format.

use crate::error::{Cause, Error, Message};
use crate::integer::{Signed, Unsigned};
use crate::storage::integer_encoding::UsizeEncoding;
use crate::wire::format::{
    bool_form, byte_form, header, option_form, prefixed_form, tag_byte, variant_form,
};
use crate::wire::integer_encoding::{
    encode_typed_signed, encode_typed_unsigned, encode_typed_usize, typed_unsigned_form,
    typed_usize_form, TypedIntegerEncoding, TypedUsizeEncoding,
};
use crate::wire::types::{TypeKind, TypeTag, LEN_MASK};
use crate::writer::{lemma_wrote_fail, lemma_wrote_nothing, lemma_wrote_then, wrote, Writer};
use std::marker::PhantomData;
use vstd::prelude::*;
use vstd::string::StringSliceAdditionalSpecFns;

verus! {

/// Write the tag of the given kind for a length, and the length behind it
/// where the tag does not hold it.
pub fn encode_header<W: Writer, L: UsizeEncoding>(writer: &mut W, kind: TypeKind, len: usize) -> (r:
    Result<(), W::Error>)
    ensures
        len < LEN_MASK || L::holds(len as nat) ==> wrote(
            *old(writer),
            *final(writer),
            r is Ok,
            header::<L>(kind, len as nat),
        ),
        !(len < LEN_MASK || L::holds(len as nat)) ==> (r matches Err(e) && e.cause()
            == Cause::Message(Message::LengthOverflow) && *final(writer) == *old(writer)),
{
    let (tag, embedded) = TypeTag::with_len(kind, len);
    if !embedded && !L::check_holds(len) {
        return Err(W::Error::message(Message::LengthOverflow));
    }
    let ghost rest = if embedded {
        Seq::<u8>::empty()
    } else {
        L::usize_form(len as nat)
    };
    assert(header::<L>(kind, len as nat) =~= seq![tag.spec_byte()] + rest);
    match writer.write_byte(tag.byte()) {
        Ok(()) => {},
        Err(e) => {
            proof {
                lemma_wrote_fail(*old(writer), *writer, seq![tag.spec_byte()], rest);
            }
            return Err(e);
        },
    }
    let ghost middle = *writer;
    if embedded {
        proof {
            lemma_wrote_nothing(middle);
            lemma_wrote_then(*old(writer), middle, middle, seq![tag.spec_byte()], rest, true);
        }
        return Ok(());
    }
    let r = L::encode_usize(writer, len);
    proof {
        lemma_wrote_then(*old(writer), middle, *writer, seq![tag.spec_byte()], rest, r is Ok);
    }
    r
}

/// Write a byte: within its tag where it is below 31, behind the tag otherwise.
pub fn encode_byte<W: Writer>(writer: &mut W, value: u8) -> (r: Result<(), W::Error>)
    ensures
        wrote(*old(writer), *final(writer), r is Ok, byte_form(value)),
{
    let (tag, embedded) = TypeTag::with_byte(TypeKind::Byte, value);
    let ghost rest = if embedded {
        Seq::<u8>::empty()
    } else {
        seq![value]
    };
    assert(byte_form(value) =~= seq![tag.spec_byte()] + rest);
    match writer.write_byte(tag.byte()) {
        Ok(()) => {},
        Err(e) => {
            proof {
                lemma_wrote_fail(*old(writer), *writer, seq![tag.spec_byte()], rest);
            }
            return Err(e);
        },
    }
    let ghost middle = *writer;
    if embedded {
        proof {
            lemma_wrote_nothing(middle);
            lemma_wrote_then(*old(writer), middle, middle, seq![tag.spec_byte()], rest, true);
        }
        return Ok(());
    }
    let r = writer.write_byte(value);
    proof {
        lemma_wrote_then(*old(writer), middle, *writer, seq![tag.spec_byte()], rest, r is Ok);
    }
    r
}

/// Write a tag that holds all there is to say.
pub fn encode_tag<W: Writer>(writer: &mut W, kind: TypeKind, len: u8) -> (r: Result<(), W::Error>)
    requires
        len < LEN_MASK,
    ensures
        wrote(*old(writer), *final(writer), r is Ok, seq![tag_byte(kind, len)]),
        r is Err ==> final(writer).written() == old(writer).written(),
{
    writer.write_byte(TypeTag::new(kind, len).byte())
}

/// Write a sequence of bytes: its length and the bytes.
pub fn encode_prefixed<W: Writer, L: UsizeEncoding>(writer: &mut W, bytes: &[u8]) -> (r: Result<
    (),
    W::Error,
>)
    ensures
        bytes@.len() < LEN_MASK || L::holds(bytes@.len()) ==> wrote(
            *old(writer),
            *final(writer),
            r is Ok,
            prefixed_form::<L>(bytes@),
        ),
        !(bytes@.len() < LEN_MASK || L::holds(bytes@.len())) ==> (r matches Err(e) && e.cause()
            == Cause::Message(Message::LengthOverflow) && *final(writer) == *old(writer)),
{
    let ghost head = header::<L>(TypeKind::Prefixed, bytes@.len());
    match encode_header::<W, L>(writer, TypeKind::Prefixed, bytes.len()) {
        Ok(()) => {},
        Err(e) => {
            proof {
                if bytes@.len() < LEN_MASK || L::holds(bytes@.len()) {
                    lemma_wrote_fail(*old(writer), *writer, head, bytes@);
                }
            }
            return Err(e);
        },
    }
    let ghost middle = *writer;
    let r = writer.write_bytes(bytes);
    proof {
        lemma_wrote_then(*old(writer), middle, *writer, head, bytes@, r is Ok);
    }
    r
}

/// An encoder of the binary-tagged format, for one value.
pub struct WireEncoder<'a, W, I, L> {
    /// Where the value is written to.
    pub writer: &'a mut W,
    /// How integers and lengths are written.
    pub marker: PhantomData<(I, L)>,
}

/// An encoder for the values of a sequence, one after the other.
pub struct WireSequenceEncoder<'a, W, I, L> {
    /// Where the values are written to.
    pub writer: &'a mut W,
    /// How integers and lengths are written.
    pub marker: PhantomData<(I, L)>,
}

/// An encoder for the pairs of a map or the fields of a struct, one after the other.
pub struct WirePairsEncoder<'a, W, I, L> {
    /// Where the pairs are written to.
    pub writer: &'a mut W,
    /// How integers and lengths are written.
    pub marker: PhantomData<(I, L)>,
}

/// An encoder for the two values of a pair: a key and a value, or the tag
/// and the payload of a variant.
pub struct WirePairEncoder<'a, W, I, L> {
    /// Where the two values are written to.
    pub writer: &'a mut W,
    /// How integers and lengths are written.
    pub marker: PhantomData<(I, L)>,
}

impl<'a, W: Writer, I: TypedIntegerEncoding, L: TypedUsizeEncoding> WireSequenceEncoder<
    'a,
    W,
    I,
    L,
> {
    /// Prepare encoding of the next element.
    #[inline]
    pub fn next(&mut self) -> (r: Result<WireEncoder<'_, W, I, L>, W::Error>)
        ensures
            r matches Ok(encoder) && *encoder.writer == *old(self).writer && *final(self).writer
                == *final(encoder.writer),
            *final(final(self).writer) == *final(old(self).writer),
    {
        Ok(WireEncoder { writer: &mut *self.writer, marker: PhantomData })
    }

    /// End the sequence.
    #[inline]
    pub fn end(self) -> (r: Result<(), W::Error>)
        ensures
            r is Ok,
            *final(self.writer) == *old(self.writer),
    {
        Ok(())
    }
}

impl<'a, W: Writer, I: TypedIntegerEncoding, L: TypedUsizeEncoding> WirePairsEncoder<'a, W, I, L> {
    /// Encode the next pair.
    #[inline]
    pub fn next(&mut self) -> (r: Result<WirePairEncoder<'_, W, I, L>, W::Error>)
        ensures
            r matches Ok(encoder) && *encoder.writer == *old(self).writer && *final(self).writer
                == *final(encoder.writer),
            *final(final(self).writer) == *final(old(self).writer),
    {
        Ok(WirePairEncoder { writer: &mut *self.writer, marker: PhantomData })
    }

    /// Finish encoding pairs.
    #[inline]
    pub fn end(self) -> (r: Result<(), W::Error>)
        ensures
            r is Ok,
            *final(self.writer) == *old(self.writer),
    {
        Ok(())
    }
}

impl<'a, W: Writer, I: TypedIntegerEncoding, L: TypedUsizeEncoding> WirePairEncoder<'a, W, I, L> {
    /// Return the encoder for the first element in the pair.
    #[inline]
    pub fn first(&mut self) -> (r: Result<WireEncoder<'_, W, I, L>, W::Error>)
        ensures
            r matches Ok(encoder) && *encoder.writer == *old(self).writer && *final(self).writer
                == *final(encoder.writer),
            *final(final(self).writer) == *final(old(self).writer),
    {
        Ok(WireEncoder { writer: &mut *self.writer, marker: PhantomData })
    }

    /// Return encoder for the second element in the pair.
    #[inline]
    pub fn second(&mut self) -> (r: Result<WireEncoder<'_, W, I, L>, W::Error>)
        ensures
            r matches Ok(encoder) && *encoder.writer == *old(self).writer && *final(self).writer
                == *final(encoder.writer),
            *final(final(self).writer) == *final(old(self).writer),
    {
        Ok(WireEncoder { writer: &mut *self.writer, marker: PhantomData })
    }

    /// End the pair encoder.
    #[inline]
    pub fn end(self) -> (r: Result<(), W::Error>)
        ensures
            r is Ok,
            *final(self.writer) == *old(self.writer),
    {
        Ok(())
    }
}

impl<'a, W: Writer, I: TypedIntegerEncoding, L: TypedUsizeEncoding> WireEncoder<'a, W, I, L> {
    /// Construct a new encoder of one value.
    #[inline]
    pub fn new(writer: &'a mut W) -> (encoder: Self)
        ensures
            *encoder.writer == *old(writer),
            *final(encoder.writer) == *final(writer),
    {
        Self { writer, marker: PhantomData }
    }

    /// Encode a unit or something that is completely empty: an empty sequence.
    #[inline]
    pub fn encode_unit(self) -> (r: Result<(), W::Error>)
        ensures
            wrote(
                *old(self.writer),
                *final(self.writer),
                r is Ok,
                header::<L>(TypeKind::Sequence, 0),
            ),
    {
        encode_header::<W, L>(self.writer, TypeKind::Sequence, 0)
    }

    /// Encode a unit struct: a struct without fields.
    #[inline]
    pub fn encode_unit_struct(self) -> (r: Result<(), W::Error>)
        ensures
            wrote(
                *old(self.writer),
                *final(self.writer),
                r is Ok,
                header::<L>(TypeKind::PairSequence, 0),
            ),
    {
        encode_header::<W, L>(self.writer, TypeKind::PairSequence, 0)
    }

    /// Encode a boolean value.
    #[inline]
    pub fn encode_bool(self, value: bool) -> (r: Result<(), W::Error>)
        ensures
            wrote(*old(self.writer), *final(self.writer), r is Ok, bool_form(value)),
    {
        encode_tag(self.writer, TypeKind::Byte, if value {
            1
        } else {
            0
        })
    }

    /// Encode a character, as the number it has.
    #[inline]
    pub fn encode_char(self, value: char) -> (r: Result<(), W::Error>)
        ensures
            wrote(
                *old(self.writer),
                *final(self.writer),
                r is Ok,
                typed_unsigned_form::<I>((value as u32) as nat, <u32 as Unsigned>::spec_bytes()),
            ),
    {
        encode_typed_unsigned::<W, I, u32>(self.writer, value as u32)
    }

    /// Encode a 8-bit unsigned integer.
    #[inline]
    pub fn encode_u8(self, value: u8) -> (r: Result<(), W::Error>)
        ensures
            wrote(*old(self.writer), *final(self.writer), r is Ok, byte_form(value)),
    {
        encode_byte(self.writer, value)
    }

    /// Encode a 8-bit signed integer, as the byte that has its bits.
    #[inline]
    pub fn encode_i8(self, value: i8) -> (r: Result<(), W::Error>)
        ensures
            wrote(
                *old(self.writer),
                *final(self.writer),
                r is Ok,
                byte_form(crate::integer::byteorder::wrapped(value as int, 255) as u8),
            ),
    {
        encode_byte(self.writer, value.unsigned())
    }

    /// Encode Rusts [`usize`].
    #[inline]
    pub fn encode_usize(self, value: usize) -> (r: Result<(), W::Error>)
        ensures
            L::holds(value as nat) ==> wrote(
                *old(self.writer),
                *final(self.writer),
                r is Ok,
                typed_usize_form::<L>(value as nat),
            ),
            !L::holds(value as nat) ==> (r matches Err(e) && e.cause() == Cause::Message(
                Message::LengthOverflow,
            ) && *final(self.writer) == *old(self.writer)),
    {
        encode_typed_usize::<W, L>(self.writer, value)
    }

    /// Encode Rusts [`isize`], as the [`usize`] that has its bits.
    #[inline]
    pub fn encode_isize(self, value: isize) -> (r: Result<(), W::Error>)
        ensures
            L::holds(
                crate::integer::byteorder::wrapped(value as int, usize::MAX as nat),
            ) ==> wrote(
                *old(self.writer),
                *final(self.writer),
                r is Ok,
                typed_usize_form::<L>(
                    crate::integer::byteorder::wrapped(value as int, usize::MAX as nat),
                ),
            ),
            !L::holds(crate::integer::byteorder::wrapped(value as int, usize::MAX as nat)) ==> (
            r matches Err(e) && e.cause() == Cause::Message(Message::LengthOverflow)
                && *final(self.writer) == *old(self.writer)),
    {
        encode_typed_usize::<W, L>(self.writer, value.unsigned())
    }

    /// Encode a sequence of bytes.
    #[inline]
    pub fn encode_bytes(self, bytes: &[u8]) -> (r: Result<(), W::Error>)
        ensures
            bytes@.len() < LEN_MASK || L::holds(bytes@.len()) ==> wrote(
                *old(self.writer),
                *final(self.writer),
                r is Ok,
                prefixed_form::<L>(bytes@),
            ),
            !(bytes@.len() < LEN_MASK || L::holds(bytes@.len())) ==> (r matches Err(e)
                && e.cause() == Cause::Message(Message::LengthOverflow) && *final(self.writer)
                == *old(self.writer)),
    {
        encode_prefixed::<W, L>(self.writer, bytes)
    }

    /// Encode a fixed-length array, as a sequence of bytes.
    #[inline]
    pub fn encode_array<const N: usize>(self, array: [u8; N]) -> (r: Result<(), W::Error>)
        ensures
            N < LEN_MASK || L::holds(N as nat) ==> wrote(
                *old(self.writer),
                *final(self.writer),
                r is Ok,
                prefixed_form::<L>(array@),
            ),
            !(N < LEN_MASK || L::holds(N as nat)) ==> (r matches Err(e) && e.cause()
                == Cause::Message(Message::LengthOverflow) && *final(self.writer) == *old(
                self.writer,
            )),
    {
        encode_prefixed::<W, L>(self.writer, array.as_slice())
    }

    /// Encode a string, as the bytes that it is made of.
    #[inline]
    pub fn encode_string(self, string: &str) -> (r: Result<(), W::Error>)
        ensures
            string.spec_bytes().len() < LEN_MASK || L::holds(string.spec_bytes().len()) ==> wrote(
                *old(self.writer),
                *final(self.writer),
                r is Ok,
                prefixed_form::<L>(string.spec_bytes()),
            ),
            !(string.spec_bytes().len() < LEN_MASK || L::holds(string.spec_bytes().len())) ==> (
            r matches Err(e) && e.cause() == Cause::Message(Message::LengthOverflow)
                && *final(self.writer) == *old(self.writer)),
    {
        encode_prefixed::<W, L>(self.writer, string.as_bytes())
    }

    /// Encode an optional value that is present. The value is encoded next.
    #[inline]
    pub fn encode_some(self) -> (r: Result<WireEncoder<'a, W, I, L>, W::Error>)
        ensures
            r matches Ok(encoder) ==> wrote(
                *old(self.writer),
                *encoder.writer,
                true,
                option_form(true),
            ) && *final(encoder.writer) == *final(self.writer),
            r is Ok <==> crate::writer::fits(*old(self.writer), 1),
            r is Err ==> final(self.writer).written() == old(self.writer).written(),
    {
        match encode_tag(self.writer, TypeKind::Mark, 1) {
            Ok(()) => Ok(self),
            Err(e) => Err(e),
        }
    }

    /// Encode an optional value that is absent.
    #[inline]
    pub fn encode_none(self) -> (r: Result<(), W::Error>)
        ensures
            wrote(*old(self.writer), *final(self.writer), r is Ok, option_form(false)),
    {
        encode_tag(self.writer, TypeKind::Mark, 0)
    }

    /// Encode a 16-bit unsigned integer.
    #[inline]
    pub fn encode_u16(self, value: u16) -> (r: Result<(), W::Error>)
        ensures
            wrote(
                *old(self.writer),
                *final(self.writer),
                r is Ok,
                typed_unsigned_form::<I>(value as nat, <u16 as Unsigned>::spec_bytes()),
            ),
    {
        encode_typed_unsigned::<W, I, u16>(self.writer, value)
    }

    /// Encode a 32-bit unsigned integer.
    #[inline]
    pub fn encode_u32(self, value: u32) -> (r: Result<(), W::Error>)
        ensures
            wrote(
                *old(self.writer),
                *final(self.writer),
                r is Ok,
                typed_unsigned_form::<I>(value as nat, <u32 as Unsigned>::spec_bytes()),
            ),
    {
        encode_typed_unsigned::<W, I, u32>(self.writer, value)
    }

    /// Encode a 64-bit unsigned integer.
    #[inline]
    pub fn encode_u64(self, value: u64) -> (r: Result<(), W::Error>)
        ensures
            wrote(
                *old(self.writer),
                *final(self.writer),
                r is Ok,
                typed_unsigned_form::<I>(value as nat, <u64 as Unsigned>::spec_bytes()),
            ),
    {
        encode_typed_unsigned::<W, I, u64>(self.writer, value)
    }

    /// Encode a 128-bit unsigned integer.
    #[inline]
    pub fn encode_u128(self, value: u128) -> (r: Result<(), W::Error>)
        ensures
            wrote(
                *old(self.writer),
                *final(self.writer),
                r is Ok,
                typed_unsigned_form::<I>(value as nat, <u128 as Unsigned>::spec_bytes()),
            ),
    {
        encode_typed_unsigned::<W, I, u128>(self.writer, value)
    }

    /// Encode a 16-bit signed integer.
    #[inline]
    pub fn encode_i16(self, value: i16) -> (r: Result<(), W::Error>)
        ensures
            wrote(
                *old(self.writer),
                *final(self.writer),
                r is Ok,
                typed_unsigned_form::<I>(
                    I::unsigned_of(value as int, <u16 as Unsigned>::max_value()),
                    <u16 as Unsigned>::spec_bytes(),
                ),
            ),
    {
        encode_typed_signed::<W, I, i16>(self.writer, value)
    }

    /// Encode a 32-bit signed integer.
    #[inline]
    pub fn encode_i32(self, value: i32) -> (r: Result<(), W::Error>)
        ensures
            wrote(
                *old(self.writer),
                *final(self.writer),
                r is Ok,
                typed_unsigned_form::<I>(
                    I::unsigned_of(value as int, <u32 as Unsigned>::max_value()),
                    <u32 as Unsigned>::spec_bytes(),
                ),
            ),
    {
        encode_typed_signed::<W, I, i32>(self.writer, value)
    }

    /// Encode a 64-bit signed integer.
    #[inline]
    pub fn encode_i64(self, value: i64) -> (r: Result<(), W::Error>)
        ensures
            wrote(
                *old(self.writer),
                *final(self.writer),
                r is Ok,
                typed_unsigned_form::<I>(
                    I::unsigned_of(value as int, <u64 as Unsigned>::max_value()),
                    <u64 as Unsigned>::spec_bytes(),
                ),
            ),
    {
        encode_typed_signed::<W, I, i64>(self.writer, value)
    }

    /// Encode a 128-bit signed integer.
    #[inline]
    pub fn encode_i128(self, value: i128) -> (r: Result<(), W::Error>)
        ensures
            wrote(
                *old(self.writer),
                *final(self.writer),
                r is Ok,
                typed_unsigned_form::<I>(
                    I::unsigned_of(value as int, <u128 as Unsigned>::max_value()),
                    <u128 as Unsigned>::spec_bytes(),
                ),
            ),
    {
        encode_typed_signed::<W, I, i128>(self.writer, value)
    }

    /// Encode a sequence with a known length. Its elements are encoded next.
    #[inline]
    pub fn encode_sequence(self, len: usize) -> (r: Result<WireSequenceEncoder<'a, W, I, L>, W::Error>)
        ensures
            len < LEN_MASK || L::holds(len as nat) ==> (r is Ok <==> crate::writer::fits(
                *old(self.writer),
                header::<L>(TypeKind::Sequence, len as nat).len(),
            )),
            r matches Ok(encoder) ==> wrote(
                *old(self.writer),
                *encoder.writer,
                true,
                header::<L>(TypeKind::Sequence, len as nat),
            ) && *final(encoder.writer) == *final(self.writer),
            !(len < LEN_MASK || L::holds(len as nat)) ==> (r matches Err(e) && e.cause()
                == Cause::Message(Message::LengthOverflow) && *final(self.writer) == *old(
                self.writer,
            )),
            r is Err ==> old(self.writer).written().is_prefix_of(final(self.writer).written()),
    {
        match encode_header::<W, L>(self.writer, TypeKind::Sequence, len) {
            Ok(()) => Ok(WireSequenceEncoder { writer: self.writer, marker: PhantomData }),
            Err(e) => Err(e),
        }
    }

    /// Encode a tuple. Its elements are encoded next.
    #[inline]
    pub fn encode_tuple(self, len: usize) -> (r: Result<WireSequenceEncoder<'a, W, I, L>, W::Error>)
        ensures
            len < LEN_MASK || L::holds(len as nat) ==> (r is Ok <==> crate::writer::fits(
                *old(self.writer),
                header::<L>(TypeKind::Sequence, len as nat).len(),
            )),
            r matches Ok(encoder) ==> wrote(
                *old(self.writer),
                *encoder.writer,
                true,
                header::<L>(TypeKind::Sequence, len as nat),
            ) && *final(encoder.writer) == *final(self.writer),
            !(len < LEN_MASK || L::holds(len as nat)) ==> (r matches Err(e) && e.cause()
                == Cause::Message(Message::LengthOverflow) && *final(self.writer) == *old(
                self.writer,
            )),
            r is Err ==> old(self.writer).written().is_prefix_of(final(self.writer).written()),
    {
        match encode_header::<W, L>(self.writer, TypeKind::Sequence, len) {
            Ok(()) => Ok(WireSequenceEncoder { writer: self.writer, marker: PhantomData }),
            Err(e) => Err(e),
        }
    }

    /// Encode a map with a known length. Its pairs are encoded next.
    #[inline]
    pub fn encode_map(self, len: usize) -> (r: Result<WirePairsEncoder<'a, W, I, L>, W::Error>)
        ensures
            len < LEN_MASK || L::holds(len as nat) ==> (r is Ok <==> crate::writer::fits(
                *old(self.writer),
                header::<L>(TypeKind::PairSequence, len as nat).len(),
            )),
            r matches Ok(encoder) ==> wrote(
                *old(self.writer),
                *encoder.writer,
                true,
                header::<L>(TypeKind::PairSequence, len as nat),
            ) && *final(encoder.writer) == *final(self.writer),
            !(len < LEN_MASK || L::holds(len as nat)) ==> (r matches Err(e) && e.cause()
                == Cause::Message(Message::LengthOverflow) && *final(self.writer) == *old(
                self.writer,
            )),
            r is Err ==> old(self.writer).written().is_prefix_of(final(self.writer).written()),
    {
        match encode_header::<W, L>(self.writer, TypeKind::PairSequence, len) {
            Ok(()) => Ok(WirePairsEncoder { writer: self.writer, marker: PhantomData }),
            Err(e) => Err(e),
        }
    }

    /// Encode a struct. Its fields are encoded next, each as a pair of a tag and a value.
    #[inline]
    pub fn encode_struct(self, len: usize) -> (r: Result<WirePairsEncoder<'a, W, I, L>, W::Error>)
        ensures
            len < LEN_MASK || L::holds(len as nat) ==> (r is Ok <==> crate::writer::fits(
                *old(self.writer),
                header::<L>(TypeKind::PairSequence, len as nat).len(),
            )),
            r matches Ok(encoder) ==> wrote(
                *old(self.writer),
                *encoder.writer,
                true,
                header::<L>(TypeKind::PairSequence, len as nat),
            ) && *final(encoder.writer) == *final(self.writer),
            !(len < LEN_MASK || L::holds(len as nat)) ==> (r matches Err(e) && e.cause()
                == Cause::Message(Message::LengthOverflow) && *final(self.writer) == *old(
                self.writer,
            )),
            r is Err ==> old(self.writer).written().is_prefix_of(final(self.writer).written()),
    {
        match encode_header::<W, L>(self.writer, TypeKind::PairSequence, len) {
            Ok(()) => Ok(WirePairsEncoder { writer: self.writer, marker: PhantomData }),
            Err(e) => Err(e),
        }
    }

    /// Encode a tuple struct. Its fields are encoded next, each as a pair of an index and a value.
    #[inline]
    pub fn encode_tuple_struct(self, len: usize) -> (r: Result<WirePairsEncoder<'a, W, I, L>, W::Error>)
        ensures
            len < LEN_MASK || L::holds(len as nat) ==> (r is Ok <==> crate::writer::fits(
                *old(self.writer),
                header::<L>(TypeKind::PairSequence, len as nat).len(),
            )),
            r matches Ok(encoder) ==> wrote(
                *old(self.writer),
                *encoder.writer,
                true,
                header::<L>(TypeKind::PairSequence, len as nat),
            ) && *final(encoder.writer) == *final(self.writer),
            !(len < LEN_MASK || L::holds(len as nat)) ==> (r matches Err(e) && e.cause()
                == Cause::Message(Message::LengthOverflow) && *final(self.writer) == *old(
                self.writer,
            )),
            r is Err ==> old(self.writer).written().is_prefix_of(final(self.writer).written()),
    {
        match encode_header::<W, L>(self.writer, TypeKind::PairSequence, len) {
            Ok(()) => Ok(WirePairsEncoder { writer: self.writer, marker: PhantomData }),
            Err(e) => Err(e),
        }
    }

    /// Encode an enum variant: its tag and its payload are encoded next, as one pair.
    #[inline]
    pub fn encode_variant(self) -> (r: Result<WirePairEncoder<'a, W, I, L>, W::Error>)
        ensures
            r is Ok <==> crate::writer::fits(*old(self.writer), 1),
            r matches Ok(encoder) ==> wrote(
                *old(self.writer),
                *encoder.writer,
                true,
                variant_form(),
            ) && *final(encoder.writer) == *final(self.writer),
            r is Err ==> final(self.writer).written() == old(self.writer).written(),
    {
        match encode_tag(self.writer, TypeKind::PairSequence, 1) {
            Ok(()) => Ok(WirePairEncoder { writer: self.writer, marker: PhantomData }),
            Err(e) => Err(e),
        }
    }
}

} // verus!
