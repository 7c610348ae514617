//! Encoding values of the storage format.

use crate::error::{Cause, Error, Message};
use crate::integer::byteorder::wrapped;
use crate::integer::{Signed, Unsigned};
use crate::storage::format::{bool_form, bytes_form, joined, option_form};
use crate::storage::integer_encoding::{IntegerEncoding, UsizeEncoding};
use crate::writer::{fits, lemma_wrote_fail, lemma_wrote_then, wrote, Writer};
use std::marker::PhantomData;
use vstd::prelude::*;
use vstd::string::StringSliceAdditionalSpecFns;

verus! {

/// Write a sequence of bytes: its length and the bytes.
pub fn encode_prefixed<W: Writer, L: UsizeEncoding>(writer: &mut W, bytes: &[u8]) -> (r: Result<
    (),
    W::Error,
>)
    ensures
        L::holds(bytes@.len()) ==> wrote(
            *old(writer),
            *final(writer),
            r is Ok,
            bytes_form::<L>(bytes@),
        ),
        !L::holds(bytes@.len()) ==> (r matches Err(e) && e.cause() == Cause::Message(
            Message::LengthOverflow,
        ) && *final(writer) == *old(writer)),
{
    let ghost head = L::usize_form(bytes@.len());
    match L::encode_usize(writer, bytes.len()) {
        Ok(()) => {},
        Err(e) => {
            proof {
                if L::holds(bytes@.len()) {
                    lemma_wrote_fail(*old(writer), *writer, head, bytes@);
                }
            }
            return Err(e);
        },
    }
    let ghost middle = *writer;
    let r = writer.write_bytes(bytes);
    proof {
        lemma_wrote_then(*old(writer), middle, *writer, head, bytes@, r is Ok);
    }
    r
}

/// A very simple encoder suitable for storage encoding.
pub struct StorageEncoder<'a, W, I, L> {
    /// Where the value is written to.
    pub writer: &'a mut W,
    /// How integers and lengths are written.
    pub marker: PhantomData<(I, L)>,
}

impl<'a, W: Writer, I: IntegerEncoding, L: UsizeEncoding> StorageEncoder<'a, W, I, L> {
    /// Construct a new fixed width message encoder.
    #[inline]
    pub fn new(writer: &'a mut W) -> (encoder: Self)
        ensures
            *encoder.writer == *old(writer),
            *final(encoder.writer) == *final(writer),
    {
        Self { writer, marker: PhantomData }
    }

    /// Encode a unit or something that is completely empty: an empty sequence.
    #[inline]
    pub fn encode_unit(self) -> (r: Result<(), W::Error>)
        ensures
            L::holds(0usize as nat) ==> (r is Ok <==> fits(
                *old(self.writer),
                L::usize_form(0usize as nat).len(),
            )),
            r is Ok ==> wrote(
                *old(self.writer),
                *final(self.writer),
                true,
                L::usize_form(0usize as nat),
            ),
            !L::holds(0usize as nat) ==> (r matches Err(e) && e.cause() == Cause::Message(
                Message::LengthOverflow,
            ) && *final(self.writer) == *old(self.writer)),
            r is Err ==> old(self.writer).written().is_prefix_of(final(self.writer).written()),
    {
        match L::encode_usize(self.writer, 0usize) {
            Ok(()) => Ok(()),
            Err(e) => Err(e),
        }
    }

    /// Encode a unit struct: the number of its fields, which is none.
    #[inline]
    pub fn encode_unit_struct(self) -> (r: Result<(), W::Error>)
        ensures
            L::holds(0usize as nat) ==> (r is Ok <==> fits(
                *old(self.writer),
                L::usize_form(0usize as nat).len(),
            )),
            r is Ok ==> wrote(
                *old(self.writer),
                *final(self.writer),
                true,
                L::usize_form(0usize as nat),
            ),
            !L::holds(0usize as nat) ==> (r matches Err(e) && e.cause() == Cause::Message(
                Message::LengthOverflow,
            ) && *final(self.writer) == *old(self.writer)),
            r is Err ==> old(self.writer).written().is_prefix_of(final(self.writer).written()),
    {
        match L::encode_usize(self.writer, 0usize) {
            Ok(()) => Ok(()),
            Err(e) => Err(e),
        }
    }

    /// Encode a sequence with a known length. Its elements are encoded next.
    #[inline]
    pub fn encode_sequence(self, len: usize) -> (r: Result<Self, W::Error>)
        ensures
            L::holds(len as nat) ==> (r is Ok <==> fits(
                *old(self.writer),
                L::usize_form(len as nat).len(),
            )),
            r matches Ok(encoder) ==> wrote(
                *old(self.writer),
                *encoder.writer,
                true,
                L::usize_form(len as nat),
            ) && *final(encoder.writer) == *final(self.writer),
            !L::holds(len as nat) ==> (r matches Err(e) && e.cause() == Cause::Message(
                Message::LengthOverflow,
            ) && *final(self.writer) == *old(self.writer)),
            r is Err ==> old(self.writer).written().is_prefix_of(final(self.writer).written()),
    {
        match L::encode_usize(self.writer, len) {
            Ok(()) => Ok(self),
            Err(e) => Err(e),
        }
    }

    /// Encode a tuple. Its elements are encoded next.
    #[inline]
    pub fn encode_tuple(self, len: usize) -> (r: Result<Self, W::Error>)
        ensures
            L::holds(len as nat) ==> (r is Ok <==> fits(
                *old(self.writer),
                L::usize_form(len as nat).len(),
            )),
            r matches Ok(encoder) ==> wrote(
                *old(self.writer),
                *encoder.writer,
                true,
                L::usize_form(len as nat),
            ) && *final(encoder.writer) == *final(self.writer),
            !L::holds(len as nat) ==> (r matches Err(e) && e.cause() == Cause::Message(
                Message::LengthOverflow,
            ) && *final(self.writer) == *old(self.writer)),
            r is Err ==> old(self.writer).written().is_prefix_of(final(self.writer).written()),
    {
        match L::encode_usize(self.writer, len) {
            Ok(()) => Ok(self),
            Err(e) => Err(e),
        }
    }

    /// Encode a map with a known length. Its pairs are encoded next, the first value of each before the second.
    #[inline]
    pub fn encode_map(self, len: usize) -> (r: Result<Self, W::Error>)
        ensures
            L::holds(len as nat) ==> (r is Ok <==> fits(
                *old(self.writer),
                L::usize_form(len as nat).len(),
            )),
            r matches Ok(encoder) ==> wrote(
                *old(self.writer),
                *encoder.writer,
                true,
                L::usize_form(len as nat),
            ) && *final(encoder.writer) == *final(self.writer),
            !L::holds(len as nat) ==> (r matches Err(e) && e.cause() == Cause::Message(
                Message::LengthOverflow,
            ) && *final(self.writer) == *old(self.writer)),
            r is Err ==> old(self.writer).written().is_prefix_of(final(self.writer).written()),
    {
        match L::encode_usize(self.writer, len) {
            Ok(()) => Ok(self),
            Err(e) => Err(e),
        }
    }

    /// Encode a struct. Its fields are encoded next, the tag of each before its value.
    #[inline]
    pub fn encode_struct(self, len: usize) -> (r: Result<Self, W::Error>)
        ensures
            L::holds(len as nat) ==> (r is Ok <==> fits(
                *old(self.writer),
                L::usize_form(len as nat).len(),
            )),
            r matches Ok(encoder) ==> wrote(
                *old(self.writer),
                *encoder.writer,
                true,
                L::usize_form(len as nat),
            ) && *final(encoder.writer) == *final(self.writer),
            !L::holds(len as nat) ==> (r matches Err(e) && e.cause() == Cause::Message(
                Message::LengthOverflow,
            ) && *final(self.writer) == *old(self.writer)),
            r is Err ==> old(self.writer).written().is_prefix_of(final(self.writer).written()),
    {
        match L::encode_usize(self.writer, len) {
            Ok(()) => Ok(self),
            Err(e) => Err(e),
        }
    }

    /// Construct a pack that can encode more than one element at a time.
    /// Nothing is written for it.
    #[inline]
    pub fn encode_pack(self) -> (r: Result<Self, W::Error>)
        ensures
            r matches Ok(encoder) && encoder == self,
    {
        Ok(self)
    }

    /// Encode an enum variant: its tag and its payload are encoded next.
    /// Nothing is written for it.
    #[inline]
    pub fn encode_variant(self) -> (r: Result<Self, W::Error>)
        ensures
            r matches Ok(encoder) && encoder == self,
    {
        Ok(self)
    }

    /// Encode fixed-length array: its bytes, without a length.
    #[inline]
    pub fn encode_array<const N: usize>(self, array: [u8; N]) -> (r: Result<(), W::Error>)
        ensures
            wrote(*old(self.writer), *final(self.writer), r is Ok, array@),
    {
        self.writer.write_bytes(array.as_slice())
    }

    /// Encode a sequence of bytes.
    #[inline]
    pub fn encode_bytes(self, bytes: &[u8]) -> (r: Result<(), W::Error>)
        ensures
            L::holds(bytes@.len()) ==> wrote(
                *old(self.writer),
                *final(self.writer),
                r is Ok,
                bytes_form::<L>(bytes@),
            ),
            !L::holds(bytes@.len()) ==> (r matches Err(e) && e.cause() == Cause::Message(
                Message::LengthOverflow,
            ) && *final(self.writer) == *old(self.writer)),
    {
        encode_prefixed::<W, L>(self.writer, bytes)
    }

    /// Encode the given slices of bytes in sequence, with one following
    /// another as a single contiguous byte array: the length of them all,
    /// and the bytes.
    #[inline]
    pub fn encode_bytes_vectored(self, vectors: &[&[u8]]) -> (r: Result<(), W::Error>)
        ensures
            L::holds(joined(vectors@, vectors@.len()).len()) ==> wrote(
                *old(self.writer),
                *final(self.writer),
                r is Ok,
                bytes_form::<L>(joined(vectors@, vectors@.len())),
            ),
            !L::holds(joined(vectors@, vectors@.len()).len()) ==> (r matches Err(e) && e.cause()
                == Cause::Message(Message::LengthOverflow) && *final(self.writer) == *old(
                self.writer,
            )),
    {
        let mut buffer: Vec<u8> = Vec::new();
        let mut i: usize = 0;
        while i < vectors.len()
            invariant
                i <= vectors@.len(),
                buffer@ == joined(vectors@, i as nat),
            decreases vectors@.len() - i,
        {
            buffer.extend_from_slice(vectors[i]);
            i = i + 1;
        }
        encode_prefixed::<W, L>(self.writer, buffer.as_slice())
    }

    /// Encode a string, as the bytes that it is made of.
    #[inline]
    pub fn encode_string(self, string: &str) -> (r: Result<(), W::Error>)
        ensures
            L::holds(string.spec_bytes().len()) ==> wrote(
                *old(self.writer),
                *final(self.writer),
                r is Ok,
                bytes_form::<L>(string.spec_bytes()),
            ),
            !L::holds(string.spec_bytes().len()) ==> (r matches Err(e) && e.cause()
                == Cause::Message(Message::LengthOverflow) && *final(self.writer) == *old(
                self.writer,
            )),
    {
        encode_prefixed::<W, L>(self.writer, string.as_bytes())
    }

    /// Encode Rusts [`usize`].
    #[inline]
    pub fn encode_usize(self, value: usize) -> (r: Result<(), W::Error>)
        ensures
            L::holds(value as nat) ==> wrote(
                *old(self.writer),
                *final(self.writer),
                r is Ok,
                L::usize_form(value as nat),
            ),
            !L::holds(value as nat) ==> (r matches Err(e) && e.cause() == Cause::Message(
                Message::LengthOverflow,
            ) && *final(self.writer) == *old(self.writer)),
    {
        L::encode_usize(self.writer, value)
    }

    /// Encode Rusts [`isize`], as the [`usize`] that has its bits.
    #[inline]
    pub fn encode_isize(self, value: isize) -> (r: Result<(), W::Error>)
        ensures
            L::holds(wrapped(value as int, usize::MAX as nat)) ==> wrote(
                *old(self.writer),
                *final(self.writer),
                r is Ok,
                L::usize_form(wrapped(value as int, usize::MAX as nat)),
            ),
            !L::holds(wrapped(value as int, usize::MAX as nat)) ==> (r matches Err(e)
                && e.cause() == Cause::Message(Message::LengthOverflow) && *final(self.writer)
                == *old(self.writer)),
    {
        L::encode_usize(self.writer, value.unsigned())
    }

    /// Encode a boolean value.
    #[inline]
    pub fn encode_bool(self, value: bool) -> (r: Result<(), W::Error>)
        ensures
            wrote(*old(self.writer), *final(self.writer), r is Ok, bool_form(value)),
    {
        self.writer.write_byte(if value {
            1
        } else {
            0
        })
    }

    /// Encode a character, as the number it has.
    #[inline]
    pub fn encode_char(self, value: char) -> (r: Result<(), W::Error>)
        ensures
            wrote(
                *old(self.writer),
                *final(self.writer),
                r is Ok,
                I::unsigned_form((value as u32) as nat, <u32 as Unsigned>::spec_bytes()),
            ),
    {
        I::encode_unsigned::<W, u32>(self.writer, value as u32)
    }

    /// Encode a 8-bit unsigned integer.
    #[inline]
    pub fn encode_u8(self, value: u8) -> (r: Result<(), W::Error>)
        ensures
            wrote(*old(self.writer), *final(self.writer), r is Ok, seq![value]),
    {
        self.writer.write_byte(value)
    }

    /// Encode a 8-bit signed integer, as the byte that has its bits.
    #[inline]
    pub fn encode_i8(self, value: i8) -> (r: Result<(), W::Error>)
        ensures
            wrote(
                *old(self.writer),
                *final(self.writer),
                r is Ok,
                seq![wrapped(value as int, 255) as u8],
            ),
    {
        self.writer.write_byte(value.unsigned())
    }

    /// Encode a 16-bit unsigned integer.
    #[inline]
    pub fn encode_u16(self, value: u16) -> (r: Result<(), W::Error>)
        ensures
            wrote(
                *old(self.writer),
                *final(self.writer),
                r is Ok,
                I::unsigned_form(value as nat, <u16 as Unsigned>::spec_bytes()),
            ),
    {
        I::encode_unsigned::<W, u16>(self.writer, value)
    }

    /// Encode a 32-bit unsigned integer.
    #[inline]
    pub fn encode_u32(self, value: u32) -> (r: Result<(), W::Error>)
        ensures
            wrote(
                *old(self.writer),
                *final(self.writer),
                r is Ok,
                I::unsigned_form(value as nat, <u32 as Unsigned>::spec_bytes()),
            ),
    {
        I::encode_unsigned::<W, u32>(self.writer, value)
    }

    /// Encode a 64-bit unsigned integer.
    #[inline]
    pub fn encode_u64(self, value: u64) -> (r: Result<(), W::Error>)
        ensures
            wrote(
                *old(self.writer),
                *final(self.writer),
                r is Ok,
                I::unsigned_form(value as nat, <u64 as Unsigned>::spec_bytes()),
            ),
    {
        I::encode_unsigned::<W, u64>(self.writer, value)
    }

    /// Encode a 128-bit unsigned integer.
    #[inline]
    pub fn encode_u128(self, value: u128) -> (r: Result<(), W::Error>)
        ensures
            wrote(
                *old(self.writer),
                *final(self.writer),
                r is Ok,
                I::unsigned_form(value as nat, <u128 as Unsigned>::spec_bytes()),
            ),
    {
        I::encode_unsigned::<W, u128>(self.writer, value)
    }

    /// Encode a 16-bit signed integer.
    #[inline]
    pub fn encode_i16(self, value: i16) -> (r: Result<(), W::Error>)
        ensures
            wrote(
                *old(self.writer),
                *final(self.writer),
                r is Ok,
                I::unsigned_form(
                    I::unsigned_of(value as int, <u16 as Unsigned>::max_value()),
                    <u16 as Unsigned>::spec_bytes(),
                ),
            ),
    {
        I::encode_signed::<W, i16>(self.writer, value)
    }

    /// Encode a 32-bit signed integer.
    #[inline]
    pub fn encode_i32(self, value: i32) -> (r: Result<(), W::Error>)
        ensures
            wrote(
                *old(self.writer),
                *final(self.writer),
                r is Ok,
                I::unsigned_form(
                    I::unsigned_of(value as int, <u32 as Unsigned>::max_value()),
                    <u32 as Unsigned>::spec_bytes(),
                ),
            ),
    {
        I::encode_signed::<W, i32>(self.writer, value)
    }

    /// Encode a 64-bit signed integer.
    #[inline]
    pub fn encode_i64(self, value: i64) -> (r: Result<(), W::Error>)
        ensures
            wrote(
                *old(self.writer),
                *final(self.writer),
                r is Ok,
                I::unsigned_form(
                    I::unsigned_of(value as int, <u64 as Unsigned>::max_value()),
                    <u64 as Unsigned>::spec_bytes(),
                ),
            ),
    {
        I::encode_signed::<W, i64>(self.writer, value)
    }

    /// Encode a 128-bit signed integer.
    #[inline]
    pub fn encode_i128(self, value: i128) -> (r: Result<(), W::Error>)
        ensures
            wrote(
                *old(self.writer),
                *final(self.writer),
                r is Ok,
                I::unsigned_form(
                    I::unsigned_of(value as int, <u128 as Unsigned>::max_value()),
                    <u128 as Unsigned>::spec_bytes(),
                ),
            ),
    {
        I::encode_signed::<W, i128>(self.writer, value)
    }

    /// Encode an optional value that is present. The value is encoded next.
    #[inline]
    pub fn encode_some(self) -> (r: Result<Self, W::Error>)
        ensures
            r is Ok <==> fits(*old(self.writer), 1),
            r matches Ok(encoder) ==> wrote(
                *old(self.writer),
                *encoder.writer,
                true,
                option_form(true),
            ) && *final(encoder.writer) == *final(self.writer),
            r is Err ==> final(self.writer).written() == old(self.writer).written(),
    {
        match self.writer.write_byte(1) {
            Ok(()) => Ok(self),
            Err(e) => Err(e),
        }
    }

    /// Encode an optional value that is absent.
    #[inline]
    pub fn encode_none(self) -> (r: Result<(), W::Error>)
        ensures
            wrote(*old(self.writer), *final(self.writer), r is Ok, option_form(false)),
    {
        self.writer.write_byte(0)
    }

    /// Prepare encoding of the next element of a pack.
    #[inline]
    pub fn next(&mut self) -> (r: Result<StorageEncoder<'_, W, I, L>, W::Error>)
        ensures
            r matches Ok(encoder) && *encoder.writer == *old(self).writer && *final(self).writer
                == *final(encoder.writer),
            *final(final(self).writer) == *final(old(self).writer),
    {
        Ok(StorageEncoder { writer: &mut *self.writer, marker: PhantomData })
    }

    /// Prepare encoding of the next element of a sequence.
    #[inline]
    pub fn encode_next(&mut self) -> (r: Result<StorageEncoder<'_, W, I, L>, W::Error>)
        ensures
            r matches Ok(encoder) && *encoder.writer == *old(self).writer && *final(self).writer
                == *final(encoder.writer),
            *final(final(self).writer) == *final(old(self).writer),
    {
        Ok(StorageEncoder { writer: &mut *self.writer, marker: PhantomData })
    }

    /// Return the encoder for the first element in the pair.
    #[inline]
    pub fn encode_first(&mut self) -> (r: Result<StorageEncoder<'_, W, I, L>, W::Error>)
        ensures
            r matches Ok(encoder) && *encoder.writer == *old(self).writer && *final(self).writer
                == *final(encoder.writer),
            *final(final(self).writer) == *final(old(self).writer),
    {
        Ok(StorageEncoder { writer: &mut *self.writer, marker: PhantomData })
    }

    /// Return encoder for the second element in the pair.
    #[inline]
    pub fn encode_second(&mut self) -> (r: Result<StorageEncoder<'_, W, I, L>, W::Error>)
        ensures
            r matches Ok(encoder) && *encoder.writer == *old(self).writer && *final(self).writer
                == *final(encoder.writer),
            *final(final(self).writer) == *final(old(self).writer),
    {
        Ok(StorageEncoder { writer: &mut *self.writer, marker: PhantomData })
    }

    /// Return the encoder for the tag of the variant.
    #[inline]
    pub fn encode_variant_tag(&mut self) -> (r: Result<StorageEncoder<'_, W, I, L>, W::Error>)
        ensures
            r matches Ok(encoder) && *encoder.writer == *old(self).writer && *final(self).writer
                == *final(encoder.writer),
            *final(final(self).writer) == *final(old(self).writer),
    {
        Ok(StorageEncoder { writer: &mut *self.writer, marker: PhantomData })
    }

    /// Return the encoder for the payload of the variant.
    #[inline]
    pub fn encode_variant_value(self) -> (r: Result<Self, W::Error>)
        ensures
            r matches Ok(encoder) && encoder == self,
    {
        Ok(self)
    }

    /// End the sequence, the pair or the pack. Nothing is written for it.
    #[inline]
    pub fn finish(self) -> (r: Result<(), W::Error>)
        ensures
            r is Ok,
            *final(self.writer) == *old(self.writer),
    {
        Ok(())
    }
}

} // verus!
