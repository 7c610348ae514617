//! Decoding values of the storage format.

use crate::error::{Cause, Error, Message, Outcome};
use crate::integer::byteorder::unwrapped;
use crate::integer::{Signed, Unsigned};
use crate::reader::{advanced, read, read_with, Reader};
use crate::storage::format::{
    bool_read, byte_read, bytes_read, char_read, option_read, raw_read, string_read,
};
use crate::storage::integer_encoding::{IntegerEncoding, UsizeEncoding};
use crate::text::{array_from_slice, str_from_utf8};
use std::marker::PhantomData;
use vstd::prelude::*;
use vstd::string::StringSliceAdditionalSpecFns;

verus! {

/// Read a boolean: the byte 0 or the byte 1.
pub fn decode_boolean<'de, R: Reader<'de>>(reader: &mut R) -> (r: Result<bool, R::Error>)
    ensures
        read(*old(reader), *final(reader), r, bool_read(old(reader).remaining())),
{
    let b = reader.read_byte()?;
    if b == 0 {
        Ok(false)
    } else if b == 1 {
        Ok(true)
    } else {
        Err(R::Error::message(Message::BadBooleanByte(b)))
    }
}

/// Read the byte that stands before an optional value, and tell whether
/// the value is present.
pub fn decode_presence<'de, R: Reader<'de>>(reader: &mut R) -> (r: Result<bool, R::Error>)
    ensures
        read(*old(reader), *final(reader), r, option_read(old(reader).remaining())),
{
    let b = reader.read_byte()?;
    if b == 0 {
        Ok(false)
    } else if b == 1 {
        Ok(true)
    } else {
        Err(R::Error::message(Message::BadOptionByte(b)))
    }
}

/// Read a sequence of bytes: its length and the bytes.
pub fn decode_prefixed<'de, R: Reader<'de>, L: UsizeEncoding>(reader: &mut R) -> (r: Result<
    &'de [u8],
    R::Error,
>)
    ensures
        read_with(
            *old(reader),
            *final(reader),
            r,
            bytes_read::<L>(old(reader).remaining()),
            |v: &[u8], value: Seq<u8>| v@ == value,
        ),
{
    let ghost source = reader.remaining();
    proof {
        L::lemma_usize_read(source);
    }
    let len = L::decode_usize(reader)?;
    let ghost used = L::usize_read(source)->Value_len;
    let r = reader.read_bytes(len);
    proof {
        if r is Ok {
            assert(source.skip(used as int).take(len as int) =~= source.subrange(
                used as int,
                (used + len) as int,
            ));
            assert(source.skip(used as int).skip(len as int) =~= source.skip((used + len) as int));
        }
    }
    r
}

/// Read a string: its length and its bytes, which must be UTF-8.
pub fn decode_str<'de, R: Reader<'de>, L: UsizeEncoding>(reader: &mut R) -> (r: Result<
    &'de str,
    R::Error,
>)
    ensures
        read_with(
            *old(reader),
            *final(reader),
            r,
            string_read::<L>(old(reader).remaining()),
            |v: &str, value: Seq<u8>| v.spec_bytes() == value,
        ),
{
    let bytes = decode_prefixed::<R, L>(reader)?;
    match str_from_utf8(bytes) {
        Some(string) => Ok(string),
        None => Err(R::Error::message(Message::InvalidUtf8)),
    }
}

/// Read a character, as the number it has.
pub fn decode_character<'de, R: Reader<'de>, I: IntegerEncoding>(reader: &mut R) -> (r: Result<
    char,
    R::Error,
>)
    ensures
        read(*old(reader), *final(reader), r, char_read::<I>(old(reader).remaining())),
{
    let num = I::decode_unsigned::<R, u32>(reader)?;
    match char::from_u32(num) {
        Some(d) => {
            proof {
                vstd::utf8::char_u32_cast(d, num);
            }
            Ok(d)
        },
        None => Err(R::Error::message(Message::BadCharacter(num))),
    }
}

/// A very simple decoder suitable for storage decoding.
pub struct StorageDecoder<'a, R, I, L> {
    /// Where the value is read from.
    pub reader: &'a mut R,
    /// How integers and lengths are written.
    pub marker: PhantomData<(I, L)>,
}

/// A decoder of a known number of elements or pairs of the storage format.
pub struct LimitedStorageDecoder<'a, R, I, L> {
    /// The number of elements, or of pairs, that are still to be decoded.
    pub remaining: usize,
    /// The decoder of the elements.
    pub decoder: StorageDecoder<'a, R, I, L>,
}

/// What opening a sequence does: the decoder that is handed out stands
/// behind the length and knows it.
pub open spec fn opened<'a, 'de, R: Reader<'de>, I, L>(
    before: R,
    after: R,
    r: Result<LimitedStorageDecoder<'a, R, I, L>, R::Error>,
    outcome: Outcome<nat>,
) -> bool {
    match outcome {
        Outcome::Value { value, len } => (r matches Ok(d) && d.remaining == value
            && advanced(before, *d.decoder.reader, len)),
        Outcome::Failure { message, len } => (r matches Err(e) && e.cause() == Cause::Message(
                    message,
                ) && advanced(before, after, len)),
        Outcome::Underflow => r is Err,
    }
}

impl<'a, 'de, R: Reader<'de>, I: IntegerEncoding, L: UsizeEncoding> StorageDecoder<'a, R, I, L> {
    /// Construct a new fixed width message decoder.
    #[inline]
    pub fn new(reader: &'a mut R) -> (decoder: Self)
        ensures
            *decoder.reader == *old(reader),
            *final(decoder.reader) == *final(reader),
    {
        Self { reader, marker: PhantomData }
    }

    /// Decode a boolean.
    #[inline]
    pub fn decode_bool(self) -> (r: Result<bool, R::Error>)
        ensures
            read(*old(self.reader), *final(self.reader), r, bool_read(old(self.reader).remaining())),
    {
        decode_boolean(self.reader)
    }

    /// Decode a character.
    #[inline]
    pub fn decode_char(self) -> (r: Result<char, R::Error>)
        ensures
            read(*old(self.reader), *final(self.reader), r, char_read::<I>(old(self.reader).remaining())),
    {
        decode_character::<R, I>(self.reader)
    }

    /// Decode a 8-bit unsigned integer.
    #[inline]
    pub fn decode_u8(self) -> (r: Result<u8, R::Error>)
        ensures
            read(*old(self.reader), *final(self.reader), r, byte_read(old(self.reader).remaining())),
    {
        self.reader.read_byte()
    }

    /// Decode a 16-bit unsigned integer.
    #[inline]
    pub fn decode_u16(self) -> (r: Result<u16, R::Error>)
        ensures
            read_with(
                *old(self.reader),
                *final(self.reader),
                r,
                I::unsigned_read(
                    old(self.reader).remaining(),
                    <u16 as Unsigned>::max_value(),
                    <u16 as Unsigned>::spec_groups(),
                    <u16 as Unsigned>::spec_bytes(),
                ),
                |v: u16, value: nat| v == value,
            ),
    {
        I::decode_unsigned::<R, u16>(self.reader)
    }

    /// Decode a 32-bit unsigned integer.
    #[inline]
    pub fn decode_u32(self) -> (r: Result<u32, R::Error>)
        ensures
            read_with(
                *old(self.reader),
                *final(self.reader),
                r,
                I::unsigned_read(
                    old(self.reader).remaining(),
                    <u32 as Unsigned>::max_value(),
                    <u32 as Unsigned>::spec_groups(),
                    <u32 as Unsigned>::spec_bytes(),
                ),
                |v: u32, value: nat| v == value,
            ),
    {
        I::decode_unsigned::<R, u32>(self.reader)
    }

    /// Decode a 64-bit unsigned integer.
    #[inline]
    pub fn decode_u64(self) -> (r: Result<u64, R::Error>)
        ensures
            read_with(
                *old(self.reader),
                *final(self.reader),
                r,
                I::unsigned_read(
                    old(self.reader).remaining(),
                    <u64 as Unsigned>::max_value(),
                    <u64 as Unsigned>::spec_groups(),
                    <u64 as Unsigned>::spec_bytes(),
                ),
                |v: u64, value: nat| v == value,
            ),
    {
        I::decode_unsigned::<R, u64>(self.reader)
    }

    /// Decode a 128-bit unsigned integer.
    #[inline]
    pub fn decode_u128(self) -> (r: Result<u128, R::Error>)
        ensures
            read_with(
                *old(self.reader),
                *final(self.reader),
                r,
                I::unsigned_read(
                    old(self.reader).remaining(),
                    <u128 as Unsigned>::max_value(),
                    <u128 as Unsigned>::spec_groups(),
                    <u128 as Unsigned>::spec_bytes(),
                ),
                |v: u128, value: nat| v == value,
            ),
    {
        I::decode_unsigned::<R, u128>(self.reader)
    }

    /// Decode a 16-bit signed integer.
    #[inline]
    pub fn decode_i16(self) -> (r: Result<i16, R::Error>)
        ensures
            read_with(
                *old(self.reader),
                *final(self.reader),
                r,
                I::unsigned_read(
                    old(self.reader).remaining(),
                    <u16 as Unsigned>::max_value(),
                    <u16 as Unsigned>::spec_groups(),
                    <u16 as Unsigned>::spec_bytes(),
                ),
                |v: i16, value: nat| v == I::signed_of(value, <u16 as Unsigned>::max_value()),
            ),
    {
        I::decode_signed::<R, i16>(self.reader)
    }

    /// Decode a 32-bit signed integer.
    #[inline]
    pub fn decode_i32(self) -> (r: Result<i32, R::Error>)
        ensures
            read_with(
                *old(self.reader),
                *final(self.reader),
                r,
                I::unsigned_read(
                    old(self.reader).remaining(),
                    <u32 as Unsigned>::max_value(),
                    <u32 as Unsigned>::spec_groups(),
                    <u32 as Unsigned>::spec_bytes(),
                ),
                |v: i32, value: nat| v == I::signed_of(value, <u32 as Unsigned>::max_value()),
            ),
    {
        I::decode_signed::<R, i32>(self.reader)
    }

    /// Decode a 64-bit signed integer.
    #[inline]
    pub fn decode_i64(self) -> (r: Result<i64, R::Error>)
        ensures
            read_with(
                *old(self.reader),
                *final(self.reader),
                r,
                I::unsigned_read(
                    old(self.reader).remaining(),
                    <u64 as Unsigned>::max_value(),
                    <u64 as Unsigned>::spec_groups(),
                    <u64 as Unsigned>::spec_bytes(),
                ),
                |v: i64, value: nat| v == I::signed_of(value, <u64 as Unsigned>::max_value()),
            ),
    {
        I::decode_signed::<R, i64>(self.reader)
    }

    /// Decode a 128-bit signed integer.
    #[inline]
    pub fn decode_i128(self) -> (r: Result<i128, R::Error>)
        ensures
            read_with(
                *old(self.reader),
                *final(self.reader),
                r,
                I::unsigned_read(
                    old(self.reader).remaining(),
                    <u128 as Unsigned>::max_value(),
                    <u128 as Unsigned>::spec_groups(),
                    <u128 as Unsigned>::spec_bytes(),
                ),
                |v: i128, value: nat| v == I::signed_of(value, <u128 as Unsigned>::max_value()),
            ),
    {
        I::decode_signed::<R, i128>(self.reader)
    }

    /// Decode Rusts [`usize`].
    #[inline]
    pub fn decode_usize(self) -> (r: Result<usize, R::Error>)
        ensures
            read_with(
                *old(self.reader),
                *final(self.reader),
                r,
                L::usize_read(old(self.reader).remaining()),
                |v: usize, value: nat| v == value,
            ),
    {
        L::decode_usize(self.reader)
    }

    /// Decode a sequence of bytes, which are borrowed from the source.
    #[inline]
    pub fn decode_bytes(self) -> (r: Result<&'de [u8], R::Error>)
        ensures
            read_with(
                *old(self.reader),
                *final(self.reader),
                r,
                bytes_read::<L>(old(self.reader).remaining()),
                |v: &[u8], value: Seq<u8>| v@ == value,
            ),
    {
        decode_prefixed::<R, L>(self.reader)
    }

    /// Decode a string, which is borrowed from the source.
    #[inline]
    pub fn decode_string(self) -> (r: Result<&'de str, R::Error>)
        ensures
            read_with(
                *old(self.reader),
                *final(self.reader),
                r,
                string_read::<L>(old(self.reader).remaining()),
                |v: &str, value: Seq<u8>| v.spec_bytes() == value,
            ),
    {
        decode_str::<R, L>(self.reader)
    }

    /// Decode a 8-bit signed integer, which has the bits of the byte that is read.
    #[inline]
    pub fn decode_i8(self) -> (r: Result<i8, R::Error>)
        ensures
            read_with(
                *old(self.reader),
                *final(self.reader),
                r,
                byte_read(old(self.reader).remaining()),
                |v: i8, value: u8| v == unwrapped(value as nat, 255),
            ),
    {
        Ok(i8::from_unsigned(self.reader.read_byte()?))
    }

    /// Decode Rusts [`isize`], which has the bits of the [`usize`] that is read.
    #[inline]
    pub fn decode_isize(self) -> (r: Result<isize, R::Error>)
        ensures
            read_with(
                *old(self.reader),
                *final(self.reader),
                r,
                L::usize_read(old(self.reader).remaining()),
                |v: isize, value: nat| v == unwrapped(value, usize::MAX as nat),
            ),
    {
        Ok(isize::from_unsigned(L::decode_usize(self.reader)?))
    }

    /// Decode a fixed-length array: its bytes, without a length.
    #[inline]
    pub fn decode_array<const N: usize>(self) -> (r: Result<[u8; N], R::Error>)
        ensures
            read_with(
                *old(self.reader),
                *final(self.reader),
                r,
                raw_read(old(self.reader).remaining(), N as nat),
                |v: [u8; N], value: Seq<u8>| v@ == value,
            ),
    {
        let bytes = self.reader.read_bytes(N)?;
        Ok(array_from_slice(bytes))
    }

    /// Decode a unit: the length of an empty sequence, whatever it is.
    #[inline]
    pub fn decode_unit(self) -> (r: Result<(), R::Error>)
        ensures
            read_with(
                *old(self.reader),
                *final(self.reader),
                r,
                L::usize_read(old(self.reader).remaining()),
                |v: (), value: nat| true,
            ),
    {
        L::decode_usize(self.reader)?;
        Ok(())
    }

    /// Decode a unit struct: the number of its fields, whatever it is.
    #[inline]
    pub fn decode_unit_struct(self) -> (r: Result<(), R::Error>)
        ensures
            read_with(
                *old(self.reader),
                *final(self.reader),
                r,
                L::usize_read(old(self.reader).remaining()),
                |v: (), value: nat| true,
            ),
    {
        L::decode_usize(self.reader)?;
        Ok(())
    }

    /// Decode a pack: the decoder of its elements. Nothing is read for it.
    #[inline]
    pub fn decode_pack(self) -> (r: Result<Self, R::Error>)
        ensures
            r matches Ok(decoder) && decoder == self,
    {
        Ok(self)
    }

    /// Decode a variant: the decoder of its tag and its payload. Nothing is read for it.
    #[inline]
    pub fn decode_variant(self) -> (r: Result<Self, R::Error>)
        ensures
            r matches Ok(decoder) && decoder == self,
    {
        Ok(self)
    }

    /// Decode an optional value: nothing where it is absent, the decoder of
    /// the value where it is present.
    #[inline]
    pub fn decode_option(self) -> (r: Result<Option<Self>, R::Error>)
        ensures
            match option_read(old(self.reader).remaining()) {
                Outcome::Value { value, len } => (r matches Ok(some) && some is Some == value && (
                some matches Some(d) ==> advanced(*old(self.reader), *d.reader, len) && *final(d.reader) == *final(self.reader)) && (
                some is None ==> advanced(*old(self.reader), *final(self.reader), len))),
                Outcome::Failure { message, len } => (r matches Err(e) && e.cause() == Cause::Message(
                    message,
                ) && advanced(*old(self.reader), *final(self.reader), len)),
                Outcome::Underflow => r is Err,
            },
    {
        if decode_presence(self.reader)? {
            Ok(Some(self))
        } else {
            Ok(None)
        }
    }

    /// Decode a sequence: the decoder of its elements.
    #[inline]
    pub fn decode_sequence(self) -> (r: Result<LimitedStorageDecoder<'a, R, I, L>, R::Error>)
        ensures
            opened(
                *old(self.reader),
                *final(self.reader),
                r, L::usize_read(old(self.reader).remaining())),
            r matches Ok(d) ==> *final(d.decoder.reader) == *final(self.reader),
    {
        let len = L::decode_usize(self.reader)?;
        Ok(LimitedStorageDecoder::new(len, self))
    }

    /// Decode a tuple: the decoder of its elements.
    #[inline]
    pub fn decode_tuple(self, _len: usize) -> (r: Result<LimitedStorageDecoder<'a, R, I, L>, R::Error>)
        ensures
            opened(
                *old(self.reader),
                *final(self.reader),
                r, L::usize_read(old(self.reader).remaining())),
            r matches Ok(d) ==> *final(d.decoder.reader) == *final(self.reader),
    {
        let len = L::decode_usize(self.reader)?;
        Ok(LimitedStorageDecoder::new(len, self))
    }

    /// Decode a map: the decoder of its pairs.
    #[inline]
    pub fn decode_map(self) -> (r: Result<LimitedStorageDecoder<'a, R, I, L>, R::Error>)
        ensures
            opened(
                *old(self.reader),
                *final(self.reader),
                r, L::usize_read(old(self.reader).remaining())),
            r matches Ok(d) ==> *final(d.decoder.reader) == *final(self.reader),
    {
        let len = L::decode_usize(self.reader)?;
        Ok(LimitedStorageDecoder::new(len, self))
    }

    /// Decode a struct: the decoder of its fields, the tag of each before its value.
    #[inline]
    pub fn decode_struct(self, _len: usize) -> (r: Result<LimitedStorageDecoder<'a, R, I, L>, R::Error>)
        ensures
            opened(
                *old(self.reader),
                *final(self.reader),
                r, L::usize_read(old(self.reader).remaining())),
            r matches Ok(d) ==> *final(d.decoder.reader) == *final(self.reader),
    {
        let len = L::decode_usize(self.reader)?;
        Ok(LimitedStorageDecoder::new(len, self))
    }

    /// The decoder of the next element of a pack, of the first value of a
    /// pair, or of the tag of a variant.
    #[inline]
    pub fn next(&mut self) -> (r: Result<StorageDecoder<'_, R, I, L>, R::Error>)
        ensures
            r matches Ok(decoder) && *decoder.reader == *old(self).reader && *final(self).reader
                == *final(decoder.reader),
            *final(final(self).reader) == *final(old(self).reader),
    {
        Ok(StorageDecoder { reader: &mut *self.reader, marker: PhantomData })
    }

    /// The decoder of the first value of a pair.
    #[inline]
    pub fn first(&mut self) -> (r: Result<StorageDecoder<'_, R, I, L>, R::Error>)
        ensures
            r matches Ok(decoder) && *decoder.reader == *old(self).reader && *final(self).reader
                == *final(decoder.reader),
            *final(final(self).reader) == *final(old(self).reader),
    {
        Ok(StorageDecoder { reader: &mut *self.reader, marker: PhantomData })
    }

    /// The decoder of the second value of a pair.
    #[inline]
    pub fn second(self) -> (r: Result<Self, R::Error>)
        ensures
            r matches Ok(decoder) && decoder == self,
    {
        Ok(self)
    }

    /// Skip over the second value of a pair, which this format cannot do:
    /// the value is left where it is.
    #[inline]
    pub fn skip_second(self) -> (r: Result<bool, R::Error>)
        ensures
            r matches Ok(false),
            *final(self.reader) == *old(self.reader),
    {
        Ok(false)
    }

    /// End the pack. Nothing is read for it.
    #[inline]
    pub fn end(self) -> (r: Result<(), R::Error>)
        ensures
            r is Ok,
            *final(self.reader) == *old(self.reader),
    {
        Ok(())
    }
}

impl<'a, 'de, R: Reader<'de>, I: IntegerEncoding, L: UsizeEncoding> LimitedStorageDecoder<
    'a,
    R,
    I,
    L,
> {
    /// A decoder of `remaining` elements, or pairs, which are read by `decoder`.
    #[inline]
    pub fn new(remaining: usize, decoder: StorageDecoder<'a, R, I, L>) -> (r: Self)
        ensures
            r.remaining == remaining,
            r.decoder == decoder,
    {
        Self { remaining, decoder }
    }

    /// The number of elements, or pairs, that are still to be decoded.
    #[inline]
    pub fn size_hint(&self) -> (r: Option<usize>)
        ensures
            r == Some(self.remaining),
    {
        Some(self.remaining)
    }

    /// The decoder of the next element, or pair, unless all are decoded.
    #[inline]
    pub fn next(&mut self) -> (r: Result<Option<StorageDecoder<'_, R, I, L>>, R::Error>)
        ensures
            old(self).remaining == 0 ==> (r matches Ok(None) && final(self).remaining == 0
                && *final(self).decoder.reader == *old(self).decoder.reader),
            old(self).remaining > 0 ==> (r matches Ok(Some(decoder)) && final(self).remaining
                == old(self).remaining - 1 && *decoder.reader == *old(self).decoder.reader
                && *final(self).decoder.reader == *final(decoder.reader)),
            *final(final(self).decoder.reader) == *final(old(self).decoder.reader),
    {
        if self.remaining == 0 {
            return Ok(None);
        }
        self.remaining = self.remaining - 1;
        Ok(Some(StorageDecoder { reader: &mut *self.decoder.reader, marker: PhantomData }))
    }
}

} // verus!
