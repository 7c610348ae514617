//! Decoding values of the binary-tagged format.

use crate::error::{Cause, Error, Message, Outcome};
use crate::integer::continuation;
use crate::integer::Unsigned;
use crate::reader::{
    advanced, advanced_at, read, read_at, read_with, read_with_at, PositionedReader, Reader,
};
use crate::storage::integer_encoding::UsizeEncoding;
use crate::integer::byteorder::unwrapped;
use crate::integer::Signed;
use crate::text::{array_from_slice, str_from_utf8};
use crate::wire::format::{
    array_read, bool_read, byte_read, bytes_read, char_read, header_read, length_read,
    lemma_length_read, lemma_skip_len, option_read, prefixed_read, skip_many, skip_read,
    string_read, variant_read,
};
use crate::wire::integer_encoding::{
    after, decode_typed_signed, decode_typed_unsigned, decode_typed_usize, typed_unsigned_read,
    typed_usize_read, TypedIntegerEncoding, TypedUsizeEncoding,
};
use vstd::string::StringSliceAdditionalSpecFns;
use crate::wire::types::{TypeKind, TypeTag};
use std::marker::PhantomData;
use vstd::prelude::*;

verus! {

broadcast use crate::reader::lemma_position_of;

/// Read the length that a tag carries: out of the tag, or from behind it.
pub fn decode_length<'de, R: Reader<'de>, L: UsizeEncoding>(reader: &mut R, tag: TypeTag) -> (r:
    Result<usize, R::Error>)
    requires
        tag.wf(),
    ensures
        read_with(
            *old(reader),
            *final(reader),
            r,
            length_read::<L>(tag, old(reader).remaining()),
            |v: usize, value: nat| v == value,
        ),
{
    proof {
        lemma_length_read::<L>(tag, reader.remaining());
        assert(reader.remaining().skip(0) =~= reader.remaining());
    }
    match tag.len() {
        Some(len) => Ok(len as usize),
        None => L::decode_usize(reader),
    }
}

/// Skip over `count` values of any kind.
pub fn skip_count<'de, R: Reader<'de>, L: UsizeEncoding>(reader: &mut R, count: usize) -> (r:
    Result<(), R::Error>)
    ensures
        read(*old(reader), *final(reader), r, skip_many::<L>(old(reader).remaining(), count as nat)),
    decreases old(reader).remaining().len(), 1nat,
{
    let ghost source = reader.remaining();
    proof {
        lemma_skip_len::<L>(source, count as nat);
    }
    let ghost mut consumed: nat = 0;
    let mut done: usize = 0;
    proof {
        assert(source.skip(0) =~= source);
        match skip_many::<L>(source, count as nat) {
            Outcome::Value { value, len } => {},
            Outcome::Failure { message, len } => {},
            Outcome::Underflow => {},
        }
    }
    while done < count
        invariant
            source == old(reader).remaining(),
            done <= count,
            consumed <= source.len(),
            reader.remaining() == source.skip(consumed as int),
            reader.end() == old(reader).end(),
            skip_many::<L>(source, count as nat) == after(
                skip_many::<L>(reader.remaining(), (count - done) as nat),
                consumed,
            ),
        decreases count - done,
    {
        let ghost rest = reader.remaining();
        proof {
            lemma_skip_len::<L>(rest, 1);
        }
        match skip_any::<R, L>(reader) {
            Ok(()) => {},
            Err(e) => {
                proof {
                    if let Outcome::Failure { message, len: failed } = skip_read::<L>(rest) {
                        assert(rest.skip(failed as int) =~= source.skip((consumed + failed) as int));
                    }
                }
                return Err(e);
            },
        }
        proof {
            let len = skip_read::<L>(rest)->Value_len;
            assert(rest.skip(len as int) =~= source.skip((consumed + len) as int));
            match skip_many::<L>(reader.remaining(), (count - done - 1) as nat) {
                Outcome::Value { value, len } => {},
                Outcome::Failure { message, len } => {},
                Outcome::Underflow => {},
            }
            consumed = consumed + len;
        }
        done = done + 1;
    }
    Ok(())
}

/// Skip over the bytes that a tag of the kind `Fixed` or `Prefixed` announces.
fn skip_payload<'de, R: Reader<'de>, L: UsizeEncoding>(reader: &mut R, tag: TypeTag) -> (r:
    Result<(), R::Error>)
    requires
        tag.wf(),
    ensures
        match length_read::<L>(tag, old(reader).remaining()) {
            Outcome::Value { value, len } => match bytes_read(
                old(reader).remaining().skip(len as int),
                value,
            ) {
                Outcome::Value { value: _, len: more } => (r is Ok && advanced(
                    *old(reader),
                    *final(reader),
                    len + more,
                )),
                _ => r is Err,
            },
            Outcome::Failure { message, len } => (r matches Err(e) && e.cause() == Cause::Message(
                message,
            ) && advanced(*old(reader), *final(reader), len)),
            Outcome::Underflow => r is Err,
        },
        final(reader).remaining().len() <= old(reader).remaining().len(),
{
    let ghost body = reader.remaining();
    proof {
        lemma_length_read::<L>(tag, body);
    }
    let len = match decode_length::<R, L>(reader, tag) {
        Ok(len) => len,
        Err(e) => {
            return Err(e);
        },
    };
    let ghost used = length_read::<L>(tag, body)->Value_len;
    let r = reader.skip(len);
    proof {
        if r is Ok {
            assert(body.skip(used as int).skip(len as int) =~= body.skip((used + len) as int));
        }
    }
    r
}

/// Skip over the values that a tag of the kind `Sequence` announces, or over
/// twice as many for a tag of the kind `PairSequence`.
fn skip_items<'de, R: Reader<'de>, L: UsizeEncoding>(
    reader: &mut R,
    tag: TypeTag,
    pairs: bool,
) -> (r: Result<(), R::Error>)
    requires
        tag.wf(),
    ensures
        match length_read::<L>(tag, old(reader).remaining()) {
            Outcome::Value { value, len } => match skip_many::<L>(
                old(reader).remaining().skip(len as int),
                if pairs {
                    2 * value
                } else {
                    value
                },
            ) {
                Outcome::Value { value: _, len: more } => (r is Ok && advanced(
                    *old(reader),
                    *final(reader),
                    len + more,
                )),
                Outcome::Failure { message, len: failed } => (r matches Err(e) && e.cause()
                    == Cause::Message(message) && advanced(
                    *old(reader),
                    *final(reader),
                    len + failed,
                )),
                Outcome::Underflow => r is Err,
            },
            Outcome::Failure { message, len } => (r matches Err(e) && e.cause() == Cause::Message(
                message,
            ) && advanced(*old(reader), *final(reader), len)),
            Outcome::Underflow => r is Err,
        },
        final(reader).remaining().len() <= old(reader).remaining().len(),
    decreases old(reader).remaining().len(), 2nat,
{
    let ghost body = reader.remaining();
    proof {
        lemma_length_read::<L>(tag, body);
    }
    let len = match decode_length::<R, L>(reader, tag) {
        Ok(len) => len,
        Err(e) => {
            return Err(e);
        },
    };
    let ghost used = length_read::<L>(tag, body)->Value_len;
    let ghost items = reader.remaining();
    proof {
        lemma_skip_len::<L>(items, len as nat);
        if pairs {
            crate::wire::format::lemma_skip_many_adds::<L>(items, len as nat, len as nat);
        }
    }
    match skip_count::<R, L>(reader, len) {
        Ok(()) => {},
        Err(e) => {
            proof {
                if let Outcome::Failure { message, len: failed } = skip_many::<L>(
                    items,
                    len as nat,
                ) {
                    assert(items.skip(failed as int) =~= body.skip((used + failed) as int));
                }
            }
            return Err(e);
        },
    }
    let ghost first = skip_many::<L>(items, len as nat)->Value_len;
    proof {
        assert(items.skip(first as int) =~= body.skip((used + first) as int));
    }
    if !pairs {
        return Ok(());
    }
    let ghost behind = reader.remaining();
    let r = skip_count::<R, L>(reader, len);
    proof {
        lemma_skip_len::<L>(behind, len as nat);
        if r is Ok {
            let more = skip_many::<L>(behind, len as nat)->Value_len;
            assert(behind.skip(more as int) =~= body.skip((used + first + more) as int));
        }
        if let Outcome::Failure { message, len: failed } = skip_many::<L>(behind, len as nat) {
            assert(behind.skip(failed as int) =~= body.skip((used + first + failed) as int));
        }
    }
    r
}

/// Skip over one value of any kind, whatever type it was written for.
pub fn skip_any<'de, R: Reader<'de>, L: UsizeEncoding>(reader: &mut R) -> (r: Result<
    (),
    R::Error,
>)
    ensures
        read(*old(reader), *final(reader), r, skip_read::<L>(old(reader).remaining())),
    decreases old(reader).remaining().len(), 0nat,
{
    let ghost source = reader.remaining();
    proof {
        lemma_skip_len::<L>(source, 1);
    }
    let tag = match reader.read_byte() {
        Ok(b) => TypeTag::from_byte(b),
        Err(e) => {
            return Err(e);
        },
    };
    let ghost body = reader.remaining();
    proof {
        lemma_length_read::<L>(tag, body);
        continuation::lemma_run(body);
        lemma_skip_len::<L>(source, 0);
    }
    match tag.kind {
        TypeKind::Mark => Ok(()),
        TypeKind::Byte => {
            if tag.len().is_none() {
                let r = reader.skip(1);
                proof {
                    if r is Ok {
                        assert(body.skip(1) =~= source.skip(2));
                    }
                }
                r
            } else {
                Ok(())
            }
        },
        TypeKind::Fixed | TypeKind::Prefixed => {
            let r = skip_payload::<R, L>(reader, tag);
            proof {
                match skip_read::<L>(source) {
                    Outcome::Value { value, len } => {
                        assert(body.skip((len - 1) as int) =~= source.skip(len as int));
                    },
                    Outcome::Failure { message, len } => {
                        assert(body.skip((len - 1) as int) =~= source.skip(len as int));
                    },
                    Outcome::Underflow => {},
                }
            }
            r
        },
        TypeKind::Continuation => {
            let r = continuation::decode::<R, u128>(reader);
            proof {
                match skip_read::<L>(source) {
                    Outcome::Value { value, len } => {
                        assert(body.skip((len - 1) as int) =~= source.skip(len as int));
                    },
                    Outcome::Failure { message, len } => {
                        assert(body.skip((len - 1) as int) =~= source.skip(len as int));
                    },
                    Outcome::Underflow => {},
                }
            }
            match r {
                Ok(_) => Ok(()),
                Err(e) => Err(e),
            }
        },
        TypeKind::Sequence => {
            let r = skip_items::<R, L>(reader, tag, false);
            proof {
                match skip_read::<L>(source) {
                    Outcome::Value { value, len } => {
                        assert(body.skip((len - 1) as int) =~= source.skip(len as int));
                    },
                    Outcome::Failure { message, len } => {
                        assert(body.skip((len - 1) as int) =~= source.skip(len as int));
                    },
                    Outcome::Underflow => {},
                }
            }
            r
        },
        TypeKind::PairSequence => {
            let r = skip_items::<R, L>(reader, tag, true);
            proof {
                match skip_read::<L>(source) {
                    Outcome::Value { value, len } => {
                        assert(body.skip((len - 1) as int) =~= source.skip(len as int));
                    },
                    Outcome::Failure { message, len } => {
                        assert(body.skip((len - 1) as int) =~= source.skip(len as int));
                    },
                    Outcome::Underflow => {},
                }
            }
            r
        },
        TypeKind::Unknown => Err(R::Error::message(Message::UnknownKind { tag })),
    }
}

// ---- decoders ----
/// Read a tag of the given kind and the length that it carries.
pub fn decode_header<'de, R: PositionedReader<'de>, L: UsizeEncoding>(
    reader: &mut R,
    kind: TypeKind,
) -> (r: Result<usize, R::Error>)
    ensures
        read_with_at(
            *old(reader),
            *final(reader),
            r,
            header_read::<L>(old(reader).remaining(), kind, old(reader).position()),
            |v: usize, value: nat| v == value,
        ),
{
    let pos = reader.pos();
    let tag = TypeTag::from_byte(reader.read_byte()?);
    if tag.kind != kind {
        return Err(R::Error::message(Message::Expected { expected: kind, actual: tag, pos }));
    }
    let ghost body = reader.remaining();
    let r = decode_length::<R, L>(reader, tag);
    proof {
        lemma_length_read::<L>(tag, body);
        if let Outcome::Value { value, len } = length_read::<L>(tag, body) {
            assert(body.skip(len as int) =~= old(reader).remaining().skip(len as int + 1));
        }
        if let Outcome::Failure { message, len } = length_read::<L>(tag, body) {
            assert(body.skip(len as int) =~= old(reader).remaining().skip(len as int + 1));
        }
    }
    r
}

/// Read a byte: out of its tag, or from behind it.
pub fn decode_byte<'de, R: PositionedReader<'de>>(reader: &mut R) -> (r: Result<u8, R::Error>)
    ensures
        read_at(
            *old(reader),
            *final(reader),
            r,
            byte_read(old(reader).remaining(), old(reader).position()),
        ),
{
    let pos = reader.pos();
    let tag = TypeTag::from_byte(reader.read_byte()?);
    if tag.kind != TypeKind::Byte {
        return Err(
            R::Error::message(
                Message::Expected { expected: TypeKind::Byte, actual: tag, pos },
            ),
        );
    }
    match tag.len() {
        Some(b) => Ok(b),
        None => {
            let r = reader.read_byte();
            proof {
                if r is Ok {
                    assert(old(reader).remaining().skip(1).skip(1) =~= old(
                        reader,
                    ).remaining().skip(2));
                }
            }
            r
        },
    }
}

/// Read a boolean.
pub fn decode_boolean<'de, R: PositionedReader<'de>>(reader: &mut R) -> (r: Result<bool, R::Error>)
    ensures
        read_at(
            *old(reader),
            *final(reader),
            r,
            bool_read(old(reader).remaining(), old(reader).position()),
        ),
{
    let pos = reader.pos();
    let tag = TypeTag::from_byte(reader.read_byte()?);
    if tag.kind == TypeKind::Byte && tag.len == 0 {
        Ok(false)
    } else if tag.kind == TypeKind::Byte && tag.len == 1 {
        Ok(true)
    } else {
        Err(R::Error::message(Message::BadBoolean { actual: tag, pos }))
    }
}

/// Read the marker of an optional value, and tell whether the value is present.
pub fn decode_presence<'de, R: PositionedReader<'de>>(reader: &mut R) -> (r: Result<
    bool,
    R::Error,
>)
    ensures
        read_at(
            *old(reader),
            *final(reader),
            r,
            option_read(old(reader).remaining(), old(reader).position()),
        ),
{
    let pos = reader.pos();
    let tag = TypeTag::from_byte(reader.read_byte()?);
    if tag.kind == TypeKind::Mark && tag.len == 0 {
        Ok(false)
    } else if tag.kind == TypeKind::Mark && tag.len == 1 {
        Ok(true)
    } else {
        Err(R::Error::message(Message::ExpectedOption { tag, pos }))
    }
}

/// Read the tag that stands before the tag and the payload of a variant.
pub fn decode_variant_tag<'de, R: PositionedReader<'de>>(reader: &mut R) -> (r: Result<
    (),
    R::Error,
>)
    ensures
        read_at(
            *old(reader),
            *final(reader),
            r,
            variant_read(old(reader).remaining(), old(reader).position()),
        ),
{
    let pos = reader.pos();
    let tag = TypeTag::from_byte(reader.read_byte()?);
    if tag.kind == TypeKind::PairSequence && tag.len == 1 {
        Ok(())
    } else {
        Err(
            R::Error::message(
                Message::Expected { expected: TypeKind::PairSequence, actual: tag, pos },
            ),
        )
    }
}

/// Read a sequence of bytes: its length and the bytes.
pub fn decode_prefixed<'de, R: PositionedReader<'de>, L: UsizeEncoding>(reader: &mut R) -> (r:
    Result<&'de [u8], R::Error>)
    ensures
        read_with_at(
            *old(reader),
            *final(reader),
            r,
            prefixed_read::<L>(old(reader).remaining(), old(reader).position()),
            |v: &[u8], value: Seq<u8>| v@ == value,
        ),
{
    let ghost source = reader.remaining();
    proof {
        lemma_header_len::<L>(source, TypeKind::Prefixed, reader.position());
    }
    let len = decode_header::<R, L>(reader, TypeKind::Prefixed)?;
    let ghost used = header_read::<L>(source, TypeKind::Prefixed, old(reader).position())->Value_len;
    let r = reader.read_bytes(len);
    proof {
        if r is Ok {
            assert(source.skip(used as int).take(len as int) =~= source.subrange(
                used as int,
                (used + len) as int,
            ));
            assert(source.skip(used as int).skip(len as int) =~= source.skip((used + len) as int));
        }
    }
    r
}

/// What is read as a header lies within the source.
pub proof fn lemma_header_len<L: UsizeEncoding>(source: Seq<u8>, kind: TypeKind, pos: usize)
    ensures
        header_read::<L>(source, kind, pos) matches Outcome::Value { value, len } ==> 1 <= len
            <= source.len() && value <= usize::MAX,
{
    if source.len() > 0 {
        lemma_length_read::<L>(TypeTag::spec_from_byte(source[0]), source.skip(1));
    }
}

/// Read an array of `N` bytes.
pub fn decode_bytes_array<'de, R: PositionedReader<'de>, L: UsizeEncoding, const N: usize>(
    reader: &mut R,
) -> (r: Result<[u8; N], R::Error>)
    ensures
        read_with_at(
            *old(reader),
            *final(reader),
            r,
            array_read::<L>(old(reader).remaining(), old(reader).position(), N),
            |v: [u8; N], value: Seq<u8>| v@ == value,
        ),
{
    let ghost source = reader.remaining();
    proof {
        lemma_header_len::<L>(source, TypeKind::Prefixed, reader.position());
    }
    let pos = reader.pos();
    let len = decode_header::<R, L>(reader, TypeKind::Prefixed)?;
    if len != N {
        return Err(
            R::Error::message(Message::BadLength { actual_len: len, expected_len: N, pos }),
        );
    }
    let ghost used = header_read::<L>(source, TypeKind::Prefixed, old(reader).position())->Value_len;
    let bytes = reader.read_bytes(len)?;
    proof {
        assert(source.skip(used as int).take(len as int) =~= source.subrange(
            used as int,
            (used + len) as int,
        ));
        assert(source.skip(used as int).skip(len as int) =~= source.skip((used + len) as int));
    }
    Ok(array_from_slice(bytes))
}

/// Read a string: its length and its bytes, which must be UTF-8.
pub fn decode_str<'de, R: PositionedReader<'de>, L: UsizeEncoding>(reader: &mut R) -> (r: Result<
    &'de str,
    R::Error,
>)
    ensures
        read_with_at(
            *old(reader),
            *final(reader),
            r,
            string_read::<L>(old(reader).remaining(), old(reader).position()),
            |v: &str, value: Seq<u8>| v.spec_bytes() == value,
        ),
{
    let bytes = decode_prefixed::<R, L>(reader)?;
    match str_from_utf8(bytes) {
        Some(string) => Ok(string),
        None => Err(R::Error::message(Message::InvalidUtf8)),
    }
}

/// Read a character, as the number it has.
pub fn decode_character<'de, R: PositionedReader<'de>, I: TypedIntegerEncoding>(
    reader: &mut R,
) -> (r: Result<char, R::Error>)
    ensures
        read_at(
            *old(reader),
            *final(reader),
            r,
            char_read::<I>(old(reader).remaining(), old(reader).position()),
        ),
{
    let num = decode_typed_unsigned::<R, I, u32>(reader)?;
    match char::from_u32(num) {
        Some(d) => {
            proof {
                vstd::utf8::char_u32_cast(d, num);
            }
            Ok(d)
        },
        None => Err(R::Error::message(Message::BadCharacter(num))),
    }
}

/// A very simple decoder: a decoder of the binary-tagged format, for one value.
pub struct WireDecoder<'a, R, I, L> {
    /// Where the value is read from.
    pub reader: &'a mut R,
    /// How integers and lengths are written.
    pub marker: PhantomData<(I, L)>,
}

/// A decoder that might be known to be empty.
pub struct MaybeWireDecoder<'a, R, I, L> {
    /// Whether there is no value to decode.
    pub empty: bool,
    /// The decoder of the value, if there is one.
    pub decoder: WireDecoder<'a, R, I, L>,
}

/// A length-prefixed decode wrapper.
///
/// This simplifies implementing decoders that do not have any special handling
/// for length-prefixed types.
pub struct RemainingWireDecoder<'a, R, I, L> {
    /// The number of elements, or of pairs, that are still to be decoded.
    pub remaining: usize,
    /// The decoder of the elements.
    pub decoder: WireDecoder<'a, R, I, L>,
}

/// A decoder for the tag and the payload of a variant.
pub struct VariantWireDecoder<'a, R, I, L> {
    /// Whether the variant has no payload.
    pub empty: bool,
    /// The decoder of the tag and the payload.
    pub decoder: WireDecoder<'a, R, I, L>,
}

/// What opening a sequence does: the decoder that is handed out stands
/// behind the header and knows the length that the header gives.
pub open spec fn opened<'a, 'de, R: PositionedReader<'de>, I, L>(
    before: R,
    after: R,
    r: Result<RemainingWireDecoder<'a, R, I, L>, R::Error>,
    outcome: Outcome<nat>,
) -> bool {
    match outcome {
        Outcome::Value { value, len } => (r matches Ok(d) && d.remaining == value
            && advanced_at(before, *d.decoder.reader, len)),
        Outcome::Failure { message, len } => (r matches Err(e) && e.cause() == Cause::Message(
                    message,
                ) && advanced_at(before, after, len)),
        Outcome::Underflow => r is Err,
    }
}

impl<'a, 'de, R: PositionedReader<'de>, I: TypedIntegerEncoding, L: TypedUsizeEncoding> WireDecoder<
    'a,
    R,
    I,
    L,
> {
    /// Construct a new decoder of one value.
    #[inline]
    pub fn new(reader: &'a mut R) -> (decoder: Self)
        ensures
            *decoder.reader == *old(reader),
            *final(decoder.reader) == *final(reader),
    {
        Self { reader, marker: PhantomData }
    }

    /// Decode a boolean.
    #[inline]
    pub fn decode_bool(self) -> (r: Result<bool, R::Error>)
        ensures
            read_at(*old(self.reader), *final(self.reader), r, bool_read(old(self.reader).remaining(), old(self.reader).position())),
    {
        decode_boolean(self.reader)
    }

    /// Decode a character.
    #[inline]
    pub fn decode_char(self) -> (r: Result<char, R::Error>)
        ensures
            read_at(*old(self.reader), *final(self.reader), r, char_read::<I>(old(self.reader).remaining(), old(self.reader).position())),
    {
        decode_character::<R, I>(self.reader)
    }

    /// Decode a 8-bit unsigned integer.
    #[inline]
    pub fn decode_u8(self) -> (r: Result<u8, R::Error>)
        ensures
            read_at(*old(self.reader), *final(self.reader), r, byte_read(old(self.reader).remaining(), old(self.reader).position())),
    {
        decode_byte(self.reader)
    }

    /// Decode a 16-bit unsigned integer.
    #[inline]
    pub fn decode_u16(self) -> (r: Result<u16, R::Error>)
        ensures
            read_with_at(
                *old(self.reader),
                *final(self.reader),
                r,
                typed_unsigned_read::<I>(
                    old(self.reader).remaining(),
                    old(self.reader).position(),
                    <u16 as Unsigned>::max_value(),
                    <u16 as Unsigned>::spec_groups(),
                    <u16 as Unsigned>::spec_bytes(),
                ),
                |v: u16, value: nat| v == value,
            ),
    {
        decode_typed_unsigned::<R, I, u16>(self.reader)
    }

    /// Decode a 32-bit unsigned integer.
    #[inline]
    pub fn decode_u32(self) -> (r: Result<u32, R::Error>)
        ensures
            read_with_at(
                *old(self.reader),
                *final(self.reader),
                r,
                typed_unsigned_read::<I>(
                    old(self.reader).remaining(),
                    old(self.reader).position(),
                    <u32 as Unsigned>::max_value(),
                    <u32 as Unsigned>::spec_groups(),
                    <u32 as Unsigned>::spec_bytes(),
                ),
                |v: u32, value: nat| v == value,
            ),
    {
        decode_typed_unsigned::<R, I, u32>(self.reader)
    }

    /// Decode a 64-bit unsigned integer.
    #[inline]
    pub fn decode_u64(self) -> (r: Result<u64, R::Error>)
        ensures
            read_with_at(
                *old(self.reader),
                *final(self.reader),
                r,
                typed_unsigned_read::<I>(
                    old(self.reader).remaining(),
                    old(self.reader).position(),
                    <u64 as Unsigned>::max_value(),
                    <u64 as Unsigned>::spec_groups(),
                    <u64 as Unsigned>::spec_bytes(),
                ),
                |v: u64, value: nat| v == value,
            ),
    {
        decode_typed_unsigned::<R, I, u64>(self.reader)
    }

    /// Decode a 128-bit unsigned integer.
    #[inline]
    pub fn decode_u128(self) -> (r: Result<u128, R::Error>)
        ensures
            read_with_at(
                *old(self.reader),
                *final(self.reader),
                r,
                typed_unsigned_read::<I>(
                    old(self.reader).remaining(),
                    old(self.reader).position(),
                    <u128 as Unsigned>::max_value(),
                    <u128 as Unsigned>::spec_groups(),
                    <u128 as Unsigned>::spec_bytes(),
                ),
                |v: u128, value: nat| v == value,
            ),
    {
        decode_typed_unsigned::<R, I, u128>(self.reader)
    }

    /// Decode a 16-bit signed integer.
    #[inline]
    pub fn decode_i16(self) -> (r: Result<i16, R::Error>)
        ensures
            read_with_at(
                *old(self.reader),
                *final(self.reader),
                r,
                typed_unsigned_read::<I>(
                    old(self.reader).remaining(),
                    old(self.reader).position(),
                    <u16 as Unsigned>::max_value(),
                    <u16 as Unsigned>::spec_groups(),
                    <u16 as Unsigned>::spec_bytes(),
                ),
                |v: i16, value: nat| v == I::signed_of(value, <u16 as Unsigned>::max_value()),
            ),
    {
        decode_typed_signed::<R, I, i16>(self.reader)
    }

    /// Decode a 32-bit signed integer.
    #[inline]
    pub fn decode_i32(self) -> (r: Result<i32, R::Error>)
        ensures
            read_with_at(
                *old(self.reader),
                *final(self.reader),
                r,
                typed_unsigned_read::<I>(
                    old(self.reader).remaining(),
                    old(self.reader).position(),
                    <u32 as Unsigned>::max_value(),
                    <u32 as Unsigned>::spec_groups(),
                    <u32 as Unsigned>::spec_bytes(),
                ),
                |v: i32, value: nat| v == I::signed_of(value, <u32 as Unsigned>::max_value()),
            ),
    {
        decode_typed_signed::<R, I, i32>(self.reader)
    }

    /// Decode a 64-bit signed integer.
    #[inline]
    pub fn decode_i64(self) -> (r: Result<i64, R::Error>)
        ensures
            read_with_at(
                *old(self.reader),
                *final(self.reader),
                r,
                typed_unsigned_read::<I>(
                    old(self.reader).remaining(),
                    old(self.reader).position(),
                    <u64 as Unsigned>::max_value(),
                    <u64 as Unsigned>::spec_groups(),
                    <u64 as Unsigned>::spec_bytes(),
                ),
                |v: i64, value: nat| v == I::signed_of(value, <u64 as Unsigned>::max_value()),
            ),
    {
        decode_typed_signed::<R, I, i64>(self.reader)
    }

    /// Decode a 128-bit signed integer.
    #[inline]
    pub fn decode_i128(self) -> (r: Result<i128, R::Error>)
        ensures
            read_with_at(
                *old(self.reader),
                *final(self.reader),
                r,
                typed_unsigned_read::<I>(
                    old(self.reader).remaining(),
                    old(self.reader).position(),
                    <u128 as Unsigned>::max_value(),
                    <u128 as Unsigned>::spec_groups(),
                    <u128 as Unsigned>::spec_bytes(),
                ),
                |v: i128, value: nat| v == I::signed_of(value, <u128 as Unsigned>::max_value()),
            ),
    {
        decode_typed_signed::<R, I, i128>(self.reader)
    }

    /// Decode Rusts [`usize`].
    #[inline]
    pub fn decode_usize(self) -> (r: Result<usize, R::Error>)
        ensures
            read_with_at(
                *old(self.reader),
                *final(self.reader),
                r,
                typed_usize_read::<L>(old(self.reader).remaining(), old(self.reader).position()),
                |v: usize, value: nat| v == value,
            ),
    {
        decode_typed_usize::<R, L>(self.reader)
    }

    /// Decode a sequence of bytes, which are borrowed from the source.
    #[inline]
    pub fn decode_bytes(self) -> (r: Result<&'de [u8], R::Error>)
        ensures
            read_with_at(
                *old(self.reader),
                *final(self.reader),
                r,
                prefixed_read::<L>(old(self.reader).remaining(), old(self.reader).position()),
                |v: &[u8], value: Seq<u8>| v@ == value,
            ),
    {
        decode_prefixed::<R, L>(self.reader)
    }

    /// Decode a string, which is borrowed from the source.
    #[inline]
    pub fn decode_string(self) -> (r: Result<&'de str, R::Error>)
        ensures
            read_with_at(
                *old(self.reader),
                *final(self.reader),
                r,
                string_read::<L>(old(self.reader).remaining(), old(self.reader).position()),
                |v: &str, value: Seq<u8>| v.spec_bytes() == value,
            ),
    {
        decode_str::<R, L>(self.reader)
    }

    /// Decode a 8-bit signed integer, which has the bits of the byte that is read.
    #[inline]
    pub fn decode_i8(self) -> (r: Result<i8, R::Error>)
        ensures
            read_with_at(
                *old(self.reader),
                *final(self.reader),
                r,
                byte_read(old(self.reader).remaining(), old(self.reader).position()),
                |v: i8, value: u8| v == unwrapped(value as nat, 255),
            ),
    {
        Ok(i8::from_unsigned(decode_byte(self.reader)?))
    }

    /// Decode Rusts [`isize`], which has the bits of the [`usize`] that is read.
    #[inline]
    pub fn decode_isize(self) -> (r: Result<isize, R::Error>)
        ensures
            read_with_at(
                *old(self.reader),
                *final(self.reader),
                r,
                typed_usize_read::<L>(old(self.reader).remaining(), old(self.reader).position()),
                |v: isize, value: nat| v == unwrapped(value, usize::MAX as nat),
            ),
    {
        Ok(isize::from_unsigned(decode_typed_usize::<R, L>(self.reader)?))
    }

    /// Decode a fixed-length array.
    #[inline]
    pub fn decode_array<const N: usize>(self) -> (r: Result<[u8; N], R::Error>)
        ensures
            read_with_at(
                *old(self.reader),
                *final(self.reader),
                r,
                array_read::<L>(old(self.reader).remaining(), old(self.reader).position(), N),
                |v: [u8; N], value: Seq<u8>| v@ == value,
            ),
    {
        decode_bytes_array::<R, L, N>(self.reader)
    }

    /// Decode a unit: whatever value there is, it is skipped.
    #[inline]
    pub fn decode_unit(self) -> (r: Result<(), R::Error>)
        ensures
            read_at(
                *old(self.reader),
                *final(self.reader),
                r,
                skip_read::<L>(old(self.reader).remaining()),
            ),
    {
        skip_any::<R, L>(self.reader)
    }

    /// Decode a unit struct: whatever value there is, it is skipped.
    #[inline]
    pub fn decode_unit_struct(self) -> (r: Result<(), R::Error>)
        ensures
            read_at(
                *old(self.reader),
                *final(self.reader),
                r,
                skip_read::<L>(old(self.reader).remaining()),
            ),
    {
        skip_any::<R, L>(self.reader)
    }

    /// Skip over any sequences of values.
    pub fn skip_any(&mut self) -> (r: Result<(), R::Error>)
        ensures
            read_at(
                *old(self).reader,
                *final(self).reader,
                r,
                skip_read::<L>(old(self).reader.remaining()),
            ),
            *final(final(self).reader) == *final(old(self).reader),
    {
        skip_any::<R, L>(&mut *self.reader)
    }

    /// Decode the tag of a sequence and its length.
    #[inline]
    pub fn decode_sequence_len(&mut self) -> (r: Result<usize, R::Error>)
        ensures
            read_with_at(
                *old(self).reader,
                *final(self).reader,
                r,
                header_read::<L>(
                    old(self).reader.remaining(),
                    TypeKind::Sequence,
                    old(self).reader.position(),
                ),
                |v: usize, value: nat| v == value,
            ),
            *final(final(self).reader) == *final(old(self).reader),
    {
        decode_header::<R, L>(&mut *self.reader, TypeKind::Sequence)
    }

    /// Decode the length of a prefix.
    #[inline]
    pub fn decode_prefix(&mut self) -> (r: Result<usize, R::Error>)
        ensures
            read_with_at(
                *old(self).reader,
                *final(self).reader,
                r,
                header_read::<L>(
                    old(self).reader.remaining(),
                    TypeKind::Prefixed,
                    old(self).reader.position(),
                ),
                |v: usize, value: nat| v == value,
            ),
            *final(final(self).reader) == *final(old(self).reader),
    {
        decode_header::<R, L>(&mut *self.reader, TypeKind::Prefixed)
    }

    /// Standard function for decoding a pair sequence.
    #[inline]
    pub fn shared_decode_pair_sequence(self) -> (r: Result<
        RemainingWireDecoder<'a, R, I, L>,
        R::Error,
    >)
        ensures
            opened(
                *old(self.reader),
                *final(self.reader),
                r,
                header_read::<L>(
                    old(self.reader).remaining(),
                    TypeKind::PairSequence,
                    old(self.reader).position(),
                ),
            ),
            r matches Ok(d) ==> *final(d.decoder.reader) == *final(self.reader),
    {
        let len = decode_header::<R, L>(self.reader, TypeKind::PairSequence)?;
        Ok(RemainingWireDecoder::new(len, self))
    }

    /// Standard function for decoding a sequence.
    #[inline]
    pub fn shared_decode_sequence(self) -> (r: Result<RemainingWireDecoder<'a, R, I, L>, R::Error>)
        ensures
            opened(
                *old(self.reader),
                *final(self.reader),
                r,
                header_read::<L>(
                    old(self.reader).remaining(),
                    TypeKind::Sequence,
                    old(self.reader).position(),
                ),
            ),
            r matches Ok(d) ==> *final(d.decoder.reader) == *final(self.reader),
    {
        let len = decode_header::<R, L>(self.reader, TypeKind::Sequence)?;
        Ok(RemainingWireDecoder::new(len, self))
    }

    /// Decode a sequence: the decoder of its elements.
    #[inline]
    pub fn decode_sequence(self) -> (r: Result<RemainingWireDecoder<'a, R, I, L>, R::Error>)
        ensures
            opened(
                *old(self.reader),
                *final(self.reader),
                r,
                header_read::<L>(
                    old(self.reader).remaining(),
                    TypeKind::Sequence,
                    old(self.reader).position(),
                ),
            ),
            r matches Ok(d) ==> *final(d.decoder.reader) == *final(self.reader),
    {
        self.shared_decode_sequence()
    }

    /// Decode a tuple: the decoder of its elements.
    #[inline]
    pub fn decode_tuple(self, _len: usize) -> (r: Result<RemainingWireDecoder<'a, R, I, L>, R::Error>)
        ensures
            opened(
                *old(self.reader),
                *final(self.reader),
                r,
                header_read::<L>(
                    old(self.reader).remaining(),
                    TypeKind::Sequence,
                    old(self.reader).position(),
                ),
            ),
            r matches Ok(d) ==> *final(d.decoder.reader) == *final(self.reader),
    {
        self.shared_decode_sequence()
    }

    /// Decode a map: the decoder of its pairs.
    #[inline]
    pub fn decode_map(self) -> (r: Result<RemainingWireDecoder<'a, R, I, L>, R::Error>)
        ensures
            opened(
                *old(self.reader),
                *final(self.reader),
                r,
                header_read::<L>(
                    old(self.reader).remaining(),
                    TypeKind::PairSequence,
                    old(self.reader).position(),
                ),
            ),
            r matches Ok(d) ==> *final(d.decoder.reader) == *final(self.reader),
    {
        self.shared_decode_pair_sequence()
    }

    /// Decode a struct: the decoder of its fields, each a pair of a tag and a value.
    #[inline]
    pub fn decode_struct(self, _len: usize) -> (r: Result<RemainingWireDecoder<'a, R, I, L>, R::Error>)
        ensures
            opened(
                *old(self.reader),
                *final(self.reader),
                r,
                header_read::<L>(
                    old(self.reader).remaining(),
                    TypeKind::PairSequence,
                    old(self.reader).position(),
                ),
            ),
            r matches Ok(d) ==> *final(d.decoder.reader) == *final(self.reader),
    {
        self.shared_decode_pair_sequence()
    }

    /// Decode an optional value: nothing where it is absent, the decoder of
    /// the value where it is present.
    #[inline]
    pub fn decode_option(self) -> (r: Result<Option<WireDecoder<'a, R, I, L>>, R::Error>)
        ensures
            match option_read(old(self.reader).remaining(), old(self.reader).position()) {
                Outcome::Value { value, len } => (r matches Ok(some) && some is Some == value && (
                some matches Some(d) ==> advanced_at(*old(self.reader), *d.reader, len) && *final(d.reader) == *final(self.reader)) && (
                some is None ==> advanced_at(*old(self.reader), *final(self.reader), len))),
                Outcome::Failure { message, len } => (r matches Err(e) && e.cause() == Cause::Message(
                    message,
                ) && advanced_at(*old(self.reader), *final(self.reader), len)),
                Outcome::Underflow => r is Err,
            },
    {
        if decode_presence(self.reader)? {
            Ok(Some(self))
        } else {
            Ok(None)
        }
    }

    /// Decode a variant: the decoder of its tag and its payload.
    #[inline]
    pub fn decode_variant(self) -> (r: Result<VariantWireDecoder<'a, R, I, L>, R::Error>)
        ensures
            match variant_read(old(self.reader).remaining(), old(self.reader).position()) {
                Outcome::Value { value, len } => (r matches Ok(d) && !d.empty
                    && advanced_at(*old(self.reader), *d.decoder.reader, len) && *final(d.decoder.reader) == *final(self.reader)),
                Outcome::Failure { message, len } => (r matches Err(e) && e.cause() == Cause::Message(
                    message,
                ) && advanced_at(*old(self.reader), *final(self.reader), len)),
                Outcome::Underflow => r is Err,
            },
    {
        decode_variant_tag(self.reader)?;
        Ok(VariantWireDecoder { empty: false, decoder: self })
    }

    /// The decoder of the first value of a pair.
    #[inline]
    pub fn first(&mut self) -> (r: Result<WireDecoder<'_, R, I, L>, R::Error>)
        ensures
            r matches Ok(decoder) && *decoder.reader == *old(self).reader && *final(self).reader
                == *final(decoder.reader),
            *final(final(self).reader) == *final(old(self).reader),
    {
        Ok(WireDecoder { reader: &mut *self.reader, marker: PhantomData })
    }

    /// The decoder of the second value of a pair.
    #[inline]
    pub fn second(self) -> (r: Result<WireDecoder<'a, R, I, L>, R::Error>)
        ensures
            r matches Ok(decoder) && *decoder.reader == *old(self.reader) && *final(self.reader)
                == *final(decoder.reader),
    {
        Ok(self)
    }

    /// Skip over the second value of a pair.
    #[inline]
    pub fn skip_second(self) -> (r: Result<bool, R::Error>)
        ensures
            read_at(
                *old(self.reader),
                *final(self.reader),
                r,
                match skip_read::<L>(old(self.reader).remaining()) {
                    Outcome::Value { value, len } => Outcome::Value { value: true, len },
                    Outcome::Failure { message, len } => Outcome::Failure { message, len },
                    Outcome::Underflow => Outcome::Underflow,
                },
            ),
    {
        skip_any::<R, L>(self.reader)?;
        Ok(true)
    }
}

impl<'a, 'de, R: PositionedReader<'de>, I: TypedIntegerEncoding, L: TypedUsizeEncoding> RemainingWireDecoder<
    'a,
    R,
    I,
    L,
> {
    /// A decoder of `remaining` elements, or pairs, which are read by `decoder`.
    #[inline]
    pub fn new(remaining: usize, decoder: WireDecoder<'a, R, I, L>) -> (r: Self)
        ensures
            r.remaining == remaining,
            r.decoder == decoder,
    {
        Self { remaining, decoder }
    }

    /// The number of elements, or pairs, that are still to be decoded.
    #[inline]
    pub fn size_hint(&self) -> (r: Option<usize>)
        ensures
            r == Some(self.remaining),
    {
        Some(self.remaining)
    }

    /// The decoder of the next element, or pair, unless all are decoded.
    #[inline]
    pub fn next(&mut self) -> (r: Result<Option<WireDecoder<'_, R, I, L>>, R::Error>)
        ensures
            old(self).remaining == 0 ==> (r matches Ok(None) && final(self).remaining == 0
                && *final(self).decoder.reader == *old(self).decoder.reader),
            old(self).remaining > 0 ==> (r matches Ok(Some(decoder)) && final(self).remaining
                == old(self).remaining - 1 && *decoder.reader == *old(self).decoder.reader
                && *final(self).decoder.reader == *final(decoder.reader)),
            *final(final(self).decoder.reader) == *final(old(self).decoder.reader),
    {
        if self.remaining == 0 {
            return Ok(None);
        }
        self.remaining = self.remaining - 1;
        Ok(Some(WireDecoder { reader: &mut *self.decoder.reader, marker: PhantomData }))
    }
}

impl<'a, 'de, R: PositionedReader<'de>, I: TypedIntegerEncoding, L: TypedUsizeEncoding> VariantWireDecoder<
    'a,
    R,
    I,
    L,
> {
    /// The decoder of the tag of the variant.
    #[inline]
    pub fn first(&mut self) -> (r: Result<WireDecoder<'_, R, I, L>, R::Error>)
        ensures
            r matches Ok(decoder) && *decoder.reader == *old(self).decoder.reader
                && *final(self).decoder.reader == *final(decoder.reader),
            final(self).empty == old(self).empty,
            *final(final(self).decoder.reader) == *final(old(self).decoder.reader),
    {
        Ok(WireDecoder { reader: &mut *self.decoder.reader, marker: PhantomData })
    }

    /// The decoder of the payload of the variant.
    #[inline]
    pub fn second(self) -> (r: Result<MaybeWireDecoder<'a, R, I, L>, R::Error>)
        ensures
            r matches Ok(decoder) && decoder.empty == self.empty && decoder.decoder
                == self.decoder,
    {
        Ok(MaybeWireDecoder { empty: self.empty, decoder: self.decoder })
    }

    /// Skip over the payload of the variant, if there is one.
    #[inline]
    pub fn skip_second(self) -> (r: Result<bool, R::Error>)
        ensures
            self.empty ==> (r matches Ok(true) && *final(self.decoder.reader) == *old(
                self.decoder.reader,
            )),
            !self.empty ==> read_at(
                *old(self.decoder.reader),
                *final(self.decoder.reader),
                r,
                match skip_read::<L>(old(self.decoder.reader).remaining()) {
                    Outcome::Value { value, len } => Outcome::Value { value: true, len },
                    Outcome::Failure { message, len } => Outcome::Failure { message, len },
                    Outcome::Underflow => Outcome::Underflow,
                },
            ),
    {
        if !self.empty {
            skip_any::<R, L>(self.decoder.reader)?;
        }
        Ok(true)
    }
}

impl<'a, 'de, R: PositionedReader<'de>, I: TypedIntegerEncoding, L: TypedUsizeEncoding> MaybeWireDecoder<
    'a,
    R,
    I,
    L,
> {
    /// Fail where there is no value to decode.
    #[inline]
    pub fn check_empty(&self) -> (r: Result<(), R::Error>)
        ensures
            self.empty ==> (r matches Err(e) && e.cause() == Cause::Message(Message::EmptyValue)),
            !self.empty ==> r is Ok,
    {
        if self.empty {
            Err(R::Error::message(Message::EmptyValue))
        } else {
            Ok(())
        }
    }

    /// Decode a unit: whatever value there is, it is skipped.
    #[inline]
    pub fn decode_unit(self) -> (r: Result<(), R::Error>)
        ensures
            self.empty ==> r is Ok && *final(self.decoder.reader) == *old(self.decoder.reader),
            !self.empty ==> read_at(
                *old(self.decoder.reader),
                *final(self.decoder.reader),
                r,
                skip_read::<L>(old(self.decoder.reader).remaining()),
            ),
    {
        if !self.empty {
            self.decoder.decode_unit()?;
        }
        Ok(())
    }

    /// Decode a unit struct: whatever value there is, it is skipped.
    #[inline]
    pub fn decode_unit_struct(self) -> (r: Result<(), R::Error>)
        ensures
            self.empty ==> r is Ok && *final(self.decoder.reader) == *old(self.decoder.reader),
            !self.empty ==> read_at(
                *old(self.decoder.reader),
                *final(self.decoder.reader),
                r,
                skip_read::<L>(old(self.decoder.reader).remaining()),
            ),
    {
        if !self.empty {
            self.decoder.decode_unit_struct()?;
        }
        Ok(())
    }

    /// Decode a boolean.
    #[inline]
    pub fn decode_bool(self) -> (r: Result<bool, R::Error>)
        ensures
            self.empty ==> (r matches Err(e) && e.cause() == Cause::Message(Message::EmptyValue)
                && *final(self.decoder.reader) == *old(self.decoder.reader)),
            !self.empty ==> read_at(*old(self.decoder.reader), *final(self.decoder.reader), r, bool_read(old(self.decoder.reader).remaining(), old(self.decoder.reader).position())),
    {
        self.check_empty()?;
        self.decoder.decode_bool()
    }

    /// Decode a character.
    #[inline]
    pub fn decode_char(self) -> (r: Result<char, R::Error>)
        ensures
            self.empty ==> (r matches Err(e) && e.cause() == Cause::Message(Message::EmptyValue)
                && *final(self.decoder.reader) == *old(self.decoder.reader)),
            !self.empty ==> read_at(*old(self.decoder.reader), *final(self.decoder.reader), r, char_read::<I>(old(self.decoder.reader).remaining(), old(self.decoder.reader).position())),
    {
        self.check_empty()?;
        self.decoder.decode_char()
    }

    /// Decode a 8-bit unsigned integer.
    #[inline]
    pub fn decode_u8(self) -> (r: Result<u8, R::Error>)
        ensures
            self.empty ==> (r matches Err(e) && e.cause() == Cause::Message(Message::EmptyValue)
                && *final(self.decoder.reader) == *old(self.decoder.reader)),
            !self.empty ==> read_at(*old(self.decoder.reader), *final(self.decoder.reader), r, byte_read(old(self.decoder.reader).remaining(), old(self.decoder.reader).position())),
    {
        self.check_empty()?;
        self.decoder.decode_u8()
    }

    /// Decode a 16-bit unsigned integer.
    #[inline]
    pub fn decode_u16(self) -> (r: Result<u16, R::Error>)
        ensures
            self.empty ==> (r matches Err(e) && e.cause() == Cause::Message(Message::EmptyValue)
                && *final(self.decoder.reader) == *old(self.decoder.reader)),
            !self.empty ==> read_with_at(
                *old(self.decoder.reader),
                *final(self.decoder.reader),
                r,
                typed_unsigned_read::<I>(
                    old(self.decoder.reader).remaining(),
                    old(self.decoder.reader).position(),
                    <u16 as Unsigned>::max_value(),
                    <u16 as Unsigned>::spec_groups(),
                    <u16 as Unsigned>::spec_bytes(),
                ),
                |v: u16, value: nat| v == value,
            ),
    {
        self.check_empty()?;
        self.decoder.decode_u16()
    }

    /// Decode a 32-bit unsigned integer.
    #[inline]
    pub fn decode_u32(self) -> (r: Result<u32, R::Error>)
        ensures
            self.empty ==> (r matches Err(e) && e.cause() == Cause::Message(Message::EmptyValue)
                && *final(self.decoder.reader) == *old(self.decoder.reader)),
            !self.empty ==> read_with_at(
                *old(self.decoder.reader),
                *final(self.decoder.reader),
                r,
                typed_unsigned_read::<I>(
                    old(self.decoder.reader).remaining(),
                    old(self.decoder.reader).position(),
                    <u32 as Unsigned>::max_value(),
                    <u32 as Unsigned>::spec_groups(),
                    <u32 as Unsigned>::spec_bytes(),
                ),
                |v: u32, value: nat| v == value,
            ),
    {
        self.check_empty()?;
        self.decoder.decode_u32()
    }

    /// Decode a 64-bit unsigned integer.
    #[inline]
    pub fn decode_u64(self) -> (r: Result<u64, R::Error>)
        ensures
            self.empty ==> (r matches Err(e) && e.cause() == Cause::Message(Message::EmptyValue)
                && *final(self.decoder.reader) == *old(self.decoder.reader)),
            !self.empty ==> read_with_at(
                *old(self.decoder.reader),
                *final(self.decoder.reader),
                r,
                typed_unsigned_read::<I>(
                    old(self.decoder.reader).remaining(),
                    old(self.decoder.reader).position(),
                    <u64 as Unsigned>::max_value(),
                    <u64 as Unsigned>::spec_groups(),
                    <u64 as Unsigned>::spec_bytes(),
                ),
                |v: u64, value: nat| v == value,
            ),
    {
        self.check_empty()?;
        self.decoder.decode_u64()
    }

    /// Decode a 128-bit unsigned integer.
    #[inline]
    pub fn decode_u128(self) -> (r: Result<u128, R::Error>)
        ensures
            self.empty ==> (r matches Err(e) && e.cause() == Cause::Message(Message::EmptyValue)
                && *final(self.decoder.reader) == *old(self.decoder.reader)),
            !self.empty ==> read_with_at(
                *old(self.decoder.reader),
                *final(self.decoder.reader),
                r,
                typed_unsigned_read::<I>(
                    old(self.decoder.reader).remaining(),
                    old(self.decoder.reader).position(),
                    <u128 as Unsigned>::max_value(),
                    <u128 as Unsigned>::spec_groups(),
                    <u128 as Unsigned>::spec_bytes(),
                ),
                |v: u128, value: nat| v == value,
            ),
    {
        self.check_empty()?;
        self.decoder.decode_u128()
    }

    /// Decode a 16-bit signed integer.
    #[inline]
    pub fn decode_i16(self) -> (r: Result<i16, R::Error>)
        ensures
            self.empty ==> (r matches Err(e) && e.cause() == Cause::Message(Message::EmptyValue)
                && *final(self.decoder.reader) == *old(self.decoder.reader)),
            !self.empty ==> read_with_at(
                *old(self.decoder.reader),
                *final(self.decoder.reader),
                r,
                typed_unsigned_read::<I>(
                    old(self.decoder.reader).remaining(),
                    old(self.decoder.reader).position(),
                    <u16 as Unsigned>::max_value(),
                    <u16 as Unsigned>::spec_groups(),
                    <u16 as Unsigned>::spec_bytes(),
                ),
                |v: i16, value: nat| v == I::signed_of(value, <u16 as Unsigned>::max_value()),
            ),
    {
        self.check_empty()?;
        self.decoder.decode_i16()
    }

    /// Decode a 32-bit signed integer.
    #[inline]
    pub fn decode_i32(self) -> (r: Result<i32, R::Error>)
        ensures
            self.empty ==> (r matches Err(e) && e.cause() == Cause::Message(Message::EmptyValue)
                && *final(self.decoder.reader) == *old(self.decoder.reader)),
            !self.empty ==> read_with_at(
                *old(self.decoder.reader),
                *final(self.decoder.reader),
                r,
                typed_unsigned_read::<I>(
                    old(self.decoder.reader).remaining(),
                    old(self.decoder.reader).position(),
                    <u32 as Unsigned>::max_value(),
                    <u32 as Unsigned>::spec_groups(),
                    <u32 as Unsigned>::spec_bytes(),
                ),
                |v: i32, value: nat| v == I::signed_of(value, <u32 as Unsigned>::max_value()),
            ),
    {
        self.check_empty()?;
        self.decoder.decode_i32()
    }

    /// Decode a 64-bit signed integer.
    #[inline]
    pub fn decode_i64(self) -> (r: Result<i64, R::Error>)
        ensures
            self.empty ==> (r matches Err(e) && e.cause() == Cause::Message(Message::EmptyValue)
                && *final(self.decoder.reader) == *old(self.decoder.reader)),
            !self.empty ==> read_with_at(
                *old(self.decoder.reader),
                *final(self.decoder.reader),
                r,
                typed_unsigned_read::<I>(
                    old(self.decoder.reader).remaining(),
                    old(self.decoder.reader).position(),
                    <u64 as Unsigned>::max_value(),
                    <u64 as Unsigned>::spec_groups(),
                    <u64 as Unsigned>::spec_bytes(),
                ),
                |v: i64, value: nat| v == I::signed_of(value, <u64 as Unsigned>::max_value()),
            ),
    {
        self.check_empty()?;
        self.decoder.decode_i64()
    }

    /// Decode a 128-bit signed integer.
    #[inline]
    pub fn decode_i128(self) -> (r: Result<i128, R::Error>)
        ensures
            self.empty ==> (r matches Err(e) && e.cause() == Cause::Message(Message::EmptyValue)
                && *final(self.decoder.reader) == *old(self.decoder.reader)),
            !self.empty ==> read_with_at(
                *old(self.decoder.reader),
                *final(self.decoder.reader),
                r,
                typed_unsigned_read::<I>(
                    old(self.decoder.reader).remaining(),
                    old(self.decoder.reader).position(),
                    <u128 as Unsigned>::max_value(),
                    <u128 as Unsigned>::spec_groups(),
                    <u128 as Unsigned>::spec_bytes(),
                ),
                |v: i128, value: nat| v == I::signed_of(value, <u128 as Unsigned>::max_value()),
            ),
    {
        self.check_empty()?;
        self.decoder.decode_i128()
    }

    /// Decode Rusts [`usize`].
    #[inline]
    pub fn decode_usize(self) -> (r: Result<usize, R::Error>)
        ensures
            self.empty ==> (r matches Err(e) && e.cause() == Cause::Message(Message::EmptyValue)
                && *final(self.decoder.reader) == *old(self.decoder.reader)),
            !self.empty ==> read_with_at(
                *old(self.decoder.reader),
                *final(self.decoder.reader),
                r,
                typed_usize_read::<L>(old(self.decoder.reader).remaining(), old(self.decoder.reader).position()),
                |v: usize, value: nat| v == value,
            ),
    {
        self.check_empty()?;
        self.decoder.decode_usize()
    }

    /// Decode a sequence of bytes, which are borrowed from the source.
    #[inline]
    pub fn decode_bytes(self) -> (r: Result<&'de [u8], R::Error>)
        ensures
            self.empty ==> (r matches Err(e) && e.cause() == Cause::Message(Message::EmptyValue)
                && *final(self.decoder.reader) == *old(self.decoder.reader)),
            !self.empty ==> read_with_at(
                *old(self.decoder.reader),
                *final(self.decoder.reader),
                r,
                prefixed_read::<L>(old(self.decoder.reader).remaining(), old(self.decoder.reader).position()),
                |v: &[u8], value: Seq<u8>| v@ == value,
            ),
    {
        self.check_empty()?;
        self.decoder.decode_bytes()
    }

    /// Decode a string, which is borrowed from the source.
    #[inline]
    pub fn decode_string(self) -> (r: Result<&'de str, R::Error>)
        ensures
            self.empty ==> (r matches Err(e) && e.cause() == Cause::Message(Message::EmptyValue)
                && *final(self.decoder.reader) == *old(self.decoder.reader)),
            !self.empty ==> read_with_at(
                *old(self.decoder.reader),
                *final(self.decoder.reader),
                r,
                string_read::<L>(old(self.decoder.reader).remaining(), old(self.decoder.reader).position()),
                |v: &str, value: Seq<u8>| v.spec_bytes() == value,
            ),
    {
        self.check_empty()?;
        self.decoder.decode_string()
    }

    /// Decode a 8-bit signed integer, which has the bits of the byte that is read.
    #[inline]
    pub fn decode_i8(self) -> (r: Result<i8, R::Error>)
        ensures
            self.empty ==> (r matches Err(e) && e.cause() == Cause::Message(Message::EmptyValue)
                && *final(self.decoder.reader) == *old(self.decoder.reader)),
            !self.empty ==> read_with_at(
                *old(self.decoder.reader),
                *final(self.decoder.reader),
                r,
                byte_read(
                    old(self.decoder.reader).remaining(),
                    old(self.decoder.reader).position(),
                ),
                |v: i8, value: u8| v == unwrapped(value as nat, 255),
            ),
    {
        self.check_empty()?;
        self.decoder.decode_i8()
    }

    /// Decode Rusts [`isize`], which has the bits of the [`usize`] that is read.
    #[inline]
    pub fn decode_isize(self) -> (r: Result<isize, R::Error>)
        ensures
            self.empty ==> (r matches Err(e) && e.cause() == Cause::Message(Message::EmptyValue)
                && *final(self.decoder.reader) == *old(self.decoder.reader)),
            !self.empty ==> read_with_at(
                *old(self.decoder.reader),
                *final(self.decoder.reader),
                r,
                typed_usize_read::<L>(
                    old(self.decoder.reader).remaining(),
                    old(self.decoder.reader).position(),
                ),
                |v: isize, value: nat| v == unwrapped(value, usize::MAX as nat),
            ),
    {
        self.check_empty()?;
        self.decoder.decode_isize()
    }

    /// Decode a fixed-length array.
    #[inline]
    pub fn decode_array<const N: usize>(self) -> (r: Result<[u8; N], R::Error>)
        ensures
            self.empty ==> (r matches Err(e) && e.cause() == Cause::Message(Message::EmptyValue)
                && *final(self.decoder.reader) == *old(self.decoder.reader)),
            !self.empty ==> read_with_at(
                *old(self.decoder.reader),
                *final(self.decoder.reader),
                r,
                array_read::<L>(
                    old(self.decoder.reader).remaining(),
                    old(self.decoder.reader).position(),
                    N,
                ),
                |v: [u8; N], value: Seq<u8>| v@ == value,
            ),
    {
        self.check_empty()?;
        self.decoder.decode_array::<N>()
    }

    /// Decode an optional value: where there is no value to decode, it is
    /// absent.
    #[inline]
    pub fn decode_option(self) -> (r: Result<Option<WireDecoder<'a, R, I, L>>, R::Error>)
        ensures
            self.empty ==> (r matches Ok(None) && *final(self.decoder.reader) == *old(
                self.decoder.reader,
            )),
            !self.empty ==> (match option_read(
                old(self.decoder.reader).remaining(),
                old(self.decoder.reader).position(),
            ) {
                Outcome::Value { value, len } => (r matches Ok(some) && some is Some == value && (
                some matches Some(d) ==> advanced_at(*old(self.decoder.reader), *d.reader, len) && *final(d.reader) == *final(self.decoder.reader))
                    && (some is None ==> advanced_at(*old(self.decoder.reader), *final(self.decoder.reader), len))),
                Outcome::Failure { message, len } => (r matches Err(e) && e.cause() == Cause::Message(
                    message,
                ) && advanced_at(*old(self.decoder.reader), *final(self.decoder.reader), len)),
                Outcome::Underflow => r is Err,
            }),
    {
        if self.empty {
            Ok(None)
        } else {
            self.decoder.decode_option()
        }
    }

    /// Decode a variant.
    #[inline]
    pub fn decode_variant(self) -> (r: Result<VariantWireDecoder<'a, R, I, L>, R::Error>)
        ensures
            self.empty ==> (r matches Err(e) && e.cause() == Cause::Message(Message::EmptyValue)
                && *final(self.decoder.reader) == *old(self.decoder.reader)),
            !self.empty ==> (match variant_read(
                old(self.decoder.reader).remaining(),
                old(self.decoder.reader).position(),
            ) {
                Outcome::Value { value, len } => (r matches Ok(d) && !d.empty
                    && advanced_at(*old(self.decoder.reader), *d.decoder.reader, len) && *final(d.decoder.reader) == *final(self.decoder.reader)),
                Outcome::Failure { message, len } => (r matches Err(e) && e.cause() == Cause::Message(
                    message,
                ) && advanced_at(*old(self.decoder.reader), *final(self.decoder.reader), len)),
                Outcome::Underflow => r is Err,
            }),
    {
        self.check_empty()?;
        self.decoder.decode_variant()
    }

    /// Decode a sequence.
    #[inline]
    pub fn decode_sequence(self) -> (r: Result<RemainingWireDecoder<'a, R, I, L>, R::Error>)
        ensures
            self.empty ==> (r matches Err(e) && e.cause() == Cause::Message(Message::EmptyValue)
                && *final(self.decoder.reader) == *old(self.decoder.reader)),
            !self.empty ==> opened(
                *old(self.decoder.reader),
                *final(self.decoder.reader),
                r,
                header_read::<L>(
                    old(self.decoder.reader).remaining(),
                    TypeKind::Sequence,
                    old(self.decoder.reader).position(),
                ),
            ),
            r matches Ok(d) ==> *final(d.decoder.reader) == *final(self.decoder.reader),
    {
        self.check_empty()?;
        self.decoder.decode_sequence()
    }

    /// Decode a tuple, which is a sequence.
    #[inline]
    pub fn decode_tuple(self, len: usize) -> (r: Result<RemainingWireDecoder<'a, R, I, L>, R::Error>)
        ensures
            self.empty ==> (r matches Err(e) && e.cause() == Cause::Message(Message::EmptyValue)
                && *final(self.decoder.reader) == *old(self.decoder.reader)),
            !self.empty ==> opened(
                *old(self.decoder.reader),
                *final(self.decoder.reader),
                r,
                header_read::<L>(
                    old(self.decoder.reader).remaining(),
                    TypeKind::Sequence,
                    old(self.decoder.reader).position(),
                ),
            ),
            r matches Ok(d) ==> *final(d.decoder.reader) == *final(self.decoder.reader),
    {
        self.check_empty()?;
        self.decoder.decode_tuple(len)
    }

    /// Decode a map.
    #[inline]
    pub fn decode_map(self) -> (r: Result<RemainingWireDecoder<'a, R, I, L>, R::Error>)
        ensures
            self.empty ==> (r matches Err(e) && e.cause() == Cause::Message(Message::EmptyValue)
                && *final(self.decoder.reader) == *old(self.decoder.reader)),
            !self.empty ==> opened(
                *old(self.decoder.reader),
                *final(self.decoder.reader),
                r,
                header_read::<L>(
                    old(self.decoder.reader).remaining(),
                    TypeKind::PairSequence,
                    old(self.decoder.reader).position(),
                ),
            ),
            r matches Ok(d) ==> *final(d.decoder.reader) == *final(self.decoder.reader),
    {
        self.check_empty()?;
        self.decoder.decode_map()
    }

    /// Decode a struct, which is a map.
    #[inline]
    pub fn decode_struct(self, len: usize) -> (r: Result<RemainingWireDecoder<'a, R, I, L>, R::Error>)
        ensures
            self.empty ==> (r matches Err(e) && e.cause() == Cause::Message(Message::EmptyValue)
                && *final(self.decoder.reader) == *old(self.decoder.reader)),
            !self.empty ==> opened(
                *old(self.decoder.reader),
                *final(self.decoder.reader),
                r,
                header_read::<L>(
                    old(self.decoder.reader).remaining(),
                    TypeKind::PairSequence,
                    old(self.decoder.reader).position(),
                ),
            ),
            r matches Ok(d) ==> *final(d.decoder.reader) == *final(self.decoder.reader),
    {
        self.check_empty()?;
        self.decoder.decode_struct(len)
    }

}

} // verus!
