//! Packs in the binary-tagged format: values without tags of their own,
//! behind one header that tells how many bytes they take together.

use crate::error::{Cause, Error, Message, Outcome};
use crate::reader::{advanced_at, limit, Limit, PositionedReader, Reader};
use crate::storage::de::StorageDecoder;
use crate::storage::en::StorageEncoder;
use crate::wire::de::{MaybeWireDecoder, WireDecoder};
use crate::wire::en::{encode_prefixed, WireEncoder};
use crate::wire::format::{header_read, prefixed_form};
use crate::wire::integer_encoding::{TypedIntegerEncoding, TypedUsizeEncoding};
use crate::wire::types::{TypeKind, LEN_MASK};
use crate::writer::{wrote, Writer};
use std::marker::PhantomData;
use vstd::prelude::*;

verus! {

broadcast use crate::reader::lemma_position_of;

/// A reader that reads from another reader, which it has borrowed.
pub struct Borrowed<'a, R> {
    /// The reader that the bytes are read from.
    pub reader: &'a mut R,
}

impl<'a, 'de, R: Reader<'de>> Reader<'de> for Borrowed<'a, R> {
    type Error = R::Error;

    open spec fn remaining(&self) -> Seq<u8> {
        self.reader.remaining()
    }

    open spec fn end(&self) -> int {
        self.reader.end()
    }

    proof fn lemma_remaining_fits(&self) {
        self.reader.lemma_remaining_fits();
    }

    #[inline]
    fn skip(&mut self, n: usize) -> (r: Result<(), Self::Error>) {
        self.reader.skip(n)
    }

    #[inline]
    fn read_bytes(&mut self, n: usize) -> (r: Result<&'de [u8], Self::Error>) {
        self.reader.read_bytes(n)
    }

    #[inline]
    fn read_byte(&mut self) -> (r: Result<u8, Self::Error>) {
        self.reader.read_byte()
    }
}

/// An encoder for the elements of a pack: they are gathered in a buffer,
/// which is written as one sequence of bytes when the pack ends.
pub struct WirePackEncoder<'a, W, I, L> {
    /// Where the pack is written to.
    pub writer: &'a mut W,
    /// The bytes of the elements so far.
    pub buffer: Vec<u8>,
    /// How integers and lengths are written.
    pub marker: PhantomData<(I, L)>,
}

/// A decoder for the elements of a pack: it reads no further than the
/// bytes of the pack go.
pub struct WirePackDecoder<'a, R, I, L> {
    /// Where the elements are read from.
    pub reader: Limit<Borrowed<'a, R>>,
    /// How integers and lengths are written.
    pub marker: PhantomData<(I, L)>,
}

impl<'a, W: Writer, I: TypedIntegerEncoding, L: TypedUsizeEncoding> WireEncoder<'a, W, I, L> {
    /// Construct a pack that can encode more than one element at a time.
    /// Nothing is written before the pack ends.
    #[inline]
    pub fn encode_pack(self) -> (r: Result<WirePackEncoder<'a, W, I, L>, W::Error>)
        ensures
            r matches Ok(encoder) && encoder.buffer@ == Seq::<u8>::empty() && *encoder.writer
                == *old(self.writer) && *final(encoder.writer) == *final(self.writer),
    {
        Ok(WirePackEncoder { writer: self.writer, buffer: Vec::new(), marker: PhantomData })
    }
}

impl<'a, W: Writer, I: TypedIntegerEncoding, L: TypedUsizeEncoding> WirePackEncoder<'a, W, I, L> {
    /// Prepare encoding of the next element: the encoder appends to the
    /// bytes of the elements so far, without a tag.
    #[inline]
    pub fn next(&mut self) -> (r: Result<StorageEncoder<'_, Vec<u8>, I, L>, W::Error>)
        ensures
            r matches Ok(encoder) && *encoder.writer == old(self).buffer && final(self).buffer
                == *final(encoder.writer),
            *final(self).writer == *old(self).writer,
            *final(final(self).writer) == *final(old(self).writer),
    {
        Ok(StorageEncoder::new(&mut self.buffer))
    }

    /// End the pack: the bytes of its elements are written as a sequence of
    /// bytes is.
    #[inline]
    pub fn end(self) -> (r: Result<(), W::Error>)
        ensures
            self.buffer@.len() < LEN_MASK || L::holds(self.buffer@.len()) ==> wrote(
                *old(self.writer),
                *final(self.writer),
                r is Ok,
                prefixed_form::<L>(self.buffer@),
            ),
            !(self.buffer@.len() < LEN_MASK || L::holds(self.buffer@.len())) ==> (r matches Err(e)
                && e.cause() == Cause::Message(Message::LengthOverflow) && *final(self.writer)
                == *old(self.writer)),
    {
        encode_prefixed::<W, L>(self.writer, self.buffer.as_slice())
    }
}

/// What opening a pack does: the decoder that is handed out stands behind
/// the header and reads no more bytes than the header tells.
pub open spec fn opened<'a, 'de, R: PositionedReader<'de>, I, L>(
    before: R,
    after: R,
    r: Result<WirePackDecoder<'a, R, I, L>, R::Error>,
    outcome: Outcome<nat>,
) -> bool {
    match outcome {
        Outcome::Value { value, len } => (r matches Ok(d) && d.reader.budget() == value
            && advanced_at(before, *d.reader.inner().reader, len)),
        Outcome::Failure { message, len } => (r matches Err(e) && e.cause() == Cause::Message(
                    message,
                ) && advanced_at(before, after, len)),
        Outcome::Underflow => r is Err,
    }
}

impl<'a, 'de, R: PositionedReader<'de>, I: TypedIntegerEncoding, L: TypedUsizeEncoding> WireDecoder<
    'a,
    R,
    I,
    L,
> {
    /// Construct an unpack that can decode more than one element at a time.
    #[inline]
    pub fn decode_pack(self) -> (r: Result<WirePackDecoder<'a, R, I, L>, R::Error>)
        ensures
            opened(
                *old(self.reader),
                *final(self.reader),
                r,
                header_read::<L>(
                    old(self.reader).remaining(),
                    TypeKind::Prefixed,
                    old(self.reader).position(),
                ),
            ),
    {
        let mut decoder = self;
        let len = decoder.decode_prefix()?;
        Ok(
            WirePackDecoder {
                reader: limit(Borrowed { reader: decoder.reader }, len),
                marker: PhantomData,
            },
        )
    }
}

impl<
    'a,
    'de,
    R: PositionedReader<'de>,
    I: TypedIntegerEncoding,
    L: TypedUsizeEncoding,
> MaybeWireDecoder<'a, R, I, L> {
    /// Construct an unpack that can decode more than one element at a time.
    #[inline]
    pub fn decode_pack(self) -> (r: Result<WirePackDecoder<'a, R, I, L>, R::Error>)
        ensures
            self.empty ==> (r matches Err(e) && e.cause() == Cause::Message(Message::EmptyValue)),
            !self.empty ==> opened(
                *old(self.decoder.reader),
                *final(self.decoder.reader),
                r,
                header_read::<L>(
                    old(self.decoder.reader).remaining(),
                    TypeKind::Prefixed,
                    old(self.decoder.reader).position(),
                ),
            ),
    {
        self.check_empty()?;
        self.decoder.decode_pack()
    }
}

impl<
    'a,
    'de,
    R: PositionedReader<'de>,
    I: TypedIntegerEncoding,
    L: TypedUsizeEncoding,
> WirePackDecoder<'a, R, I, L> {
    /// The decoder of the next element of the pack, which reads it as the
    /// storage format holds it.
    #[inline]
    pub fn next(&mut self) -> (r: Result<
        StorageDecoder<'_, Limit<Borrowed<'a, R>>, I, L>,
        R::Error,
    >)
        ensures
            r matches Ok(decoder) && *decoder.reader == old(self).reader && final(self).reader
                == *final(decoder.reader),
    {
        Ok(StorageDecoder::new(&mut self.reader))
    }

    /// Stop decoding the pack.
    #[inline]
    pub fn end(self) -> (r: Result<(), R::Error>)
        ensures
            r is Ok,
    {
        Ok(())
    }
}

} // verus!
