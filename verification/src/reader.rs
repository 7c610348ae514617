//! Trait for governing how a particular source of bytes is read.
//!
//! A source references the complete data being read, so the bytes it hands
//! out live as long as the data does.

use crate::error::{Cause, Error, Message, Outcome};
use vstd::prelude::*;

verus! {

/// Trait governing how a source of bytes is read.
///
/// This requires the reader to be able to hand out contiguous references to the
/// byte source through [Reader::read_bytes].
pub trait Reader<'de>: Sized {
    /// Error type raised by the current reader.
    type Error: Error;

    /// The bytes that the reader can still hand out, in the order in which it
    /// hands them out.
    spec fn remaining(&self) -> Seq<u8>;

    /// Where the source of the reader ends, counted as a reader counts its
    /// position that keeps count of it, so that the position and the bytes
    /// that are left add up to it. No read that succeeds moves the end.
    spec fn end(&self) -> int;

    /// The number of bytes that are left can be counted.
    proof fn lemma_remaining_fits(&self)
        ensures
            self.remaining().len() <= usize::MAX,
    ;

    /// Skip over the given number of bytes.
    fn skip(&mut self, n: usize) -> (r: Result<(), Self::Error>)
        ensures
            r is Ok <==> n <= old(self).remaining().len(),
            r is Ok ==> final(self).remaining() == old(self).remaining().skip(n as int)
                && final(self).end() == old(self).end(),
            r is Err ==> final(self).remaining().is_prefix_of(old(self).remaining()),
    ;

    /// Read a slice out of the current reader.
    fn read_bytes(&mut self, n: usize) -> (r: Result<&'de [u8], Self::Error>)
        ensures
            r is Ok <==> n <= old(self).remaining().len(),
            r matches Ok(bytes) ==> bytes@ == old(self).remaining().take(n as int)
                && final(self).remaining() == old(self).remaining().skip(n as int)
                && final(self).end() == old(self).end(),
            r is Err ==> final(self).remaining().is_prefix_of(old(self).remaining()),
    ;

    /// Read a single byte.
    fn read_byte(&mut self) -> (r: Result<u8, Self::Error>)
        ensures
            r is Ok <==> 1 <= old(self).remaining().len(),
            r matches Ok(b) ==> b == old(self).remaining()[0]
                && final(self).remaining() == old(self).remaining().skip(1)
                && final(self).end() == old(self).end(),
            r is Err ==> final(self).remaining().is_prefix_of(old(self).remaining()),
    ;

    /// Read bytes into the given buffer: as many as the buffer holds. The
    /// buffer is left as it is where the reader has fewer.
    fn read(&mut self, buf: &mut [u8]) -> (r: Result<(), Self::Error>)
        ensures
            r is Ok <==> old(buf)@.len() <= old(self).remaining().len(),
            r is Ok ==> final(buf)@ == old(self).remaining().take(old(buf)@.len() as int)
                && final(self).remaining() == old(self).remaining().skip(old(buf)@.len() as int)
                && final(self).end() == old(self).end(),
            r is Err ==> final(buf)@ == old(buf)@ && final(self).remaining().is_prefix_of(
                old(self).remaining(),
            ),
    {
        let source = self.read_bytes(buf.len())?;
        crate::text::copy_into(buf, source);
        Ok(())
    }

    /// Read an array out of the current reader.
    fn read_array<const N: usize>(&mut self) -> (r: Result<[u8; N], Self::Error>)
        ensures
            r is Ok <==> N <= old(self).remaining().len(),
            r matches Ok(array) ==> array@ == old(self).remaining().take(N as int)
                && final(self).remaining() == old(self).remaining().skip(N as int)
                && final(self).end() == old(self).end(),
            r is Err ==> final(self).remaining().is_prefix_of(old(self).remaining()),
    {
        let bytes = self.read_bytes(N)?;
        Ok(crate::text::array_from_slice::<N>(bytes))
    }
}

/// Whether the reader has read `len` bytes, which it had: the bytes behind
/// them are left, and the end of the source is where it was.
pub open spec fn advanced<'de, R: Reader<'de>>(before: R, after: R, len: nat) -> bool {
    &&& len <= before.remaining().len()
    &&& after.remaining() == before.remaining().skip(len as int)
    &&& after.end() == before.end()
}

/// What reading a value does to a reader, for the outcome that the bytes of
/// the reader come to: the value is handed out and its bytes are read, or
/// the reading fails. In no case is more left to read than before.
pub open spec fn read<'de, R: Reader<'de>, V>(
    before: R,
    after: R,
    r: Result<V, R::Error>,
    outcome: Outcome<V>,
) -> bool {
    &&& match outcome {
        Outcome::Value { value, len } => (r matches Ok(v) && v == value && len
            <= before.remaining().len() && after.remaining() == before.remaining().skip(
            len as int,
        ) && after.end() == before.end()),
        Outcome::Failure { message, len } => (r matches Err(e) && e.cause() == Cause::Message(
            message,
        ) && len <= before.remaining().len() && after.remaining() == before.remaining().skip(
            len as int,
        ) && after.end() == before.end()),
        Outcome::Underflow => r is Err,
    }
    &&& after.remaining().len() <= before.remaining().len()
}

/// What reading a value does to a reader, where `same` tells whether a value
/// that is handed out is the value of the outcome.
pub open spec fn read_with<'de, R: Reader<'de>, V, M>(
    before: R,
    after: R,
    r: Result<V, R::Error>,
    outcome: Outcome<M>,
    same: spec_fn(V, M) -> bool,
) -> bool {
    &&& match outcome {
        Outcome::Value { value, len } => (r matches Ok(v) && same(v, value) && len
            <= before.remaining().len() && after.remaining() == before.remaining().skip(
            len as int,
        ) && after.end() == before.end()),
        Outcome::Failure { message, len } => (r matches Err(e) && e.cause() == Cause::Message(
            message,
        ) && len <= before.remaining().len() && after.remaining() == before.remaining().skip(
            len as int,
        ) && after.end() == before.end()),
        Outcome::Underflow => r is Err,
    }
    &&& after.remaining().len() <= before.remaining().len()
}

/// A reader where the current position is exactly known.
pub trait PositionedReader<'de>: Reader<'de> {
    /// The number of bytes that were read so far.
    spec fn position(&self) -> usize;

    /// The position and the bytes that are left add up to the end of the
    /// source: what is read moves the position on by as much.
    proof fn lemma_position(&self)
        ensures
            self.position() + self.remaining().len() == self.end(),
    ;

    /// The exact position of a reader.
    fn pos(&self) -> (p: usize)
        ensures
            p == self.position(),
    ;
}

/// The position and the bytes that are left add up to the end of the source,
/// for every reader that keeps count of its position.
pub broadcast proof fn lemma_position_of<'de, R: PositionedReader<'de>>(reader: R)
    ensures
        #[trigger] reader.position() + reader.remaining().len() == reader.end(),
{
    reader.lemma_position();
}

/// Whether the reader has read `len` bytes, which it had, and has moved its
/// position on by as much.
pub open spec fn advanced_at<'de, R: PositionedReader<'de>>(before: R, after: R, len: nat) -> bool {
    &&& advanced(before, after, len)
    &&& after.position() == before.position() + len
}

/// What reading a value does to a reader that keeps count of its position:
/// what [`read`] says, and the position moves on by the bytes of the value,
/// or by the bytes that were read before the decoder found fault.
pub open spec fn read_at<'de, R: PositionedReader<'de>, V>(
    before: R,
    after: R,
    r: Result<V, R::Error>,
    outcome: Outcome<V>,
) -> bool {
    &&& read(before, after, r, outcome)
    &&& outcome matches Outcome::Value { value, len } ==> after.position() == before.position()
        + len
    &&& outcome matches Outcome::Failure { message, len } ==> after.position()
        == before.position() + len
}

/// What reading a value does to a reader that keeps count of its position:
/// what [`read_with`] says, and the position moves on by the bytes of the
/// value, or by the bytes that were read before the decoder found fault.
pub open spec fn read_with_at<'de, R: PositionedReader<'de>, V, M>(
    before: R,
    after: R,
    r: Result<V, R::Error>,
    outcome: Outcome<M>,
    same: spec_fn(V, M) -> bool,
) -> bool {
    &&& read_with(before, after, r, outcome, same)
    &&& outcome matches Outcome::Value { value, len } ==> after.position() == before.position()
        + len
    &&& outcome matches Outcome::Failure { message, len } ==> after.position()
        == before.position() + len
}

/// An error raised while decoding a slice.
#[derive(Debug)]
pub struct SliceReaderError {
    repr: SliceReaderErrorRepr,
}

#[derive(Debug)]
enum SliceReaderErrorRepr {
    Custom(String),
    Message(Message),
}

impl SliceReaderError {
    /// The failure that the library reported, unless the error was made
    /// from a text.
    #[inline]
    pub fn kind(&self) -> (r: Option<Message>)
        ensures
            r == (match self.cause() {
                Cause::Message(message) => Some(message),
                _ => None,
            }),
    {
        match &self.repr {
            SliceReaderErrorRepr::Message(message) => Some(*message),
            SliceReaderErrorRepr::Custom(_) => None,
        }
    }
}

impl Error for SliceReaderError {
    closed spec fn cause(&self) -> Cause {
        match self.repr {
            SliceReaderErrorRepr::Custom(text) => Cause::Custom(text@),
            SliceReaderErrorRepr::Message(message) => Cause::Message(message),
        }
    }

    #[inline]
    fn custom(text: &str) -> (e: Self) {
        Self { repr: SliceReaderErrorRepr::Custom(text.to_owned()) }
    }

    #[inline]
    fn message(message: Message) -> (e: Self) {
        Self { repr: SliceReaderErrorRepr::Message(message) }
    }
}

impl<'de> Reader<'de> for &'de [u8] {
    type Error = SliceReaderError;

    open spec fn remaining(&self) -> Seq<u8> {
        (*self)@
    }

    open spec fn end(&self) -> int {
        0
    }

    proof fn lemma_remaining_fits(&self) {
        assert(vstd::slice::spec_slice_len(*self) == self@.len());
    }

    #[inline]
    fn skip(&mut self, n: usize) -> (r: Result<(), Self::Error>)
        ensures
            r matches Err(e) ==> e.cause() == Cause::Message(Message::BufferUnderflow)
                && *final(self) == *old(self),
    {
        if self.len() < n {
            return Err(SliceReaderError::message(Message::BufferUnderflow));
        }
        let (_, tail) = self.split_at(n);
        *self = tail;
        Ok(())
    }

    #[inline]
    fn read_bytes(&mut self, n: usize) -> (r: Result<&'de [u8], Self::Error>)
        ensures
            r matches Err(e) ==> e.cause() == Cause::Message(Message::BufferUnderflow)
                && *final(self) == *old(self),
    {
        if self.len() < n {
            return Err(SliceReaderError::message(Message::BufferUnderflow));
        }
        let (head, tail) = self.split_at(n);
        *self = tail;
        Ok(head)
    }

    #[inline]
    fn read_byte(&mut self) -> (r: Result<u8, Self::Error>)
        ensures
            r matches Err(e) ==> e.cause() == Cause::Message(Message::BufferUnderflow)
                && *final(self) == *old(self),
    {
        if self.len() < 1 {
            return Err(SliceReaderError::message(Message::BufferUnderflow));
        }
        let (head, tail) = self.split_at(1);
        *self = tail;
        Ok(head[0])
    }
}

/// An efficient [Reader] wrapper around a slice.
pub struct SliceReader<'de> {
    slice: &'de [u8],
    start: usize,
    end: usize,
}

impl<'de> SliceReader<'de> {
    #[verifier::type_invariant]
    spec fn inv(self) -> bool {
        self.start <= self.end && self.end == self.slice@.len()
    }

    /// Construct a new instance around the specified slice.
    #[inline]
    pub fn new(slice: &'de [u8]) -> (reader: Self)
        ensures
            reader.remaining() == slice@,
    {
        Self { slice, start: 0, end: slice.len() }
    }
}

impl<'de> Reader<'de> for SliceReader<'de> {
    type Error = SliceReaderError;

    closed spec fn remaining(&self) -> Seq<u8> {
        if self.start <= self.slice@.len() {
            self.slice@.skip(self.start as int)
        } else {
            Seq::empty()
        }
    }

    closed spec fn end(&self) -> int {
        self.slice@.len() as int
    }

    proof fn lemma_remaining_fits(&self) {
        assert(vstd::slice::spec_slice_len(self.slice) == self.slice@.len());
    }

    #[inline]
    fn skip(&mut self, n: usize) -> (r: Result<(), Self::Error>)
        ensures
            r matches Err(e) ==> e.cause() == Cause::Message(Message::BufferUnderflow)
                && final(self).remaining() == old(self).remaining(),
    {
        proof {
            use_type_invariant(&*self);
        }
        match bounds_check_add(self.start, self.end, n) {
            Ok(outcome) => {
                assert(self.slice@.skip(outcome as int) =~= self.slice@.skip(self.start as int).skip(
                    n as int,
                ));
                self.start = outcome;
                Ok(())
            },
            Err(e) => Err(e),
        }
    }

    #[inline]
    fn read_bytes(&mut self, n: usize) -> (r: Result<&'de [u8], Self::Error>)
        ensures
            r matches Err(e) ==> e.cause() == Cause::Message(Message::BufferUnderflow)
                && final(self).remaining() == old(self).remaining(),
    {
        proof {
            use_type_invariant(&*self);
        }
        match bounds_check_add(self.start, self.end, n) {
            Ok(outcome) => {
                let slice: &'de [u8] = self.slice;
                let bytes = &slice[self.start..outcome];
                assert(self.slice@.skip(outcome as int) =~= self.slice@.skip(self.start as int).skip(
                    n as int,
                ));
                assert(bytes@ =~= self.slice@.skip(self.start as int).take(n as int));
                self.start = outcome;
                Ok(bytes)
            },
            Err(e) => Err(e),
        }
    }

    #[inline]
    fn read_byte(&mut self) -> (r: Result<u8, Self::Error>)
        ensures
            r matches Err(e) ==> e.cause() == Cause::Message(Message::BufferUnderflow)
                && final(self).remaining() == old(self).remaining(),
    {
        proof {
            use_type_invariant(&*self);
        }
        match bounds_check_add(self.start, self.end, 1) {
            Ok(outcome) => {
                let b = self.slice[self.start];
                assert(self.slice@.skip(outcome as int) =~= self.slice@.skip(self.start as int).skip(
                    1,
                ));
                self.start = outcome;
                Ok(b)
            },
            Err(e) => Err(e),
        }
    }
}

/// The place `len` bytes after `start`, where it does not lie past `end`.
#[inline]
pub fn bounds_check_add(start: usize, end: usize, len: usize) -> (r: Result<
    usize,
    SliceReaderError,
>)
    requires
        start <= end,
    ensures
        r is Ok <==> start + len <= end,
        r matches Ok(outcome) ==> outcome == start + len,
        r matches Err(e) ==> e.cause() == Cause::Message(Message::BufferUnderflow),
{
    let outcome = start.wrapping_add(len);

    if outcome > end || outcome < start {
        Err(SliceReaderError::message(Message::BufferUnderflow))
    } else {
        Ok(outcome)
    }
}

/// Keep a record of the current position.
///
/// Constructed through [with_position].
pub struct WithPosition<R> {
    pos: usize,
    reader: R,
}

/// Keep an accurate record of the position within the reader.
pub fn with_position<'de, R: Reader<'de>>(reader: R) -> (r: WithPosition<R>)
    ensures
        r.position() == 0,
        r.remaining() == reader.remaining(),
{
    proof {
        reader.lemma_remaining_fits();
        assert(reader.remaining().take(reader.remaining().len() as int) =~= reader.remaining());
    }
    WithPosition { pos: 0, reader }
}

impl<R> WithPosition<R> {
    /// The bytes of `source` that can be counted from the position `pos` on.
    pub open spec fn countable(pos: usize, source: Seq<u8>) -> Seq<u8> {
        if pos + source.len() <= usize::MAX {
            source
        } else {
            source.take(usize::MAX - pos)
        }
    }

    proof fn lemma_countable_skip(pos: usize, source: Seq<u8>, n: usize)
        requires
            pos + n <= usize::MAX,
            n <= source.len(),
        ensures
            Self::countable((pos + n) as usize, source.skip(n as int)) == Self::countable(
                pos,
                source,
            ).skip(n as int),
            Self::countable(pos, source).take(n as int) == source.take(n as int),
            n <= Self::countable(pos, source).len(),
    {
        assert(Self::countable((pos + n) as usize, source.skip(n as int)) =~= Self::countable(
            pos,
            source,
        ).skip(n as int));
        assert(Self::countable(pos, source).take(n as int) =~= source.take(n as int));
    }

    proof fn lemma_countable_prefix(pos: usize, before: Seq<u8>, after: Seq<u8>)
        requires
            after.is_prefix_of(before),
        ensures
            Self::countable(pos, after).is_prefix_of(Self::countable(pos, before)),
    {
    }
}

impl<'de, R: Reader<'de>> PositionedReader<'de> for WithPosition<R> {
    closed spec fn position(&self) -> usize {
        self.pos
    }

    proof fn lemma_position(&self) {
    }

    #[inline]
    fn pos(&self) -> (p: usize) {
        self.pos
    }
}

impl<'de, R: Reader<'de>> Reader<'de> for WithPosition<R> {
    type Error = R::Error;

    closed spec fn remaining(&self) -> Seq<u8> {
        Self::countable(self.pos, self.reader.remaining())
    }

    closed spec fn end(&self) -> int {
        self.pos + Self::countable(self.pos, self.reader.remaining()).len()
    }

    proof fn lemma_remaining_fits(&self) {
        self.reader.lemma_remaining_fits();
    }

    #[inline]
    fn skip(&mut self, n: usize) -> (r: Result<(), Self::Error>)
        ensures
            r is Ok ==> final(self).position() == old(self).position() + n,
            r is Err ==> final(self).position() == old(self).position(),
    {
        let pos = match self.pos.checked_add(n) {
            Some(pos) => pos,
            None => {
                return Err(R::Error::message(Message::BufferUnderflow));
            },
        };
        let ghost before = self.reader.remaining();
        match self.reader.skip(n) {
            Ok(()) => {
                proof {
                    Self::lemma_countable_skip(self.pos, before, n);
                }
                self.pos = pos;
                Ok(())
            },
            Err(e) => {
                proof {
                    Self::lemma_countable_prefix(self.pos, before, self.reader.remaining());
                }
                Err(e)
            },
        }
    }

    #[inline]
    fn read_bytes(&mut self, n: usize) -> (r: Result<&'de [u8], Self::Error>)
        ensures
            r is Ok ==> final(self).position() == old(self).position() + n,
            r is Err ==> final(self).position() == old(self).position(),
    {
        let pos = match self.pos.checked_add(n) {
            Some(pos) => pos,
            None => {
                return Err(R::Error::message(Message::BufferUnderflow));
            },
        };
        let ghost before = self.reader.remaining();
        match self.reader.read_bytes(n) {
            Ok(bytes) => {
                proof {
                    Self::lemma_countable_skip(self.pos, before, n);
                }
                self.pos = pos;
                Ok(bytes)
            },
            Err(e) => {
                proof {
                    Self::lemma_countable_prefix(self.pos, before, self.reader.remaining());
                }
                Err(e)
            },
        }
    }

    #[inline]
    fn read(&mut self, buf: &mut [u8]) -> (r: Result<(), Self::Error>)
        ensures
            r is Ok ==> final(self).position() == old(self).position() + old(buf)@.len(),
            r is Err ==> final(self).position() == old(self).position(),
    {
        let n = buf.len();
        let pos = match self.pos.checked_add(n) {
            Some(pos) => pos,
            None => {
                return Err(R::Error::message(Message::BufferUnderflow));
            },
        };
        let ghost before = self.reader.remaining();
        match self.reader.read(buf) {
            Ok(()) => {
                proof {
                    Self::lemma_countable_skip(self.pos, before, n);
                }
                self.pos = pos;
                Ok(())
            },
            Err(e) => {
                proof {
                    Self::lemma_countable_prefix(self.pos, before, self.reader.remaining());
                }
                Err(e)
            },
        }
    }

    #[inline]
    fn read_array<const N: usize>(&mut self) -> (r: Result<[u8; N], Self::Error>)
        ensures
            r is Ok ==> final(self).position() == old(self).position() + N,
            r is Err ==> final(self).position() == old(self).position(),
    {
        let pos = match self.pos.checked_add(N) {
            Some(pos) => pos,
            None => {
                return Err(R::Error::message(Message::BufferUnderflow));
            },
        };
        let ghost before = self.reader.remaining();
        match self.reader.read_array::<N>() {
            Ok(array) => {
                proof {
                    Self::lemma_countable_skip(self.pos, before, N);
                }
                self.pos = pos;
                Ok(array)
            },
            Err(e) => {
                proof {
                    Self::lemma_countable_prefix(self.pos, before, self.reader.remaining());
                }
                Err(e)
            },
        }
    }

    #[inline]
    fn read_byte(&mut self) -> (r: Result<u8, Self::Error>)
        ensures
            r is Ok ==> final(self).position() == old(self).position() + 1,
            r is Err ==> final(self).position() == old(self).position(),
    {
        let pos = match self.pos.checked_add(1) {
            Some(pos) => pos,
            None => {
                return Err(R::Error::message(Message::BufferUnderflow));
            },
        };
        let ghost before = self.reader.remaining();
        match self.reader.read_byte() {
            Ok(b) => {
                proof {
                    Self::lemma_countable_skip(self.pos, before, 1);
                }
                self.pos = pos;
                Ok(b)
            },
            Err(e) => {
                proof {
                    Self::lemma_countable_prefix(self.pos, before, self.reader.remaining());
                }
                Err(e)
            },
        }
    }
}

/// Limit the number of bytes that can be read out of a reader to the specified limit.
///
/// Constructed through [limit].
pub struct Limit<R> {
    remaining: usize,
    reader: R,
}

/// Let no more than `limit` bytes be read out of the reader.
pub fn limit<'de, R: Reader<'de>>(reader: R, budget: usize) -> (r: Limit<R>)
    ensures
        r.budget() == budget,
        r.inner() == reader,
{
    Limit { remaining: budget, reader }
}

impl<R> Limit<R> {
    /// The number of bytes that may still be read.
    pub closed spec fn budget(&self) -> usize {
        self.remaining
    }

    /// The reader that the bytes are read from.
    pub closed spec fn inner(&self) -> R {
        self.reader
    }

    /// The first bytes of `source`, as many as the budget allows.
    pub open spec fn allowed(budget: usize, source: Seq<u8>) -> Seq<u8> {
        if budget <= source.len() {
            source.take(budget as int)
        } else {
            source
        }
    }
}

impl<'de, R: Reader<'de>> Limit<R> {
    /// Take `n` bytes out of the budget, or fail and leave it as it is.
    #[inline]
    pub fn bounds_check(&mut self, n: usize) -> (r: Result<(), R::Error>)
        ensures
            r is Ok <==> n <= old(self).budget(),
            r is Ok ==> final(self).budget() == old(self).budget() - n,
            r matches Err(e) ==> e.cause() == Cause::Message(Message::OutOfBounds)
                && final(self).budget() == old(self).budget(),
            final(self).inner() == old(self).inner(),
    {
        match self.remaining.checked_sub(n) {
            Some(remaining) => {
                self.remaining = remaining;
                Ok(())
            },
            None => Err(R::Error::message(Message::OutOfBounds)),
        }
    }
}

impl<'de, R: PositionedReader<'de>> PositionedReader<'de> for Limit<R> {
    closed spec fn position(&self) -> usize {
        self.reader.position()
    }

    proof fn lemma_position(&self) {
        self.reader.lemma_position();
    }

    #[inline]
    fn pos(&self) -> (p: usize) {
        self.reader.pos()
    }
}

impl<'de, R: Reader<'de>> Reader<'de> for Limit<R> {
    type Error = R::Error;

    open spec fn remaining(&self) -> Seq<u8> {
        Self::allowed(self.budget(), self.inner().remaining())
    }

    open spec fn end(&self) -> int {
        self.inner().end() - (self.inner().remaining().len() - Self::allowed(
            self.budget(),
            self.inner().remaining(),
        ).len())
    }

    proof fn lemma_remaining_fits(&self) {
        self.inner().lemma_remaining_fits();
    }

    #[inline]
    fn skip(&mut self, n: usize) -> (r: Result<(), Self::Error>)
        ensures
            n > old(self).budget() ==> (r matches Err(e) && e.cause() == Cause::Message(
                Message::OutOfBounds,
            ) && *final(self) == *old(self)),
            r is Ok ==> final(self).budget() == old(self).budget() - n,
    {
        match self.bounds_check(n) {
            Ok(()) => {},
            Err(e) => {
                return Err(e);
            },
        }
        let r = self.reader.skip(n);
        proof {
            if r is Ok {
                assert(final(self).remaining() =~= old(self).remaining().skip(n as int));
            }
        }
        r
    }

    #[inline]
    fn read_bytes(&mut self, n: usize) -> (r: Result<&'de [u8], Self::Error>)
        ensures
            n > old(self).budget() ==> (r matches Err(e) && e.cause() == Cause::Message(
                Message::OutOfBounds,
            ) && *final(self) == *old(self)),
            r is Ok ==> final(self).budget() == old(self).budget() - n,
    {
        match self.bounds_check(n) {
            Ok(()) => {},
            Err(e) => {
                return Err(e);
            },
        }
        let r = self.reader.read_bytes(n);
        proof {
            if r is Ok {
                assert(final(self).remaining() =~= old(self).remaining().skip(n as int));
                assert(r->Ok_0@ =~= old(self).remaining().take(n as int));
            }
        }
        r
    }

    #[inline]
    fn read_byte(&mut self) -> (r: Result<u8, Self::Error>)
        ensures
            1 > old(self).budget() ==> (r matches Err(e) && e.cause() == Cause::Message(
                Message::OutOfBounds,
            ) && *final(self) == *old(self)),
            r is Ok ==> final(self).budget() == old(self).budget() - 1,
    {
        match self.bounds_check(1) {
            Ok(()) => {},
            Err(e) => {
                return Err(e);
            },
        }
        let r = self.reader.read_byte();
        proof {
            if r is Ok {
                assert(final(self).remaining() =~= old(self).remaining().skip(1));
            }
        }
        r
    }
}

} // verus!
