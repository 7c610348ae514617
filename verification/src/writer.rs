//! Trait for governing how bytes are written.

use crate::error::{Cause, Error, Message};
use vstd::prelude::*;

verus! {

/// The trait governing how a writer works: it takes a slice and either
/// appends all of it or fails.
pub trait Writer: Sized {
    /// The error type raised by the writer.
    type Error: Error;

    /// The bytes written so far.
    spec fn written(&self) -> Seq<u8>;

    /// The number of bytes that the writer still takes, if there is a bound to it.
    spec fn room(&self) -> Option<nat>;

    /// Write bytes to the current writer.
    fn write_bytes(&mut self, bytes: &[u8]) -> (r: Result<(), Self::Error>)
        ensures
            r is Ok <==> (old(self).room() matches Some(room) ==> bytes@.len() <= room),
            r is Ok ==> final(self).written() == old(self).written() + bytes@,
            r is Ok ==> final(self).room() == match old(self).room() {
                Some(room) => Some((room - bytes@.len()) as nat),
                None => None,
            },
            r is Err ==> final(self).written() == old(self).written() && final(self).room()
                == old(self).room(),
    ;

    /// Write a single byte.
    fn write_byte(&mut self, b: u8) -> (r: Result<(), Self::Error>)
        ensures
            r is Ok <==> (old(self).room() matches Some(room) ==> seq![b].len() <= room),
            r is Ok ==> final(self).written() == old(self).written() + seq![b],
            r is Ok ==> final(self).room() == match old(self).room() {
                Some(room) => Some((room - seq![b].len()) as nat),
                None => None,
            },
            r is Err ==> final(self).written() == old(self).written() && final(self).room()
                == old(self).room(),
    ;
}

/// Whether the writer takes `n` more bytes.
pub open spec fn fits<W: Writer>(writer: W, n: nat) -> bool {
    writer.room() matches Some(room) ==> n <= room
}

/// Whether the writer `after` is the writer `before` with `bytes` appended.
pub open spec fn appended<W: Writer>(before: W, after: W, bytes: Seq<u8>) -> bool {
    &&& after.written() == before.written() + bytes
    &&& after.room() == match before.room() {
        Some(room) => Some((room - bytes.len()) as nat),
        None => None,
    }
}

/// What writing `form` does to a writer: where the writer takes that many
/// bytes, they are appended; else the writing fails, after none or some of
/// the bytes.
pub open spec fn wrote<W: Writer>(before: W, after: W, ok: bool, form: Seq<u8>) -> bool {
    &&& ok <==> fits(before, form.len())
    &&& ok ==> appended(before, after, form)
    &&& !ok ==> before.written().is_prefix_of(after.written())
}

/// Writing one thing after another is writing both.
pub proof fn lemma_wrote_then<W: Writer>(
    a: W,
    b: W,
    c: W,
    first: Seq<u8>,
    second: Seq<u8>,
    ok: bool,
)
    requires
        wrote(a, b, true, first),
        wrote(b, c, ok, second),
    ensures
        wrote(a, c, ok, first + second),
{
    assert(a.written() + (first + second) =~= (a.written() + first) + second);
    assert(a.written().is_prefix_of(a.written() + first));
}

/// Where writing the first of two things fails, writing both fails.
pub proof fn lemma_wrote_fail<W: Writer>(a: W, b: W, first: Seq<u8>, second: Seq<u8>)
    requires
        wrote(a, b, false, first),
    ensures
        wrote(a, b, false, first + second),
{
}

/// Where writing a part of something fails for want of room, writing the
/// whole fails.
pub proof fn lemma_wrote_part<W: Writer>(a: W, b: W, part: Seq<u8>, whole: Seq<u8>)
    requires
        wrote(a, b, false, part),
        part.len() <= whole.len(),
    ensures
        wrote(a, b, false, whole),
{
}

/// Writing nothing leaves the writer as it is.
pub proof fn lemma_wrote_nothing<W: Writer>(a: W)
    ensures
        wrote(a, a, true, Seq::<u8>::empty()),
{
    assert(a.written() + Seq::<u8>::empty() =~= a.written());
}

/// The error of a writer that never fails.
#[derive(Debug)]
pub struct VecWriterError {
    repr: VecWriterErrorRepr,
}

#[derive(Debug)]
enum VecWriterErrorRepr {
    Custom(String),
    Message(Message),
}

impl VecWriterError {
    /// The failure that the library reported, unless the error was made
    /// from a text.
    #[inline]
    pub fn kind(&self) -> (r: Option<Message>)
        ensures
            r == (match self.cause() {
                Cause::Message(message) => Some(message),
                _ => None,
            }),
    {
        match &self.repr {
            VecWriterErrorRepr::Message(message) => Some(*message),
            VecWriterErrorRepr::Custom(_) => None,
        }
    }

    /// The error of another kind that was made from what this one was made
    /// from.
    pub fn into_error<E: Error>(self) -> (e: E)
        ensures
            e.cause() == self.cause(),
    {
        match self.repr {
            VecWriterErrorRepr::Custom(text) => E::custom(text.as_str()),
            VecWriterErrorRepr::Message(message) => E::message(message),
        }
    }
}

impl Error for VecWriterError {
    closed spec fn cause(&self) -> Cause {
        match self.repr {
            VecWriterErrorRepr::Custom(text) => Cause::Custom(text@),
            VecWriterErrorRepr::Message(message) => Cause::Message(message),
        }
    }

    fn custom(text: &str) -> (e: Self) {
        Self { repr: VecWriterErrorRepr::Custom(text.to_owned()) }
    }

    fn message(message: Message) -> (e: Self) {
        Self { repr: VecWriterErrorRepr::Message(message) }
    }
}

impl Writer for Vec<u8> {
    type Error = VecWriterError;

    open spec fn written(&self) -> Seq<u8> {
        self@
    }

    open spec fn room(&self) -> Option<nat> {
        None
    }

    #[inline]
    fn write_bytes(&mut self, bytes: &[u8]) -> (r: Result<(), Self::Error>) {
        self.extend_from_slice(bytes);
        Ok(())
    }

    #[inline]
    fn write_byte(&mut self, b: u8) -> (r: Result<(), Self::Error>) {
        self.push(b);
        Ok(())
    }
}

/// A writer of at most `N` bytes.
pub struct FixedBytes<const N: usize> {
    bytes: Vec<u8>,
}

/// The error of a writer of fixed size.
#[derive(Debug)]
pub struct FixedBytesWriterError {
    repr: VecWriterErrorRepr,
}

impl FixedBytesWriterError {
    /// The failure that the library reported, unless the error was made
    /// from a text.
    #[inline]
    pub fn kind(&self) -> (r: Option<Message>)
        ensures
            r == (match self.cause() {
                Cause::Message(message) => Some(message),
                _ => None,
            }),
    {
        match &self.repr {
            VecWriterErrorRepr::Message(message) => Some(*message),
            VecWriterErrorRepr::Custom(_) => None,
        }
    }
}

impl Error for FixedBytesWriterError {
    closed spec fn cause(&self) -> Cause {
        match self.repr {
            VecWriterErrorRepr::Custom(text) => Cause::Custom(text@),
            VecWriterErrorRepr::Message(message) => Cause::Message(message),
        }
    }

    fn custom(text: &str) -> (e: Self) {
        Self { repr: VecWriterErrorRepr::Custom(text.to_owned()) }
    }

    fn message(message: Message) -> (e: Self) {
        Self { repr: VecWriterErrorRepr::Message(message) }
    }
}

impl<const N: usize> FixedBytes<N> {
    /// A writer that holds no bytes yet.
    pub fn new() -> (writer: Self)
        ensures
            writer.written() == Seq::<u8>::empty(),
            writer.room() == Some(N as nat),
    {
        Self { bytes: Vec::new() }
    }

    /// The number of bytes written.
    pub fn len(&self) -> (len: usize)
        ensures
            len == self.written().len(),
    {
        self.bytes.len()
    }

    /// The bytes written.
    pub fn as_slice(&self) -> (bytes: &[u8])
        ensures
            bytes@ == self.written(),
    {
        self.bytes.as_slice()
    }
}

impl<const N: usize> Writer for FixedBytes<N> {
    type Error = FixedBytesWriterError;

    closed spec fn written(&self) -> Seq<u8> {
        self.bytes@
    }

    closed spec fn room(&self) -> Option<nat> {
        if self.bytes@.len() <= N {
            Some((N - self.bytes@.len()) as nat)
        } else {
            Some(0)
        }
    }

    #[inline]
    fn write_bytes(&mut self, bytes: &[u8]) -> (r: Result<(), Self::Error>)
        ensures
            r matches Err(e) ==> e.cause() == Cause::Message(Message::BufferOverflow),
    {
        if bytes.len() == 0 {
            assert(self.bytes@ + bytes@ =~= self.bytes@);
            return Ok(());
        }
        if self.bytes.len() > N || bytes.len() > N - self.bytes.len() {
            return Err(FixedBytesWriterError::message(Message::BufferOverflow));
        }
        self.bytes.extend_from_slice(bytes);
        Ok(())
    }

    #[inline]
    fn write_byte(&mut self, b: u8) -> (r: Result<(), Self::Error>)
        ensures
            r matches Err(e) ==> e.cause() == Cause::Message(Message::BufferOverflow),
    {
        if self.bytes.len() >= N {
            return Err(FixedBytesWriterError::message(Message::BufferOverflow));
        }
        self.bytes.push(b);
        Ok(())
    }
}

} // verus!
