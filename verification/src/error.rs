//! What errors raised by encoders, decoders, readers and writers must support.
//!
//! The library reports each of its own failures as a [`Message`], and an
//! implementation of [`Error`] keeps it. Code outside the library raises
//! errors with a text of its own through [`Error::custom`].

use crate::json::reader::ParseError;
use crate::wire::types::{TypeKind, TypeTag};
use vstd::prelude::*;

verus! {

/// The kinds of values of the protocol, as far as an error names them.
#[derive(Debug, Clone, Copy, PartialEq, Eq, Structural)]
pub enum Expecting {
    Unit,
    Bool,
    Char,
    Unsigned8,
    Unsigned16,
    Unsigned32,
    Unsigned64,
    Unsigned128,
    Signed8,
    Signed16,
    Signed32,
    Signed64,
    Signed128,
    Usize,
    Isize,
    Array,
    Bytes,
    String,
    Option,
    Pack,
    Sequence,
    Tuple,
    Mapping,
    Struct,
    TupleStruct,
    UnitStruct,
    Variant,
    Any,
}

/// A failure that the library itself reports.
#[derive(Debug, Clone, Copy, PartialEq, Eq, Structural)]
pub enum Message {
    /// A reader was asked for more bytes than it has.
    BufferUnderflow,
    /// A read went past the budget of a limited reader.
    OutOfBounds,
    /// A writer of fixed size has no room for the bytes.
    BufferOverflow,
    /// A number does not fit the type it is decoded into.
    IntegerOverflow,
    /// A length does not fit the integer type that carries it.
    LengthOverflow,
    /// Bytes that should hold a string are not UTF-8.
    InvalidUtf8,
    /// Something was decoded out of a value that is known to be empty.
    EmptyValue,
    /// The tag that was read is not of the expected kind.
    Expected { expected: TypeKind, actual: TypeTag, pos: usize },
    /// The tag that was read stands for no boolean.
    BadBoolean { actual: TypeTag, pos: usize },
    /// The number that was read is no Unicode scalar value.
    BadCharacter(u32),
    /// The tag that was read stands neither for an absent nor a present option.
    ExpectedOption { tag: TypeTag, pos: usize },
    /// A sequence of bytes has another length than the array it is decoded into.
    BadLength { actual_len: usize, expected_len: usize, pos: usize },
    /// The tag that was read is of a kind that cannot be skipped.
    UnknownKind { tag: TypeTag },
    /// The byte that should tell an absent option from a present one is neither.
    BadOptionByte(u8),
    /// The byte that should hold a boolean is neither 0 nor 1.
    BadBooleanByte(u8),
    /// A value in memory is of another kind than the one asked for.
    Mismatch { expected: Expecting },
    /// An encoder or decoder was asked for a kind of value that it does not support.
    InvalidType { requested: Expecting },
}

/// What reading a value out of a source comes to.
pub enum Outcome<V> {
    /// The source starts with the value, which takes `len` bytes.
    Value { value: V, len: nat },
    /// The source starts with something else, which the decoder reports
    /// when it has read `len` bytes.
    Failure { message: Message, len: nat },
    /// The source ends before the value does, which the reader reports.
    Underflow,
}

/// What an error was made from.
pub enum Cause {
    /// Made by [`Error::custom`] from the given text.
    Custom(Seq<char>),
    /// Made by [`Error::message`] from the given message.
    Message(Message),
    /// Made from a failure to read a JSON text.
    Parse(ParseError),
}

/// Trait governing errors raised during encoding or decoding.
pub trait Error: Sized {
    /// What the error was made from.
    spec fn cause(&self) -> Cause;

    /// Construct a custom error.
    fn custom(text: &str) -> (e: Self)
        ensures
            e.cause() == Cause::Custom(text@),
    ;

    /// Construct the error for a failure that the library reports.
    fn message(message: Message) -> (e: Self)
        ensures
            e.cause() == Cause::Message(message),
    ;
}

} // verus!
