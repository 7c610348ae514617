//! The layout of the storage format: values stand one after the other
//! without tags, and what has a length is preceded by it.

use crate::error::{Message, Outcome};
use crate::integer::Unsigned;
use crate::storage::integer_encoding::{IntegerEncoding, UsizeEncoding};
use crate::wire::integer_encoding::after;
use vstd::prelude::*;
use vstd::utf8::{decode_utf8, encode_utf8, encode_utf8_decode_utf8, encode_utf8_valid_utf8, is_scalar, valid_utf8};

verus! {

/// The byte that a boolean is written as.
pub open spec fn bool_form(value: bool) -> Seq<u8> {
    seq![if value {
        1u8
    } else {
        0u8
    }]
}

/// What reading a boolean comes to.
pub open spec fn bool_read(source: Seq<u8>) -> Outcome<bool> {
    if source.len() == 0 {
        Outcome::Underflow
    } else if source[0] == 0 {
        Outcome::Value { value: false, len: 1 }
    } else if source[0] == 1 {
        Outcome::Value { value: true, len: 1 }
    } else {
        Outcome::Failure { message: Message::BadBooleanByte(source[0]), len: 1 }
    }
}

/// The byte that stands before an optional value: 1 where the value is
/// present, 0 where it is absent.
pub open spec fn option_form(present: bool) -> Seq<u8> {
    seq![if present {
        1u8
    } else {
        0u8
    }]
}

/// What reading the byte before an optional value comes to: whether the
/// value is present.
pub open spec fn option_read(source: Seq<u8>) -> Outcome<bool> {
    if source.len() == 0 {
        Outcome::Underflow
    } else if source[0] == 0 {
        Outcome::Value { value: false, len: 1 }
    } else if source[0] == 1 {
        Outcome::Value { value: true, len: 1 }
    } else {
        Outcome::Failure { message: Message::BadOptionByte(source[0]), len: 1 }
    }
}

/// What reading a single byte comes to.
pub open spec fn byte_read(source: Seq<u8>) -> Outcome<u8> {
    if source.len() == 0 {
        Outcome::Underflow
    } else {
        Outcome::Value { value: source[0], len: 1 }
    }
}

/// What reading `n` bytes comes to.
pub open spec fn raw_read(source: Seq<u8>, n: nat) -> Outcome<Seq<u8>> {
    if n <= source.len() {
        Outcome::Value { value: source.take(n as int), len: n }
    } else {
        Outcome::Underflow
    }
}

/// The bytes that a sequence of bytes is written as: its length and the bytes.
pub open spec fn bytes_form<L: UsizeEncoding>(bytes: Seq<u8>) -> Seq<u8> {
    L::usize_form(bytes.len()) + bytes
}

/// The bytes of the first `n` of the given slices, one after the other.
pub open spec fn joined(vectors: Seq<&[u8]>, n: nat) -> Seq<u8>
    decreases n,
{
    if n == 0 || n > vectors.len() {
        Seq::empty()
    } else {
        joined(vectors, (n - 1) as nat) + vectors[n - 1]@
    }
}

/// What reading a sequence of bytes comes to.
pub open spec fn bytes_read<L: UsizeEncoding>(source: Seq<u8>) -> Outcome<Seq<u8>> {
    match L::usize_read(source) {
        Outcome::Value { value, len } => if len + value <= source.len() {
            Outcome::Value {
                value: source.subrange(len as int, (len + value) as int),
                len: len + value,
            }
        } else {
            Outcome::Underflow
        },
        Outcome::Failure { message, len } => Outcome::Failure { message, len },
        Outcome::Underflow => Outcome::Underflow,
    }
}

/// What reading a string comes to: the bytes of the string.
pub open spec fn string_read<L: UsizeEncoding>(source: Seq<u8>) -> Outcome<Seq<u8>> {
    match bytes_read::<L>(source) {
        Outcome::Value { value, len } => if valid_utf8(value) {
            Outcome::Value { value, len }
        } else {
            Outcome::Failure { message: Message::InvalidUtf8, len }
        },
        Outcome::Failure { message, len } => Outcome::Failure { message, len },
        Outcome::Underflow => Outcome::Underflow,
    }
}

/// What reading a character comes to.
pub open spec fn char_read<I: IntegerEncoding>(source: Seq<u8>) -> Outcome<char> {
    match I::unsigned_read(
        source,
        <u32 as Unsigned>::max_value(),
        <u32 as Unsigned>::spec_groups(),
        <u32 as Unsigned>::spec_bytes(),
    ) {
        Outcome::Value { value, len } => if is_scalar(value as u32) {
            Outcome::Value { value: (value as u32) as char, len }
        } else {
            Outcome::Failure { message: Message::BadCharacter(value as u32), len }
        },
        Outcome::Failure { message, len } => Outcome::Failure { message, len },
        Outcome::Underflow => Outcome::Underflow,
    }
}

/// A boolean that is written and read again is the boolean it was; so is
/// the byte that stands before an optional value.
pub proof fn lemma_bool_round_trip(value: bool, rest: Seq<u8>)
    ensures
        bool_read(bool_form(value) + rest) == (Outcome::Value { value, len: 1 }),
        option_read(option_form(value) + rest) == (Outcome::Value { value, len: 1 }),
{
    assert((bool_form(value) + rest)[0] == bool_form(value)[0]);
    assert((option_form(value) + rest)[0] == option_form(value)[0]);
}

/// Bytes that are written and read again are the bytes they were.
pub proof fn lemma_bytes_round_trip<L: UsizeEncoding>(bytes: Seq<u8>, rest: Seq<u8>)
    requires
        bytes.len() <= usize::MAX,
        L::holds(bytes.len()),
    ensures
        bytes_read::<L>(bytes_form::<L>(bytes) + rest) == (Outcome::Value {
            value: bytes,
            len: bytes_form::<L>(bytes).len(),
        }),
        valid_utf8(bytes) ==> string_read::<L>(bytes_form::<L>(bytes) + rest)
            == (Outcome::Value { value: bytes, len: bytes_form::<L>(bytes).len() }),
        raw_read(bytes + rest, bytes.len()) == (Outcome::Value { value: bytes, len: bytes.len() }),
{
    let head = L::usize_form(bytes.len());
    let all = bytes_form::<L>(bytes) + rest;
    assert(all =~= head + (bytes + rest));
    L::lemma_usize_round_trip(bytes.len() as usize, bytes + rest);
    assert(all.subrange(head.len() as int, (head.len() + bytes.len()) as int) =~= bytes);
    assert((bytes + rest).take(bytes.len() as int) =~= bytes);
}

/// A character that is written and read again is the character it was.
pub proof fn lemma_char_round_trip<I: IntegerEncoding>(value: char, rest: Seq<u8>)
    ensures
        char_read::<I>(
            I::unsigned_form((value as u32) as nat, <u32 as Unsigned>::spec_bytes()) + rest,
        ) == (Outcome::Value {
            value,
            len: I::unsigned_form((value as u32) as nat, <u32 as Unsigned>::spec_bytes()).len(),
        }),
{
    <u32 as Unsigned>::lemma_shape();
    I::lemma_unsigned_round_trip(
        (value as u32) as nat,
        rest,
        <u32 as Unsigned>::max_value(),
        <u32 as Unsigned>::spec_groups(),
        <u32 as Unsigned>::spec_bytes(),
    );
    vstd::utf8::char_is_scalar(value);
    vstd::utf8::char_u32_cast(value, value as u32);
}

/// A string that is written and read again is the string it was: the bytes
/// that are read are those of the string in UTF-8, and the characters that
/// they hold are those of the string.
pub proof fn lemma_string_round_trip<L: UsizeEncoding>(text: Seq<char>, rest: Seq<u8>)
    requires
        encode_utf8(text).len() <= usize::MAX,
        L::holds(encode_utf8(text).len()),
    ensures
        string_read::<L>(bytes_form::<L>(encode_utf8(text)) + rest) == (Outcome::Value {
            value: encode_utf8(text),
            len: bytes_form::<L>(encode_utf8(text)).len(),
        }),
        decode_utf8(encode_utf8(text)) == text,
{
    encode_utf8_valid_utf8(text);
    encode_utf8_decode_utf8(text);
    lemma_bytes_round_trip::<L>(encode_utf8(text), rest);
}

} // verus!
