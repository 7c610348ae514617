//! How integers and lengths are written in the binary formats.

use crate::encoding::{Fixed, FixedLength, Variable};
use crate::integer::byteorder::{
    fixed_form, fixed_read, lemma_be_bound, lemma_fixed_round_trip, lemma_wrapped_round_trip,
    read_fixed, unwrapped, wrapped, write_fixed, ByteOrder,
};
use crate::error::{Cause, Error, Message, Outcome};
use crate::integer::continuation;
use crate::integer::continuation::Decoded;
use crate::integer::zigzag;
use crate::integer::{Signed, Unsigned};
use crate::reader::{read_with, Reader};
use crate::writer::{wrote, Writer};
use vstd::prelude::*;

verus! {

/// Marks the encodings of this library, so that there are no others.
pub trait Sealed {

}

impl Sealed for Variable {

}

impl<B: ByteOrder> Sealed for Fixed<B> {

}

impl<L: Unsigned, B: ByteOrder> Sealed for FixedLength<L, B> {

}

/// What decoding an unsigned number comes to, as the outcome of reading a value.
pub open spec fn outcome_of(decoded: Decoded, groups: nat) -> Outcome<nat> {
    match decoded {
        Decoded::Number { value, len } => Outcome::Value { value, len },
        Decoded::Overflow => Outcome::Failure { message: Message::IntegerOverflow, len: groups },
        Decoded::Underflow => Outcome::Underflow,
    }
}

/// Trait which governs how integers are encoded in a binary format.
///
/// The two common implementations of this is [Variable] and [Fixed].
pub trait IntegerEncoding: Sealed + Sized {
    /// The bytes that an unsigned number is written as, in a type of `bytes` bytes.
    spec fn unsigned_form(value: nat, bytes: nat) -> Seq<u8>;

    /// What reading an unsigned number out of `source` comes to, in a type
    /// that holds the numbers up to `max` in `groups` groups or `bytes` bytes.
    spec fn unsigned_read(source: Seq<u8>, max: nat, groups: nat, bytes: nat) -> Outcome<nat>;

    /// The unsigned number that a signed one is written as, in a type whose
    /// unsigned counterpart holds the numbers up to `max`.
    spec fn unsigned_of(value: int, max: nat) -> nat;

    /// The signed number that is written as the given unsigned one.
    spec fn signed_of(value: nat, max: nat) -> int;

    /// A number that is written and read again is the number it was, and what
    /// follows it is left unread.
    proof fn lemma_unsigned_round_trip(
        value: nat,
        rest: Seq<u8>,
        max: nat,
        groups: nat,
        bytes: nat,
    )
        requires
            value <= max,
            groups >= 1,
            max < crate::integer::power(128, groups),
            max + 1 == crate::integer::power(256, bytes),
        ensures
            Self::unsigned_read(Self::unsigned_form(value, bytes) + rest, max, groups, bytes)
                == (Outcome::Value { value, len: Self::unsigned_form(value, bytes).len() }),
    ;

    /// What is read as a number is a number of the type and lies within the source.
    proof fn lemma_unsigned_read(source: Seq<u8>, max: nat, groups: nat, bytes: nat)
        requires
            bytes >= 1,
            max + 1 == crate::integer::power(256, bytes),
        ensures
            Self::unsigned_read(source, max, groups, bytes) matches Outcome::Value { value, len }
                ==> value <= max && 1 <= len <= source.len(),
    ;

    /// A signed number is written as an unsigned one of its type, from which
    /// it is had again.
    proof fn lemma_signed_round_trip(value: int, max: nat)
        requires
            zigzag::encoded(value) <= max,
        ensures
            Self::unsigned_of(value, max) <= max,
            Self::signed_of(Self::unsigned_of(value, max), max) == value,
    ;

    /// Governs how unsigned integers are encoded into a [Writer].
    fn encode_unsigned<W: Writer, T: Unsigned>(writer: &mut W, value: T) -> (r: Result<
        (),
        W::Error,
    >)
        ensures
            wrote(*old(writer), *final(writer), r is Ok, Self::unsigned_form(value.value(), T::spec_bytes())),
    ;

    /// Governs how unsigned integers are decoded from a [Reader].
    fn decode_unsigned<'de, R: Reader<'de>, T: Unsigned>(reader: &mut R) -> (r: Result<
        T,
        R::Error,
    >)
        ensures
            read_with(
                *old(reader),
                *final(reader),
                r,
                Self::unsigned_read(
                    old(reader).remaining(),
                    T::max_value(),
                    T::spec_groups(),
                    T::spec_bytes(),
                ),
                |v: T, value: nat| v.value() == value,
            ),
    ;

    /// Governs how signed integers are encoded into a [Writer].
    fn encode_signed<W: Writer, T: Signed>(writer: &mut W, value: T) -> (r: Result<(), W::Error>)
        ensures
            wrote(*old(writer), *final(writer), r is Ok, Self::unsigned_form(
                Self::unsigned_of(value.value(), T::Unsigned::max_value()),
                T::Unsigned::spec_bytes(),
            )),
    ;

    /// Governs how signed integers are decoded from a [Reader].
    fn decode_signed<'de, R: Reader<'de>, T: Signed>(reader: &mut R) -> (r: Result<T, R::Error>)
        ensures
            read_with(
                *old(reader),
                *final(reader),
                r,
                Self::unsigned_read(
                    old(reader).remaining(),
                    T::Unsigned::max_value(),
                    T::Unsigned::spec_groups(),
                    T::Unsigned::spec_bytes(),
                ),
                |v: T, value: nat| v.value() == Self::signed_of(value, T::Unsigned::max_value()),
            ),
    ;
}

/// Encoding formats which ensure that variably sized types (like `usize`,
/// `isize`) are encoded in a format which is platform-neutral.
pub trait UsizeEncoding: Sealed + Sized {
    /// Whether a length can be written.
    spec fn holds(value: nat) -> bool;

    /// The bytes that a length is written as.
    spec fn usize_form(value: nat) -> Seq<u8>;

    /// What reading a length out of `source` comes to.
    spec fn usize_read(source: Seq<u8>) -> Outcome<nat>;

    /// A length that is written and read again is the length it was, and
    /// what follows it is left unread.
    proof fn lemma_usize_round_trip(value: usize, rest: Seq<u8>)
        requires
            Self::holds(value as nat),
        ensures
            Self::usize_read(Self::usize_form(value as nat) + rest) == (Outcome::Value {
                value: value as nat,
                len: Self::usize_form(value as nat).len(),
            }),
    ;

    /// What is read as a length is one, and lies within the source.
    proof fn lemma_usize_read(source: Seq<u8>)
        ensures
            Self::usize_read(source) matches Outcome::Value { value, len } ==> value <= usize::MAX
                && 1 <= len <= source.len(),
    ;

    /// Whether a length can be written.
    fn check_holds(value: usize) -> (ok: bool)
        ensures
            ok == Self::holds(value as nat),
    ;

    /// Governs how usize lengths are encoded into a [Writer].
    fn encode_usize<W: Writer>(writer: &mut W, value: usize) -> (r: Result<(), W::Error>)
        ensures
            Self::holds(value as nat) ==> wrote(
                *old(writer),
                *final(writer),
                r is Ok,
                Self::usize_form(value as nat),
            ),
            !Self::holds(value as nat) ==> (r matches Err(e) && e.cause() == Cause::Message(
                Message::LengthOverflow,
            ) && *final(writer) == *old(writer)),
    ;

    /// Governs how usize lengths are decoded from a [Reader].
    fn decode_usize<'de, R: Reader<'de>>(reader: &mut R) -> (r: Result<usize, R::Error>)
        ensures
            read_with(
                *old(reader),
                *final(reader),
                r,
                Self::usize_read(old(reader).remaining()),
                |v: usize, value: nat| v == value,
            ),
    ;
}

/// [IntegerEncoding] and [UsizeEncoding] implementation which encodes integers
/// using zigzag variable length encoding.
impl IntegerEncoding for Variable {
    open spec fn unsigned_form(value: nat, bytes: nat) -> Seq<u8> {
        continuation::encoding(value)
    }

    open spec fn unsigned_read(source: Seq<u8>, max: nat, groups: nat, bytes: nat) -> Outcome<
        nat,
    > {
        outcome_of(continuation::decoded(source, max, groups), groups)
    }

    open spec fn unsigned_of(value: int, max: nat) -> nat {
        zigzag::encoded(value)
    }

    open spec fn signed_of(value: nat, max: nat) -> int {
        zigzag::decoded(value)
    }

    proof fn lemma_unsigned_round_trip(
        value: nat,
        rest: Seq<u8>,
        max: nat,
        groups: nat,
        bytes: nat,
    ) {
        continuation::lemma_round_trip(value, rest, max, groups);
    }

    proof fn lemma_unsigned_read(source: Seq<u8>, max: nat, groups: nat, bytes: nat) {
        continuation::lemma_run(source);
    }

    proof fn lemma_signed_round_trip(value: int, max: nat) {
        zigzag::lemma_zigzag_round_trip(value);
    }

    #[inline]
    fn encode_unsigned<W: Writer, T: Unsigned>(writer: &mut W, value: T) -> (r: Result<
        (),
        W::Error,
    >) {
        continuation::encode(writer, value)
    }

    #[inline]
    fn decode_unsigned<'de, R: Reader<'de>, T: Unsigned>(reader: &mut R) -> (r: Result<
        T,
        R::Error,
    >) {
        continuation::decode(reader)
    }

    #[inline]
    fn encode_signed<W: Writer, T: Signed>(writer: &mut W, value: T) -> (r: Result<
        (),
        W::Error,
    >) {
        continuation::encode(writer, zigzag::encode(value))
    }

    #[inline]
    fn decode_signed<'de, R: Reader<'de>, T: Signed>(reader: &mut R) -> (r: Result<T, R::Error>) {
        let value: T::Unsigned = continuation::decode(reader)?;
        Ok(zigzag::decode(value))
    }
}

impl UsizeEncoding for Variable {
    open spec fn holds(value: nat) -> bool {
        true
    }

    open spec fn usize_form(value: nat) -> Seq<u8> {
        continuation::encoding(value)
    }

    open spec fn usize_read(source: Seq<u8>) -> Outcome<nat> {
        outcome_of(
            continuation::decoded(
                source,
                <usize as Unsigned>::max_value(),
                <usize as Unsigned>::spec_groups(),
            ),
            <usize as Unsigned>::spec_groups(),
        )
    }

    proof fn lemma_usize_round_trip(value: usize, rest: Seq<u8>) {
        <usize as Unsigned>::lemma_shape();
        continuation::lemma_round_trip(
            value as nat,
            rest,
            <usize as Unsigned>::max_value(),
            <usize as Unsigned>::spec_groups(),
        );
    }

    proof fn lemma_usize_read(source: Seq<u8>) {
        continuation::lemma_run(source);
    }

    #[inline]
    fn check_holds(value: usize) -> (ok: bool) {
        true
    }

    #[inline]
    fn encode_usize<W: Writer>(writer: &mut W, value: usize) -> (r: Result<(), W::Error>) {
        continuation::encode(writer, value)
    }

    #[inline]
    fn decode_usize<'de, R: Reader<'de>>(reader: &mut R) -> (r: Result<usize, R::Error>) {
        continuation::decode(reader)
    }
}

/// [IntegerEncoding] implementation which encodes integers in as many bytes
/// as their types take, in the byte order `B`. A signed number is written as
/// the unsigned number that has its bits.
impl<B: ByteOrder> IntegerEncoding for Fixed<B> {
    open spec fn unsigned_form(value: nat, bytes: nat) -> Seq<u8> {
        fixed_form::<B>(value, bytes)
    }

    open spec fn unsigned_read(source: Seq<u8>, max: nat, groups: nat, bytes: nat) -> Outcome<
        nat,
    > {
        fixed_read::<B>(source, bytes)
    }

    open spec fn unsigned_of(value: int, max: nat) -> nat {
        wrapped(value, max)
    }

    open spec fn signed_of(value: nat, max: nat) -> int {
        unwrapped(value, max)
    }

    proof fn lemma_unsigned_round_trip(
        value: nat,
        rest: Seq<u8>,
        max: nat,
        groups: nat,
        bytes: nat,
    ) {
        lemma_fixed_round_trip::<B>(value, bytes, rest);
    }

    proof fn lemma_unsigned_read(source: Seq<u8>, max: nat, groups: nat, bytes: nat) {
        if source.len() >= bytes {
            lemma_be_bound(
                crate::integer::byteorder::arranged::<B>(source.take(bytes as int)),
                bytes,
            );
        }
    }

    proof fn lemma_signed_round_trip(value: int, max: nat) {
        lemma_wrapped_round_trip(value, max);
    }

    #[inline]
    fn encode_unsigned<W: Writer, T: Unsigned>(writer: &mut W, value: T) -> (r: Result<
        (),
        W::Error,
    >) {
        write_fixed::<W, T, B>(writer, value)
    }

    #[inline]
    fn decode_unsigned<'de, R: Reader<'de>, T: Unsigned>(reader: &mut R) -> (r: Result<
        T,
        R::Error,
    >) {
        read_fixed::<R, T, B>(reader)
    }

    #[inline]
    fn encode_signed<W: Writer, T: Signed>(writer: &mut W, value: T) -> (r: Result<
        (),
        W::Error,
    >) {
        write_fixed::<W, T::Unsigned, B>(writer, value.unsigned())
    }

    #[inline]
    fn decode_signed<'de, R: Reader<'de>, T: Signed>(reader: &mut R) -> (r: Result<T, R::Error>) {
        let value = read_fixed::<R, T::Unsigned, B>(reader)?;
        Ok(T::from_unsigned(value))
    }
}

/// [UsizeEncoding] implementation which encodes a length as a number of the
/// type `L`, in the byte order `B`. A length that the type does not hold
/// cannot be written.
impl<L: Unsigned, B: ByteOrder> UsizeEncoding for FixedLength<L, B> {
    open spec fn holds(value: nat) -> bool {
        value <= L::max_value()
    }

    open spec fn usize_form(value: nat) -> Seq<u8> {
        fixed_form::<B>(value, L::spec_bytes())
    }

    open spec fn usize_read(source: Seq<u8>) -> Outcome<nat> {
        match fixed_read::<B>(source, L::spec_bytes()) {
            Outcome::Value { value, len } => if value <= usize::MAX {
                Outcome::Value { value, len }
            } else {
                Outcome::Failure { message: Message::LengthOverflow, len }
            },
            Outcome::Failure { message, len } => Outcome::Failure { message, len },
            Outcome::Underflow => Outcome::Underflow,
        }
    }

    proof fn lemma_usize_round_trip(value: usize, rest: Seq<u8>) {
        L::lemma_shape();
        lemma_fixed_round_trip::<B>(value as nat, L::spec_bytes(), rest);
    }

    proof fn lemma_usize_read(source: Seq<u8>) {
        L::lemma_shape();
    }

    #[inline]
    fn check_holds(value: usize) -> (ok: bool) {
        L::from_usize(value).is_some()
    }

    #[inline]
    fn encode_usize<W: Writer>(writer: &mut W, value: usize) -> (r: Result<(), W::Error>) {
        match L::from_usize(value) {
            Some(length) => write_fixed::<W, L, B>(writer, length),
            None => Err(W::Error::message(Message::LengthOverflow)),
        }
    }

    #[inline]
    fn decode_usize<'de, R: Reader<'de>>(reader: &mut R) -> (r: Result<usize, R::Error>) {
        let length = read_fixed::<R, L, B>(reader)?;
        match length.to_usize() {
            Some(value) => Ok(value),
            None => Err(R::Error::message(Message::LengthOverflow)),
        }
    }
}

} // verus!
