//! How integers and lengths are written with a tag in front of them.

use crate::encoding::{Fixed, FixedLength, Variable};
use crate::integer::byteorder::ByteOrder;
use crate::error::{Cause, Error, Message, Outcome};
use crate::integer::{Signed, Unsigned};
use crate::reader::{advanced_at, PositionedReader};
use crate::storage::integer_encoding::{IntegerEncoding, UsizeEncoding};
use crate::wire::types::{TypeKind, TypeTag};
use crate::writer::{lemma_wrote_fail, lemma_wrote_then, wrote, Writer};
use vstd::prelude::*;

verus! {

broadcast use crate::reader::lemma_position_of;

/// The outcome that takes `n` bytes more.
pub open spec fn after<V>(outcome: Outcome<V>, n: nat) -> Outcome<V> {
    match outcome {
        Outcome::Value { value, len } => Outcome::Value { value, len: len + n },
        Outcome::Failure { message, len } => Outcome::Failure { message, len: len + n },
        Outcome::Underflow => Outcome::Underflow,
    }
}

/// Trait which governs how integers are written behind a tag.
pub trait TypedIntegerEncoding: IntegerEncoding {
    /// The tag that stands before an integer of `bytes` bytes.
    spec fn spec_tag(bytes: nat) -> TypeTag;

    /// Whether a tag announces an integer of `bytes` bytes.
    spec fn announces(tag: TypeTag, bytes: nat) -> bool;

    /// The kind of the tag that stands before an integer.
    spec fn spec_kind() -> TypeKind;

    /// The tag of an integer is well formed and announces the integer.
    proof fn lemma_tag(bytes: nat)
        requires
            1 <= bytes <= 16,
        ensures
            Self::spec_tag(bytes).wf(),
            Self::announces(Self::spec_tag(bytes), bytes),
    ;

    /// The tag that stands before an integer of `bytes` bytes.
    fn tag(bytes: usize) -> (tag: TypeTag)
        requires
            1 <= bytes <= 16,
        ensures
            tag == Self::spec_tag(bytes as nat),
    ;

    /// Whether a tag announces an integer of `bytes` bytes.
    fn check(tag: TypeTag, bytes: usize) -> (ok: bool)
        ensures
            ok == Self::announces(tag, bytes as nat),
    ;

    /// The kind of the tag that stands before an integer.
    fn kind() -> (kind: TypeKind)
        ensures
            kind == Self::spec_kind(),
    ;
}

/// Trait which governs how lengths are written behind a tag.
pub trait TypedUsizeEncoding: UsizeEncoding {
    /// The tag that stands before a length.
    spec fn spec_usize_tag() -> TypeTag;

    /// Whether a tag announces a length.
    spec fn announces_usize(tag: TypeTag) -> bool;

    /// The kind of the tag that stands before a length.
    spec fn spec_usize_kind() -> TypeKind;

    /// The tag of a length is well formed and announces the length.
    proof fn lemma_usize_tag()
        ensures
            Self::spec_usize_tag().wf(),
            Self::announces_usize(Self::spec_usize_tag()),
    ;

    /// The tag that stands before a length.
    fn usize_tag() -> (tag: TypeTag)
        ensures
            tag == Self::spec_usize_tag(),
    ;

    /// Whether a tag announces a length.
    fn check_usize(tag: TypeTag) -> (ok: bool)
        ensures
            ok == Self::announces_usize(tag),
    ;

    /// The kind of the tag that stands before a length.
    fn usize_kind() -> (kind: TypeKind)
        ensures
            kind == Self::spec_usize_kind(),
    ;
}

impl TypedIntegerEncoding for Variable {
    open spec fn spec_tag(bytes: nat) -> TypeTag {
        TypeTag { kind: TypeKind::Continuation, len: 0 }
    }

    open spec fn announces(tag: TypeTag, bytes: nat) -> bool {
        tag.kind == TypeKind::Continuation
    }

    open spec fn spec_kind() -> TypeKind {
        TypeKind::Continuation
    }

    proof fn lemma_tag(bytes: nat) {
    }

    #[inline]
    fn tag(bytes: usize) -> (tag: TypeTag) {
        TypeTag::new(TypeKind::Continuation, 0)
    }

    #[inline]
    fn check(tag: TypeTag, bytes: usize) -> (ok: bool) {
        tag.kind == TypeKind::Continuation
    }

    #[inline]
    fn kind() -> (kind: TypeKind) {
        TypeKind::Continuation
    }
}

impl TypedUsizeEncoding for Variable {
    open spec fn spec_usize_tag() -> TypeTag {
        TypeTag { kind: TypeKind::Continuation, len: 0 }
    }

    open spec fn announces_usize(tag: TypeTag) -> bool {
        tag.kind == TypeKind::Continuation
    }

    open spec fn spec_usize_kind() -> TypeKind {
        TypeKind::Continuation
    }

    proof fn lemma_usize_tag() {
    }

    #[inline]
    fn usize_tag() -> (tag: TypeTag) {
        TypeTag::new(TypeKind::Continuation, 0)
    }

    #[inline]
    fn check_usize(tag: TypeTag) -> (ok: bool) {
        tag.kind == TypeKind::Continuation
    }

    #[inline]
    fn usize_kind() -> (kind: TypeKind) {
        TypeKind::Continuation
    }
}

/// The bytes that an unsigned number is written as behind its tag.
pub open spec fn typed_unsigned_form<I: TypedIntegerEncoding>(value: nat, bytes: nat) -> Seq<u8> {
    seq![I::spec_tag(bytes).spec_byte()] + I::unsigned_form(value, bytes)
}

/// What reading a tagged unsigned number out of `source` comes to, where the
/// tag stands at the position `pos`.
pub open spec fn typed_unsigned_read<I: TypedIntegerEncoding>(
    source: Seq<u8>,
    pos: usize,
    max: nat,
    groups: nat,
    bytes: nat,
) -> Outcome<nat> {
    if source.len() == 0 {
        Outcome::Underflow
    } else if !I::announces(TypeTag::spec_from_byte(source[0]), bytes) {
        Outcome::Failure {
            message: Message::Expected {
                expected: I::spec_kind(),
                actual: TypeTag::spec_from_byte(source[0]),
                pos,
            },
            len: 1,
        }
    } else {
        after(I::unsigned_read(source.skip(1), max, groups, bytes), 1)
    }
}

/// The bytes that a length is written as behind its tag.
pub open spec fn typed_usize_form<L: TypedUsizeEncoding>(value: nat) -> Seq<u8> {
    seq![L::spec_usize_tag().spec_byte()] + L::usize_form(value)
}

/// What reading a tagged length out of `source` comes to, where the tag
/// stands at the position `pos`.
pub open spec fn typed_usize_read<L: TypedUsizeEncoding>(source: Seq<u8>, pos: usize) -> Outcome<
    nat,
> {
    if source.len() == 0 {
        Outcome::Underflow
    } else if !L::announces_usize(TypeTag::spec_from_byte(source[0])) {
        Outcome::Failure {
            message: Message::Expected {
                expected: L::spec_usize_kind(),
                actual: TypeTag::spec_from_byte(source[0]),
                pos,
            },
            len: 1,
        }
    } else {
        after(L::usize_read(source.skip(1)), 1)
    }
}

/// A tagged number that is written and read again is the number it was.
pub proof fn lemma_typed_unsigned_round_trip<I: TypedIntegerEncoding>(
    value: nat,
    rest: Seq<u8>,
    pos: usize,
    max: nat,
    groups: nat,
    bytes: nat,
)
    requires
        value <= max,
        groups >= 1,
        max < crate::integer::power(128, groups),
        max + 1 == crate::integer::power(256, bytes),
        1 <= bytes <= 16,
    ensures
        typed_unsigned_read::<I>(typed_unsigned_form::<I>(value, bytes) + rest, pos, max, groups, bytes)
            == (Outcome::Value { value, len: typed_unsigned_form::<I>(value, bytes).len() }),
{
    let form = typed_unsigned_form::<I>(value, bytes);
    I::lemma_tag(bytes);
    I::spec_tag(bytes).lemma_byte_round_trip();
    I::lemma_unsigned_round_trip(value, rest, max, groups, bytes);
    assert((form + rest).skip(1) =~= I::unsigned_form(value, bytes) + rest);
    assert((form + rest)[0] == I::spec_tag(bytes).spec_byte());
}

/// A tagged signed number that is written and read again is the number it
/// was: it is written as an unsigned number of its type, which is read
/// again and from which the number is had again.
pub proof fn lemma_typed_signed_round_trip<I: TypedIntegerEncoding>(
    value: int,
    rest: Seq<u8>,
    pos: usize,
    max: nat,
    groups: nat,
    bytes: nat,
)
    requires
        crate::integer::zigzag::encoded(value) <= max,
        groups >= 1,
        max < crate::integer::power(128, groups),
        max + 1 == crate::integer::power(256, bytes),
        1 <= bytes <= 16,
    ensures
        typed_unsigned_read::<I>(
            typed_unsigned_form::<I>(I::unsigned_of(value, max), bytes) + rest,
            pos,
            max,
            groups,
            bytes,
        ) == (Outcome::Value {
            value: I::unsigned_of(value, max),
            len: typed_unsigned_form::<I>(I::unsigned_of(value, max), bytes).len(),
        }),
        I::signed_of(I::unsigned_of(value, max), max) == value,
{
    I::lemma_signed_round_trip(value, max);
    lemma_typed_unsigned_round_trip::<I>(I::unsigned_of(value, max), rest, pos, max, groups, bytes);
}

/// A tagged length that is written and read again is the length it was.
pub proof fn lemma_typed_usize_round_trip<L: TypedUsizeEncoding>(
    value: usize,
    rest: Seq<u8>,
    pos: usize,
)
    requires
        L::holds(value as nat),
    ensures
        typed_usize_read::<L>(typed_usize_form::<L>(value as nat) + rest, pos) == (Outcome::Value {
            value: value as nat,
            len: typed_usize_form::<L>(value as nat).len(),
        }),
{
    let form = typed_usize_form::<L>(value as nat);
    L::lemma_usize_tag();
    L::spec_usize_tag().lemma_byte_round_trip();
    L::lemma_usize_round_trip(value, rest);
    assert((form + rest).skip(1) =~= L::usize_form(value as nat) + rest);
    assert((form + rest)[0] == L::spec_usize_tag().spec_byte());
}

/// Write an unsigned number behind its tag.
pub fn encode_typed_unsigned<W: Writer, I: TypedIntegerEncoding, T: Unsigned>(
    writer: &mut W,
    value: T,
) -> (r: Result<(), W::Error>)
    ensures
        wrote(
            *old(writer),
            *final(writer),
            r is Ok,
            typed_unsigned_form::<I>(value.value(), T::spec_bytes()),
        ),
{
    proof {
        T::lemma_shape();
        I::lemma_tag(T::spec_bytes());
    }
    let ghost form = I::unsigned_form(value.value(), T::spec_bytes());
    let tag = I::tag(T::bytes());
    match writer.write_byte(tag.byte()) {
        Ok(()) => {},
        Err(e) => {
            proof {
                lemma_wrote_fail(*old(writer), *writer, seq![tag.spec_byte()], form);
            }
            return Err(e);
        },
    }
    let ghost middle = *writer;
    let r = I::encode_unsigned(writer, value);
    proof {
        lemma_wrote_then(*old(writer), middle, *writer, seq![tag.spec_byte()], form, r is Ok);
    }
    r
}

/// Read an unsigned number and the tag before it.
pub fn decode_typed_unsigned<'de, R: PositionedReader<'de>, I: TypedIntegerEncoding, T: Unsigned>(
    reader: &mut R,
) -> (r: Result<T, R::Error>)
    ensures
        match typed_unsigned_read::<I>(
            old(reader).remaining(),
            old(reader).position(),
            T::max_value(),
            T::spec_groups(),
            T::spec_bytes(),
        ) {
            Outcome::Value { value, len } => (r matches Ok(v) && v.value() == value
                && advanced_at(*old(reader), *final(reader), len)),
            Outcome::Failure { message, len } => (r matches Err(e) && e.cause() == Cause::Message(
                    message,
                ) && advanced_at(*old(reader), *final(reader), len)),
            Outcome::Underflow => r is Err,
        },
        final(reader).remaining().len() <= old(reader).remaining().len(),
{
    let pos = reader.pos();
    let tag = TypeTag::from_byte(reader.read_byte()?);
    if !I::check(tag, T::bytes()) {
        return Err(
            R::Error::message(Message::Expected { expected: I::kind(), actual: tag, pos }),
        );
    }
    let ghost body = reader.remaining();
    let r = I::decode_unsigned::<R, T>(reader);
    proof {
        T::lemma_shape();
        I::lemma_unsigned_read(body, T::max_value(), T::spec_groups(), T::spec_bytes());
        if let Outcome::Value { value, len } = I::unsigned_read(
            body,
            T::max_value(),
            T::spec_groups(),
            T::spec_bytes(),
        ) {
            assert(body.skip(len as int) =~= old(reader).remaining().skip(len as int + 1));
        }
        if let Outcome::Failure { message, len } = I::unsigned_read(
            body,
            T::max_value(),
            T::spec_groups(),
            T::spec_bytes(),
        ) {
            assert(body.skip(len as int) =~= old(reader).remaining().skip(len as int + 1));
        }
    }
    r
}

/// Write a signed number behind its tag.
pub fn encode_typed_signed<W: Writer, I: TypedIntegerEncoding, T: Signed>(
    writer: &mut W,
    value: T,
) -> (r: Result<(), W::Error>)
    ensures
        wrote(
            *old(writer),
            *final(writer),
            r is Ok,
            typed_unsigned_form::<I>(
                I::unsigned_of(value.value(), T::Unsigned::max_value()),
                T::Unsigned::spec_bytes(),
            ),
        ),
{
    proof {
        T::Unsigned::lemma_shape();
        I::lemma_tag(T::Unsigned::spec_bytes());
    }
    let ghost form = I::unsigned_form(
        I::unsigned_of(value.value(), T::Unsigned::max_value()),
        T::Unsigned::spec_bytes(),
    );
    let tag = I::tag(T::Unsigned::bytes());
    match writer.write_byte(tag.byte()) {
        Ok(()) => {},
        Err(e) => {
            proof {
                lemma_wrote_fail(*old(writer), *writer, seq![tag.spec_byte()], form);
            }
            return Err(e);
        },
    }
    let ghost middle = *writer;
    let r = I::encode_signed(writer, value);
    proof {
        lemma_wrote_then(*old(writer), middle, *writer, seq![tag.spec_byte()], form, r is Ok);
    }
    r
}

/// Read a signed number and the tag before it.
pub fn decode_typed_signed<'de, R: PositionedReader<'de>, I: TypedIntegerEncoding, T: Signed>(
    reader: &mut R,
) -> (r: Result<T, R::Error>)
    ensures
        match typed_unsigned_read::<I>(
            old(reader).remaining(),
            old(reader).position(),
            T::Unsigned::max_value(),
            T::Unsigned::spec_groups(),
            T::Unsigned::spec_bytes(),
        ) {
            Outcome::Value { value, len } => (r matches Ok(v) && v.value() == I::signed_of(
                value,
                T::Unsigned::max_value(),
            ) && advanced_at(*old(reader), *final(reader), len)),
            Outcome::Failure { message, len } => (r matches Err(e) && e.cause() == Cause::Message(
                    message,
                ) && advanced_at(*old(reader), *final(reader), len)),
            Outcome::Underflow => r is Err,
        },
        final(reader).remaining().len() <= old(reader).remaining().len(),
{
    let pos = reader.pos();
    let tag = TypeTag::from_byte(reader.read_byte()?);
    if !I::check(tag, T::Unsigned::bytes()) {
        return Err(
            R::Error::message(Message::Expected { expected: I::kind(), actual: tag, pos }),
        );
    }
    let ghost body = reader.remaining();
    let r = I::decode_signed::<R, T>(reader);
    proof {
        T::Unsigned::lemma_shape();
        I::lemma_unsigned_read(
            body,
            T::Unsigned::max_value(),
            T::Unsigned::spec_groups(),
            T::Unsigned::spec_bytes(),
        );
        if let Outcome::Value { value, len } = I::unsigned_read(
            body,
            T::Unsigned::max_value(),
            T::Unsigned::spec_groups(),
            T::Unsigned::spec_bytes(),
        ) {
            assert(body.skip(len as int) =~= old(reader).remaining().skip(len as int + 1));
        }
        if let Outcome::Failure { message, len } = I::unsigned_read(
            body,
            T::Unsigned::max_value(),
            T::Unsigned::spec_groups(),
            T::Unsigned::spec_bytes(),
        ) {
            assert(body.skip(len as int) =~= old(reader).remaining().skip(len as int + 1));
        }
    }
    r
}

/// Write a length behind its tag.
pub fn encode_typed_usize<W: Writer, L: TypedUsizeEncoding>(writer: &mut W, value: usize) -> (r:
    Result<(), W::Error>)
    ensures
        L::holds(value as nat) ==> wrote(
            *old(writer),
            *final(writer),
            r is Ok,
            typed_usize_form::<L>(value as nat),
        ),
        !L::holds(value as nat) ==> (r matches Err(e) && e.cause() == Cause::Message(
            Message::LengthOverflow,
        ) && *final(writer) == *old(writer)),
{
    proof {
        L::lemma_usize_tag();
    }
    if !L::check_holds(value) {
        return Err(W::Error::message(Message::LengthOverflow));
    }
    let ghost form = L::usize_form(value as nat);
    let tag = L::usize_tag();
    match writer.write_byte(tag.byte()) {
        Ok(()) => {},
        Err(e) => {
            proof {
                lemma_wrote_fail(*old(writer), *writer, seq![tag.spec_byte()], form);
            }
            return Err(e);
        },
    }
    let ghost middle = *writer;
    let r = L::encode_usize(writer, value);
    proof {
        lemma_wrote_then(*old(writer), middle, *writer, seq![tag.spec_byte()], form, r is Ok);
    }
    r
}

/// Read a length and the tag before it.
pub fn decode_typed_usize<'de, R: PositionedReader<'de>, L: TypedUsizeEncoding>(
    reader: &mut R,
) -> (r: Result<usize, R::Error>)
    ensures
        match typed_usize_read::<L>(old(reader).remaining(), old(reader).position()) {
            Outcome::Value { value, len } => (r matches Ok(v) && v == value
                && advanced_at(*old(reader), *final(reader), len)),
            Outcome::Failure { message, len } => (r matches Err(e) && e.cause() == Cause::Message(
                    message,
                ) && advanced_at(*old(reader), *final(reader), len)),
            Outcome::Underflow => r is Err,
        },
        final(reader).remaining().len() <= old(reader).remaining().len(),
{
    let pos = reader.pos();
    let tag = TypeTag::from_byte(reader.read_byte()?);
    if !L::check_usize(tag) {
        return Err(
            R::Error::message(Message::Expected { expected: L::usize_kind(), actual: tag, pos }),
        );
    }
    let ghost body = reader.remaining();
    let r = L::decode_usize::<R>(reader);
    proof {
        L::lemma_usize_read(body);
        if let Outcome::Value { value, len } = L::usize_read(body) {
            assert(body.skip(len as int) =~= old(reader).remaining().skip(len as int + 1));
        }
        if let Outcome::Failure { message, len } = L::usize_read(body) {
            assert(body.skip(len as int) =~= old(reader).remaining().skip(len as int + 1));
        }
    }
    r
}

impl<B: ByteOrder> TypedIntegerEncoding for Fixed<B> {
    open spec fn spec_tag(bytes: nat) -> TypeTag {
        TypeTag { kind: TypeKind::Fixed, len: bytes as u8 }
    }

    open spec fn announces(tag: TypeTag, bytes: nat) -> bool {
        tag.kind == TypeKind::Fixed && tag.len as nat == bytes
    }

    open spec fn spec_kind() -> TypeKind {
        TypeKind::Fixed
    }

    proof fn lemma_tag(bytes: nat) {
    }

    #[inline]
    fn tag(bytes: usize) -> (tag: TypeTag) {
        TypeTag::new(TypeKind::Fixed, bytes as u8)
    }

    #[inline]
    fn check(tag: TypeTag, bytes: usize) -> (ok: bool) {
        tag.kind == TypeKind::Fixed && tag.len as usize == bytes
    }

    #[inline]
    fn kind() -> (kind: TypeKind) {
        TypeKind::Fixed
    }
}

impl<L: Unsigned, B: ByteOrder> TypedUsizeEncoding for FixedLength<L, B> {
    open spec fn spec_usize_tag() -> TypeTag {
        TypeTag { kind: TypeKind::Fixed, len: L::spec_bytes() as u8 }
    }

    open spec fn announces_usize(tag: TypeTag) -> bool {
        tag.kind == TypeKind::Fixed && tag.len as nat == L::spec_bytes()
    }

    open spec fn spec_usize_kind() -> TypeKind {
        TypeKind::Fixed
    }

    proof fn lemma_usize_tag() {
        L::lemma_shape();
    }

    #[inline]
    fn usize_tag() -> (tag: TypeTag) {
        proof {
            L::lemma_shape();
        }
        TypeTag::new(TypeKind::Fixed, L::bytes() as u8)
    }

    #[inline]
    fn check_usize(tag: TypeTag) -> (ok: bool) {
        proof {
            L::lemma_shape();
        }
        tag.kind == TypeKind::Fixed && tag.len as usize == L::bytes()
    }

    #[inline]
    fn usize_kind() -> (kind: TypeKind) {
        TypeKind::Fixed
    }
}

} // verus!
