//! The layout of the binary-tagged format, and what skipping a value of it
//! comes to.
//!
//! Every value starts with a tag. A tag of kind `Prefixed`, `Sequence`,
//! `PairSequence` or `Fixed` carries a length: in its five low bits where the
//! length is below 31, behind the tag otherwise.

use crate::error::{Message, Outcome};
use crate::integer::continuation;
use crate::integer::Unsigned;
use crate::storage::integer_encoding::{outcome_of, UsizeEncoding};
use crate::wire::integer_encoding::after;
use crate::wire::integer_encoding::{
    lemma_typed_unsigned_round_trip, typed_unsigned_form, typed_unsigned_read,
    TypedIntegerEncoding,
};
use crate::wire::types::{TypeKind, TypeTag, LEN_MASK};
use vstd::prelude::*;
use vstd::utf8::{decode_utf8, encode_utf8, encode_utf8_decode_utf8, encode_utf8_valid_utf8, is_scalar, valid_utf8};

verus! {

/// The tag of the given kind for a length, and the length behind it where
/// the tag does not hold it.
pub open spec fn header<L: UsizeEncoding>(kind: TypeKind, len: nat) -> Seq<u8> {
    if len < LEN_MASK {
        seq![(TypeTag { kind, len: len as u8 }).spec_byte()]
    } else {
        seq![(TypeTag { kind, len: LEN_MASK }).spec_byte()] + L::usize_form(len)
    }
}

/// What reading the length of a tag comes to, where `source` is what follows the tag.
pub open spec fn length_read<L: UsizeEncoding>(tag: TypeTag, source: Seq<u8>) -> Outcome<nat> {
    if tag.len != LEN_MASK {
        Outcome::Value { value: tag.len as nat, len: 0 }
    } else {
        L::usize_read(source)
    }
}

/// What reading a tag of the given kind and its length comes to, where the
/// tag stands at the position `pos`.
pub open spec fn header_read<L: UsizeEncoding>(source: Seq<u8>, kind: TypeKind, pos: usize)
    -> Outcome<nat> {
    if source.len() == 0 {
        Outcome::Underflow
    } else if TypeTag::spec_from_byte(source[0]).kind != kind {
        Outcome::Failure {
            message: Message::Expected {
                expected: kind,
                actual: TypeTag::spec_from_byte(source[0]),
                pos,
            },
            len: 1,
        }
    } else {
        after(length_read::<L>(TypeTag::spec_from_byte(source[0]), source.skip(1)), 1)
    }
}

/// What skipping `count` bytes of `source` comes to.
pub open spec fn bytes_read(source: Seq<u8>, count: nat) -> Outcome<()> {
    if count <= source.len() {
        Outcome::Value { value: (), len: count }
    } else {
        Outcome::Underflow
    }
}

/// What skipping one value of any kind comes to.
pub open spec fn skip_read<L: UsizeEncoding>(source: Seq<u8>) -> Outcome<()>
    decreases source.len(), 0nat,
{
    if source.len() == 0 {
        Outcome::Underflow
    } else {
        let tag = TypeTag::spec_from_byte(source[0]);
        let body = source.skip(1);
        match tag.kind {
            TypeKind::Mark => Outcome::Value { value: (), len: 1 },
            TypeKind::Byte => if tag.len == LEN_MASK {
                after(bytes_read(body, 1), 1)
            } else {
                Outcome::Value { value: (), len: 1 }
            },
            TypeKind::Continuation => after(
                match outcome_of(
                    continuation::decoded(
                        body,
                        <u128 as Unsigned>::max_value(),
                        <u128 as Unsigned>::spec_groups(),
                    ),
                    <u128 as Unsigned>::spec_groups(),
                ) {
                    Outcome::Value { value, len } => Outcome::Value { value: (), len },
                    Outcome::Failure { message, len } => Outcome::Failure { message, len },
                    Outcome::Underflow => Outcome::Underflow,
                },
                1,
            ),
            TypeKind::Fixed | TypeKind::Prefixed => match length_read::<L>(tag, body) {
                Outcome::Value { value, len } => if len <= body.len() {
                    after(bytes_read(body.skip(len as int), value), 1 + len)
                } else {
                    Outcome::Underflow
                },
                Outcome::Failure { message, len } => Outcome::Failure { message, len: 1 + len },
                Outcome::Underflow => Outcome::Underflow,
            },
            TypeKind::Sequence => match length_read::<L>(tag, body) {
                Outcome::Value { value, len } => if len <= body.len() {
                    after(skip_many::<L>(body.skip(len as int), value), 1 + len)
                } else {
                    Outcome::Underflow
                },
                Outcome::Failure { message, len } => Outcome::Failure { message, len: 1 + len },
                Outcome::Underflow => Outcome::Underflow,
            },
            TypeKind::PairSequence => match length_read::<L>(tag, body) {
                Outcome::Value { value, len } => if len <= body.len() {
                    after(skip_many::<L>(body.skip(len as int), 2 * value), 1 + len)
                } else {
                    Outcome::Underflow
                },
                Outcome::Failure { message, len } => Outcome::Failure { message, len: 1 + len },
                Outcome::Underflow => Outcome::Underflow,
            },
            TypeKind::Unknown => Outcome::Failure { message: Message::UnknownKind { tag }, len: 1 },
        }
    }
}

/// What skipping `count` values one after the other comes to.
pub open spec fn skip_many<L: UsizeEncoding>(source: Seq<u8>, count: nat) -> Outcome<()>
    decreases source.len(), count,
{
    if count == 0 {
        Outcome::Value { value: (), len: 0 }
    } else {
        match skip_read::<L>(source) {
            Outcome::Value { value, len } => if 1 <= len <= source.len() {
                after(skip_many::<L>(source.skip(len as int), (count - 1) as nat), len)
            } else {
                Outcome::Underflow
            },
            Outcome::Failure { message, len } => Outcome::Failure { message, len },
            Outcome::Underflow => Outcome::Underflow,
        }
    }
}

/// What is read as the length of a tag lies within the source.
pub proof fn lemma_length_read<L: UsizeEncoding>(tag: TypeTag, source: Seq<u8>)
    ensures
        length_read::<L>(tag, source) matches Outcome::Value { value, len } ==> value <= usize::MAX
            && len <= source.len(),
{
    L::lemma_usize_read(source);
}

/// What is skipped as one value is at least a tag and lies within the
/// source; what is skipped as several values lies within the source.
pub proof fn lemma_skip_len<L: UsizeEncoding>(source: Seq<u8>, count: nat)
    ensures
        skip_read::<L>(source) matches Outcome::Value { value, len } ==> 1 <= len <= source.len(),
        skip_many::<L>(source, count) matches Outcome::Value { value, len } ==> len
            <= source.len(),
    decreases source.len(), count + 1,
{
    if source.len() > 0 {
        let tag = TypeTag::spec_from_byte(source[0]);
        let body = source.skip(1);
        lemma_length_read::<L>(tag, body);
        continuation::lemma_run(body);
        if let Outcome::Value { value, len } = length_read::<L>(tag, body) {
            lemma_skip_len::<L>(body.skip(len as int), value);
            lemma_skip_len::<L>(body.skip(len as int), 2 * value);
        }
    }
    if count > 0 {
        if let Outcome::Value { value, len } = skip_read::<L>(source) {
            if 1 <= len <= source.len() {
                lemma_skip_len::<L>(source.skip(len as int), (count - 1) as nat);
            }
        }
    }
}

/// Skipping `a + b` values is skipping `a` values and then `b` more.
pub proof fn lemma_skip_many_adds<L: UsizeEncoding>(source: Seq<u8>, a: nat, b: nat)
    ensures
        skip_many::<L>(source, a + b) == match skip_many::<L>(source, a) {
            Outcome::Value { value, len } => after(
                skip_many::<L>(source.skip(len as int), b),
                len,
            ),
            Outcome::Failure { message, len } => Outcome::Failure { message, len },
            Outcome::Underflow => Outcome::Underflow,
        },
    decreases a,
{
    if a == 0 {
        assert(source.skip(0) =~= source);
        match skip_many::<L>(source, b) {
            Outcome::Value { value, len } => {},
            Outcome::Failure { message, len } => {},
            Outcome::Underflow => {},
        }
    } else {
        lemma_skip_len::<L>(source, 1);
        if let Outcome::Value { value, len } = skip_read::<L>(source) {
            let next = source.skip(len as int);
            lemma_skip_many_adds::<L>(next, (a - 1) as nat, b);
            lemma_skip_len::<L>(next, (a - 1) as nat);
            if let Outcome::Value { value: _, len: more } = skip_many::<L>(next, (a - 1) as nat) {
                assert(next.skip(more as int) =~= source.skip((len + more) as int));
                match skip_many::<L>(next.skip(more as int), b) {
                    Outcome::Value { value, len } => {},
                    Outcome::Failure { message, len } => {},
                    Outcome::Underflow => {},
                }
            }
        }
    }
}

/// The byte of the tag of the given kind and length.
pub open spec fn tag_byte(kind: TypeKind, len: u8) -> u8 {
    (TypeTag { kind, len }).spec_byte()
}

/// The bytes that a byte is written as: within the tag where it is below 31,
/// behind the tag otherwise.
pub open spec fn byte_form(value: u8) -> Seq<u8> {
    if value < LEN_MASK {
        seq![tag_byte(TypeKind::Byte, value)]
    } else {
        seq![tag_byte(TypeKind::Byte, LEN_MASK), value]
    }
}

/// What reading a byte comes to, where the tag stands at the position `pos`.
pub open spec fn byte_read(source: Seq<u8>, pos: usize) -> Outcome<u8> {
    if source.len() == 0 {
        Outcome::Underflow
    } else if TypeTag::spec_from_byte(source[0]).kind != TypeKind::Byte {
        Outcome::Failure {
            message: Message::Expected {
                expected: TypeKind::Byte,
                actual: TypeTag::spec_from_byte(source[0]),
                pos,
            },
            len: 1,
        }
    } else if TypeTag::spec_from_byte(source[0]).len != LEN_MASK {
        Outcome::Value { value: TypeTag::spec_from_byte(source[0]).len, len: 1 }
    } else if source.len() < 2 {
        Outcome::Underflow
    } else {
        Outcome::Value { value: source[1], len: 2 }
    }
}

/// The byte that a boolean is written as.
pub open spec fn bool_form(value: bool) -> Seq<u8> {
    seq![tag_byte(TypeKind::Byte, if value {
        1
    } else {
        0
    })]
}

/// What reading a boolean comes to, where the tag stands at the position `pos`.
pub open spec fn bool_read(source: Seq<u8>, pos: usize) -> Outcome<bool> {
    if source.len() == 0 {
        Outcome::Underflow
    } else if TypeTag::spec_from_byte(source[0]) == (TypeTag { kind: TypeKind::Byte, len: 0 }) {
        Outcome::Value { value: false, len: 1 }
    } else if TypeTag::spec_from_byte(source[0]) == (TypeTag { kind: TypeKind::Byte, len: 1 }) {
        Outcome::Value { value: true, len: 1 }
    } else {
        Outcome::Failure {
            message: Message::BadBoolean { actual: TypeTag::spec_from_byte(source[0]), pos },
            len: 1,
        }
    }
}

/// The byte that stands before an optional value: a marker that holds 1
/// where the value is present, and 0 where it is absent.
pub open spec fn option_form(present: bool) -> Seq<u8> {
    seq![tag_byte(TypeKind::Mark, if present {
        1
    } else {
        0
    })]
}

/// What reading the marker of an optional value comes to, where the marker
/// stands at the position `pos`: whether the value is present.
pub open spec fn option_read(source: Seq<u8>, pos: usize) -> Outcome<bool> {
    if source.len() == 0 {
        Outcome::Underflow
    } else if TypeTag::spec_from_byte(source[0]) == (TypeTag { kind: TypeKind::Mark, len: 0 }) {
        Outcome::Value { value: false, len: 1 }
    } else if TypeTag::spec_from_byte(source[0]) == (TypeTag { kind: TypeKind::Mark, len: 1 }) {
        Outcome::Value { value: true, len: 1 }
    } else {
        Outcome::Failure {
            message: Message::ExpectedOption { tag: TypeTag::spec_from_byte(source[0]), pos },
            len: 1,
        }
    }
}

/// The byte that stands before the tag and the payload of a variant: the
/// tag of a sequence of one pair.
pub open spec fn variant_form() -> Seq<u8> {
    seq![tag_byte(TypeKind::PairSequence, 1)]
}

/// What reading the tag of a variant comes to, where the tag stands at the
/// position `pos`.
pub open spec fn variant_read(source: Seq<u8>, pos: usize) -> Outcome<()> {
    if source.len() == 0 {
        Outcome::Underflow
    } else if TypeTag::spec_from_byte(source[0]) == (TypeTag {
        kind: TypeKind::PairSequence,
        len: 1,
    }) {
        Outcome::Value { value: (), len: 1 }
    } else {
        Outcome::Failure {
            message: Message::Expected {
                expected: TypeKind::PairSequence,
                actual: TypeTag::spec_from_byte(source[0]),
                pos,
            },
            len: 1,
        }
    }
}

/// The bytes that a sequence of bytes is written as: its length and the bytes.
pub open spec fn prefixed_form<L: UsizeEncoding>(bytes: Seq<u8>) -> Seq<u8> {
    header::<L>(TypeKind::Prefixed, bytes.len()) + bytes
}

/// What reading a sequence of bytes comes to, where the tag stands at the
/// position `pos`.
pub open spec fn prefixed_read<L: UsizeEncoding>(source: Seq<u8>, pos: usize) -> Outcome<
    Seq<u8>,
> {
    match header_read::<L>(source, TypeKind::Prefixed, pos) {
        Outcome::Value { value, len } => if len + value <= source.len() {
            Outcome::Value {
                value: source.subrange(len as int, (len + value) as int),
                len: len + value,
            }
        } else {
            Outcome::Underflow
        },
        Outcome::Failure { message, len } => Outcome::Failure { message, len },
        Outcome::Underflow => Outcome::Underflow,
    }
}

/// What reading an array of `n` bytes comes to, where the tag stands at the
/// position `pos`.
pub open spec fn array_read<L: UsizeEncoding>(source: Seq<u8>, pos: usize, n: usize) -> Outcome<
    Seq<u8>,
> {
    match header_read::<L>(source, TypeKind::Prefixed, pos) {
        Outcome::Value { value, len } => if value != n {
            Outcome::Failure {
                message: Message::BadLength { actual_len: value as usize, expected_len: n, pos },
                len: len,
            }
        } else if len + value <= source.len() {
            Outcome::Value {
                value: source.subrange(len as int, (len + value) as int),
                len: len + value,
            }
        } else {
            Outcome::Underflow
        },
        Outcome::Failure { message, len } => Outcome::Failure { message, len },
        Outcome::Underflow => Outcome::Underflow,
    }
}

/// What reading a string comes to, where the tag stands at the position
/// `pos`: the bytes of the string.
pub open spec fn string_read<L: UsizeEncoding>(source: Seq<u8>, pos: usize) -> Outcome<Seq<u8>> {
    match prefixed_read::<L>(source, pos) {
        Outcome::Value { value, len } => if valid_utf8(value) {
            Outcome::Value { value, len }
        } else {
            Outcome::Failure { message: Message::InvalidUtf8, len }
        },
        Outcome::Failure { message, len } => Outcome::Failure { message, len },
        Outcome::Underflow => Outcome::Underflow,
    }
}

/// What reading a character comes to, where the tag stands at the position `pos`.
pub open spec fn char_read<I: TypedIntegerEncoding>(source: Seq<u8>, pos: usize) -> Outcome<char> {
    match typed_unsigned_read::<I>(
        source,
        pos,
        <u32 as Unsigned>::max_value(),
        <u32 as Unsigned>::spec_groups(),
        <u32 as Unsigned>::spec_bytes(),
    ) {
        Outcome::Value { value, len } => if is_scalar(value as u32) {
            Outcome::Value { value: (value as u32) as char, len }
        } else {
            Outcome::Failure { message: Message::BadCharacter(value as u32), len }
        },
        Outcome::Failure { message, len } => Outcome::Failure { message, len },
        Outcome::Underflow => Outcome::Underflow,
    }
}

/// The header of a length that is written and read again gives the length,
/// and what follows it is left unread.
pub proof fn lemma_header_round_trip<L: UsizeEncoding>(
    kind: TypeKind,
    len: usize,
    rest: Seq<u8>,
    pos: usize,
)
    requires
        len < LEN_MASK || L::holds(len as nat),
    ensures
        header_read::<L>(header::<L>(kind, len as nat) + rest, kind, pos) == (Outcome::Value {
            value: len as nat,
            len: header::<L>(kind, len as nat).len(),
        }),
        header::<L>(kind, len as nat).len() >= 1,
{
    let form = header::<L>(kind, len as nat);
    let all = form + rest;
    if len < LEN_MASK {
        (TypeTag { kind, len: len as u8 }).lemma_byte_round_trip();
        assert(all[0] == form[0]);
    } else {
        (TypeTag { kind, len: LEN_MASK }).lemma_byte_round_trip();
        assert(all[0] == form[0]);
        assert(all.skip(1) =~= L::usize_form(len as nat) + rest);
        L::lemma_usize_round_trip(len, rest);
    }
}

/// A byte that is written and read again is the byte it was.
pub proof fn lemma_byte_round_trip(value: u8, rest: Seq<u8>, pos: usize)
    ensures
        byte_read(byte_form(value) + rest, pos) == (Outcome::Value {
            value,
            len: byte_form(value).len(),
        }),
{
    let all = byte_form(value) + rest;
    if value < LEN_MASK {
        (TypeTag { kind: TypeKind::Byte, len: value }).lemma_byte_round_trip();
        assert(all[0] == byte_form(value)[0]);
    } else {
        (TypeTag { kind: TypeKind::Byte, len: LEN_MASK }).lemma_byte_round_trip();
        assert(all[0] == byte_form(value)[0]);
        assert(all[1] == byte_form(value)[1]);
    }
}

/// A boolean that is written and read again is the boolean it was.
pub proof fn lemma_bool_round_trip(value: bool, rest: Seq<u8>, pos: usize)
    ensures
        bool_read(bool_form(value) + rest, pos) == (Outcome::Value { value, len: 1 }),
{
    let all = bool_form(value) + rest;
    assert(all[0] == bool_form(value)[0]);
    (TypeTag { kind: TypeKind::Byte, len: 0 }).lemma_byte_round_trip();
    (TypeTag { kind: TypeKind::Byte, len: 1 }).lemma_byte_round_trip();
}

/// The marker of an optional value that is written and read again says what it said.
pub proof fn lemma_option_round_trip(present: bool, rest: Seq<u8>, pos: usize)
    ensures
        option_read(option_form(present) + rest, pos) == (Outcome::Value {
            value: present,
            len: 1,
        }),
{
    let all = option_form(present) + rest;
    assert(all[0] == option_form(present)[0]);
    (TypeTag { kind: TypeKind::Mark, len: 0 }).lemma_byte_round_trip();
    (TypeTag { kind: TypeKind::Mark, len: 1 }).lemma_byte_round_trip();
}

/// The tag of a variant that is written is read as the tag of a variant.
pub proof fn lemma_variant_round_trip(rest: Seq<u8>, pos: usize)
    ensures
        variant_read(variant_form() + rest, pos) == (Outcome::Value { value: (), len: 1 }),
{
    let all = variant_form() + rest;
    assert(all[0] == variant_form()[0]);
    (TypeTag { kind: TypeKind::PairSequence, len: 1 }).lemma_byte_round_trip();
}

/// Bytes that are written and read again are the bytes they were, and what
/// is decoded out of the bytes of a string is a string.
pub proof fn lemma_prefixed_round_trip<L: UsizeEncoding>(
    bytes: Seq<u8>,
    rest: Seq<u8>,
    pos: usize,
)
    requires
        bytes.len() <= usize::MAX,
        L::holds(bytes.len()),
    ensures
        prefixed_read::<L>(prefixed_form::<L>(bytes) + rest, pos) == (Outcome::Value {
            value: bytes,
            len: prefixed_form::<L>(bytes).len(),
        }),
        array_read::<L>(prefixed_form::<L>(bytes) + rest, pos, bytes.len() as usize)
            == (Outcome::Value { value: bytes, len: prefixed_form::<L>(bytes).len() }),
        valid_utf8(bytes) ==> string_read::<L>(prefixed_form::<L>(bytes) + rest, pos)
            == (Outcome::Value { value: bytes, len: prefixed_form::<L>(bytes).len() }),
{
    let head = header::<L>(TypeKind::Prefixed, bytes.len());
    let all = prefixed_form::<L>(bytes) + rest;
    assert(all =~= head + (bytes + rest));
    lemma_header_round_trip::<L>(TypeKind::Prefixed, bytes.len() as usize, bytes + rest, pos);
    assert(all.subrange(head.len() as int, (head.len() + bytes.len()) as int) =~= bytes);
}

/// A character that is written and read again is the character it was.
pub proof fn lemma_char_round_trip<I: TypedIntegerEncoding>(
    value: char,
    rest: Seq<u8>,
    pos: usize,
)
    ensures
        char_read::<I>(
            typed_unsigned_form::<I>((value as u32) as nat, <u32 as Unsigned>::spec_bytes())
                + rest,
            pos,
        ) == (Outcome::Value {
            value,
            len: typed_unsigned_form::<I>(
                (value as u32) as nat,
                <u32 as Unsigned>::spec_bytes(),
            ).len(),
        }),
{
    <u32 as Unsigned>::lemma_shape();
    lemma_typed_unsigned_round_trip::<I>(
        (value as u32) as nat,
        rest,
        pos,
        <u32 as Unsigned>::max_value(),
        <u32 as Unsigned>::spec_groups(),
        <u32 as Unsigned>::spec_bytes(),
    );
    vstd::utf8::char_is_scalar(value);
    vstd::utf8::char_u32_cast(value, value as u32);
}

/// A string that is written and read again is the string it was: the bytes
/// that are read are those of the string in UTF-8, and the characters that
/// they hold are those of the string.
pub proof fn lemma_string_round_trip<L: UsizeEncoding>(text: Seq<char>, rest: Seq<u8>, pos: usize)
    requires
        encode_utf8(text).len() <= usize::MAX,
        L::holds(encode_utf8(text).len()),
    ensures
        string_read::<L>(prefixed_form::<L>(encode_utf8(text)) + rest, pos) == (Outcome::Value {
            value: encode_utf8(text),
            len: prefixed_form::<L>(encode_utf8(text)).len(),
        }),
        decode_utf8(encode_utf8(text)) == text,
{
    encode_utf8_valid_utf8(text);
    encode_utf8_decode_utf8(text);
    lemma_prefixed_round_trip::<L>(encode_utf8(text), rest, pos);
}

} // verus!
