//! Encoding values as a JSON text.
//!
//! Numbers are written in decimal, without leading zeros. Strings stand
//! between quotes; a quote, a backslash, a slash and the bytes below 0x20 are
//! escaped. The values of an array and the pairs of an object are separated
//! by commas. The keys of an object are strings; a number that is a key is
//! written between quotes.

use crate::integer::{Signed, Unsigned};
use crate::json::de::{FALSE, NULL, TRUE};
use crate::json::reader::integer::{
    accumulate, digits, fraction, lemma_digits, signed_parsed, spec_is_digit, unsigned_parsed,
};
use crate::json::reader::string::{escape, hex4, prepend, scan_string, spec_hex, Scan};
use crate::json::reader::{
    Parsed, BACKSLASH, CLOSE_BRACE, CLOSE_BRACKET, COLON, COMMA, LOWER_E, MINUS, OPEN_BRACE,
    OPEN_BRACKET, POINT, QUOTE, SLASH, UPPER_E, ZERO,
};
use crate::writer::{fits, wrote, Writer};
use vstd::utf8::encode_scalar;
use vstd::prelude::*;
use vstd::string::StringSliceAdditionalSpecFns;

verus! {

/// The digits that a number is written as in decimal.
pub open spec fn decimal_form(value: nat) -> Seq<u8>
    decreases value,
{
    if value < 10 {
        seq![(ZERO + value) as u8]
    } else {
        decimal_form(value / 10).push((ZERO + value % 10) as u8)
    }
}

/// The bytes that a signed number is written as in decimal.
pub open spec fn signed_form(value: int) -> Seq<u8> {
    if value < 0 {
        seq![MINUS] + decimal_form((-value) as nat)
    } else {
        decimal_form(value as nat)
    }
}

/// The digits of a number are digits, the first of them is no zero unless
/// the number is zero, and they stand for the number, whatever follows them.
pub proof fn lemma_decimal_form(value: nat, rest: Seq<u8>)
    ensures
        decimal_form(value).len() >= 1,
        forall|i: int|
            0 <= i < decimal_form(value).len() ==> spec_is_digit(#[trigger] decimal_form(value)[i]),
        value > 0 ==> decimal_form(value)[0] != ZERO,
        value == 0 ==> decimal_form(value) == seq![ZERO],
        accumulate(0, decimal_form(value) + rest, decimal_form(value).len()) == value,
    decreases value,
{
    let form = decimal_form(value);
    if value < 10 {
        assert((form + rest)[0] == form[0]);
        assert(accumulate(0, form + rest, 1) == 10 * accumulate(0, form + rest, 0) + ((form
            + rest)[0] - ZERO) as nat);
    } else {
        let front = decimal_form(value / 10);
        let last = (ZERO + value % 10) as u8;
        lemma_decimal_form(value / 10, seq![last] + rest);
        assert(form + rest =~= front + (seq![last] + rest));
        assert((form + rest)[front.len() as int] == last);
        assert(form[0] == front[0]);
        assert forall|i: int| 0 <= i < form.len() implies spec_is_digit(#[trigger] form[i]) by {
            if i < front.len() {
                assert(form[i] == front[i]);
            }
        }
    }
}

/// A number that is written in decimal and read again is the number it was,
/// where what follows it does not go on with the number.
pub proof fn lemma_decimal_round_trip(value: nat, rest: Seq<u8>, index: usize, max: nat)
    requires
        value <= max,
        rest.len() == 0 || !(spec_is_digit(rest[0]) || rest[0] == POINT || rest[0] == LOWER_E
            || rest[0] == UPPER_E),
    ensures
        unsigned_parsed(decimal_form(value) + rest, index, max) == (Parsed {
            result: Ok(value),
            len: decimal_form(value).len(),
        }),
{
    let form = decimal_form(value);
    let all = form + rest;
    lemma_decimal_form(value, rest);
    assert forall|i: int| 0 <= i < form.len() implies spec_is_digit(#[trigger] all[i]) by {
        assert(all[i] == form[i]);
    }
    if rest.len() > 0 {
        assert(all[form.len() as int] == rest[0]);
    }
    lemma_digits(all, form.len());
    assert(all[0] == form[0]);
    let int_len: nat = if all[0] == ZERO {
        1
    } else {
        digits(all)
    };
    assert(int_len == form.len());
    let behind = all.skip(int_len as int);
    assert(behind =~= rest);
    assert(fraction(behind) == Ok::<_, nat>(
        crate::json::reader::integer::Fraction { len: 0, value: 0, exp: 0 },
    ));
    assert(all.skip((int_len + 0) as int) =~= rest);
}

/// A signed number that is written in decimal and read again is the number
/// it was, where what follows it does not go on with the number.
pub proof fn lemma_signed_round_trip(value: int, rest: Seq<u8>, index: usize, max: nat)
    requires
        crate::integer::zigzag::encoded(value) <= max,
        rest.len() == 0 || !(spec_is_digit(rest[0]) || rest[0] == POINT || rest[0] == LOWER_E
            || rest[0] == UPPER_E),
    ensures
        signed_parsed(signed_form(value) + rest, index, max) == (Parsed {
            result: Ok(value),
            len: signed_form(value).len(),
        }),
{
    let form = signed_form(value);
    let all = form + rest;
    let magnitude: nat = if value < 0 {
        (-value) as nat
    } else {
        value as nat
    };
    lemma_decimal_form(magnitude, rest);
    assert(all[0] == form[0]);
    if value < 0 {
        assert(all.skip(1) =~= decimal_form(magnitude) + rest);
    } else {
        assert(all.skip(0) =~= all);
    }
    lemma_decimal_round_trip(magnitude, rest, index, max);
}

/// Append the digits of a number to the buffer.
pub fn push_decimal<T: Unsigned>(buffer: &mut Vec<u8>, value: T)
    ensures
        final(buffer)@ == old(buffer)@ + decimal_form(value.value()),
    decreases value.value(),
{
    let front = value.drop_digit();
    let digit = value.low_digit();
    if front.is_zero() {
        buffer.push(ZERO + digit);
        assert(buffer@ =~= old(buffer)@ + decimal_form(value.value()));
    } else {
        push_decimal(buffer, front);
        buffer.push(ZERO + digit);
        assert(buffer@ =~= old(buffer)@ + decimal_form(value.value()));
    }
}

/// Write an unsigned number in decimal.
pub fn encode_unsigned<W: Writer, T: Unsigned>(writer: &mut W, value: T) -> (r: Result<
    (),
    W::Error,
>)
    ensures
        wrote(*old(writer), *final(writer), r is Ok, decimal_form(value.value())),
{
    let mut buffer = Vec::new();
    push_decimal(&mut buffer, value);
    assert(buffer@ =~= decimal_form(value.value()));
    writer.write_bytes(buffer.as_slice())
}

/// Append a signed number in decimal to the buffer.
pub fn push_signed<T: Signed>(buffer: &mut Vec<u8>, value: T)
    ensures
        final(buffer)@ == old(buffer)@ + signed_form(value.value()),
{
    match value.negate() {
        Some(magnitude) => {
            if !magnitude.is_zero() {
                buffer.push(MINUS);
            }
            push_decimal(buffer, magnitude);
        },
        None => {
            push_decimal(buffer, value.unsigned());
        },
    }
    assert(buffer@ =~= old(buffer)@ + signed_form(value.value()));
}

/// Write a signed number in decimal.
pub fn encode_signed<W: Writer, T: Signed>(writer: &mut W, value: T) -> (r: Result<(), W::Error>)
    ensures
        wrote(*old(writer), *final(writer), r is Ok, signed_form(value.value())),
{
    let mut buffer = Vec::new();
    push_signed(&mut buffer, value);
    assert(buffer@ =~= signed_form(value.value()));
    writer.write_bytes(buffer.as_slice())
}

/// The character of a hexadecimal digit.
pub open spec fn hex_char(digit: u8) -> u8 {
    if digit < 10 {
        (0x30 + digit) as u8
    } else {
        (0x61 + digit - 10) as u8
    }
}

/// The bytes that a byte of a string is written as.
pub open spec fn escape_form(b: u8) -> Seq<u8> {
    if b == QUOTE || b == BACKSLASH || b == SLASH {
        seq![BACKSLASH, b]
    } else if b == 0x08 {
        seq![BACKSLASH, 0x62u8]
    } else if b == 0x0c {
        seq![BACKSLASH, 0x66u8]
    } else if b == 0x0a {
        seq![BACKSLASH, 0x6eu8]
    } else if b == 0x0d {
        seq![BACKSLASH, 0x72u8]
    } else if b == 0x09 {
        seq![BACKSLASH, 0x74u8]
    } else if b < 0x20 {
        seq![BACKSLASH, 0x75u8, 0x30u8, 0x30u8, hex_char(b / 16), hex_char(b % 16)]
    } else {
        seq![b]
    }
}

/// The bytes that the bytes of a string are written as between the quotes.
pub open spec fn escaped(bytes: Seq<u8>) -> Seq<u8>
    decreases bytes.len(),
{
    if bytes.len() == 0 {
        Seq::empty()
    } else {
        escape_form(bytes[0]) + escaped(bytes.skip(1))
    }
}

/// The bytes that a string is written as.
pub open spec fn string_form(bytes: Seq<u8>) -> Seq<u8> {
    seq![QUOTE] + escaped(bytes) + seq![QUOTE]
}

/// What bytes are written as is what their first ones are written as,
/// followed by what the last one is written as.
pub proof fn lemma_escaped_push(bytes: Seq<u8>, b: u8)
    ensures
        escaped(bytes.push(b)) == escaped(bytes) + escape_form(b),
    decreases bytes.len(),
{
    if bytes.len() == 0 {
        assert(bytes.push(b).skip(1) =~= Seq::<u8>::empty());
        assert(escaped(Seq::<u8>::empty()) =~= Seq::<u8>::empty());
        assert(bytes.push(b)[0] == b);
        assert(escaped(bytes.push(b)) =~= escape_form(b) + Seq::<u8>::empty());
        assert(Seq::<u8>::empty() + escape_form(b) =~= escape_form(b));
    } else {
        lemma_escaped_push(bytes.skip(1), b);
        assert(bytes.push(b).skip(1) =~= bytes.skip(1).push(b));
        assert(escape_form(bytes[0]) + (escaped(bytes.skip(1)) + escape_form(b)) =~= (escape_form(
            bytes[0],
        ) + escaped(bytes.skip(1))) + escape_form(b));
    }
}

/// A byte that is written as an escape, or as itself, is read as the byte it
/// was, and the string goes on behind it.
proof fn lemma_escape_round_trip(b: u8, rest: Seq<u8>)
    ensures
        scan_string(escape_form(b) + rest) == prepend(
            seq![b],
            escape_form(b).len(),
            b == QUOTE || b == BACKSLASH || b == SLASH || b < 0x20,
            scan_string(rest),
        ),
{
    let form = escape_form(b);
    let all = form + rest;
    assert(all[0] == form[0]);
    if form.len() == 1 {
        assert(all.skip(1) =~= rest);
    } else if form.len() == 2 {
        assert(all[1] == form[1]);
        assert(all.skip(1)[0] == form[1]);
        assert(all.skip(2) =~= rest);
    } else {
        let s = all.skip(1);
        assert(s[0] == form[1]);
        let digits = s.skip(1);
        assert(digits[0] == form[2] && digits[1] == form[3] && digits[2] == form[4] && digits[3]
            == form[5]);
        assert(spec_hex(hex_char(b / 16)) == b / 16);
        assert(spec_hex(hex_char(b % 16)) == b % 16);
        assert(hex4(digits) == b);
        let scalar = b as u32;
        assert((scalar & 0x7f) as u8 == b) by (bit_vector)
            requires
                scalar == b as u32,
                b < 0x20,
        ;
        assert(encode_scalar(scalar) =~= seq![b]);
        assert(all.skip(6) =~= rest);
    }
}

/// The bytes of a string that are written and read again are the bytes they
/// were, and what follows the closing quote is left unread.
pub proof fn lemma_string_round_trip(bytes: Seq<u8>, rest: Seq<u8>)
    ensures
        scan_string(escaped(bytes) + seq![QUOTE] + rest) matches Scan::Text {
            bytes: read,
            len,
            escaped: _,
        } && read == bytes && len == escaped(bytes).len() + 1,
    decreases bytes.len(),
{
    let all = escaped(bytes) + seq![QUOTE] + rest;
    if bytes.len() == 0 {
        assert(all[0] == QUOTE);
    } else {
        let tail = escaped(bytes.skip(1)) + seq![QUOTE] + rest;
        lemma_string_round_trip(bytes.skip(1), rest);
        lemma_escape_round_trip(bytes[0], tail);
        assert(all =~= escape_form(bytes[0]) + tail);
        assert(seq![bytes[0]] + bytes.skip(1) =~= bytes);
    }
}

/// Append to the buffer what a byte of a string is written as.
pub fn push_escaped(buffer: &mut Vec<u8>, b: u8)
    ensures
        final(buffer)@ == old(buffer)@ + escape_form(b),
{
    if b == QUOTE || b == BACKSLASH || b == SLASH {
        buffer.push(BACKSLASH);
        buffer.push(b);
    } else if b == 0x08 {
        buffer.push(BACKSLASH);
        buffer.push(0x62);
    } else if b == 0x0c {
        buffer.push(BACKSLASH);
        buffer.push(0x66);
    } else if b == 0x0a {
        buffer.push(BACKSLASH);
        buffer.push(0x6e);
    } else if b == 0x0d {
        buffer.push(BACKSLASH);
        buffer.push(0x72);
    } else if b == 0x09 {
        buffer.push(BACKSLASH);
        buffer.push(0x74);
    } else if b < 0x20 {
        buffer.push(BACKSLASH);
        buffer.push(0x75);
        buffer.push(0x30);
        buffer.push(0x30);
        let high = b / 16;
        let low = b % 16;
        buffer.push(if high < 10 {
            0x30 + high
        } else {
            0x61 + high - 10
        });
        buffer.push(if low < 10 {
            0x30 + low
        } else {
            0x61 + low - 10
        });
    } else {
        buffer.push(b);
    }
    assert(buffer@ =~= old(buffer)@ + escape_form(b));
}

/// Append to the buffer what a string of the given bytes is written as.
pub fn push_string(buffer: &mut Vec<u8>, bytes: &[u8])
    ensures
        final(buffer)@ == old(buffer)@ + string_form(bytes@),
{
    buffer.push(QUOTE);
    let mut i: usize = 0;
    proof {
        assert(bytes@.take(0) =~= Seq::<u8>::empty());
        assert(buffer@ =~= old(buffer)@ + seq![QUOTE] + escaped(bytes@.take(0)));
    }
    while i < bytes.len()
        invariant
            i <= bytes@.len(),
            buffer@ == old(buffer)@ + seq![QUOTE] + escaped(bytes@.take(i as int)),
        decreases bytes@.len() - i,
    {
        let ghost before = buffer@;
        push_escaped(buffer, bytes[i]);
        proof {
            lemma_escaped_push(bytes@.take(i as int), bytes@[i as int]);
            assert(bytes@.take(i + 1) =~= bytes@.take(i as int).push(bytes@[i as int]));
            assert(buffer@ =~= old(buffer)@ + seq![QUOTE] + escaped(bytes@.take(i + 1)));
        }
        i = i + 1;
    }
    buffer.push(QUOTE);
    proof {
        assert(bytes@.take(bytes@.len() as int) =~= bytes@);
        assert(buffer@ =~= old(buffer)@ + string_form(bytes@));
    }
}

/// Write a string of the given bytes.
pub fn encode_text<W: Writer>(writer: &mut W, bytes: &[u8]) -> (r: Result<(), W::Error>)
    ensures
        wrote(*old(writer), *final(writer), r is Ok, string_form(bytes@)),
{
    let mut buffer = Vec::new();
    push_string(&mut buffer, bytes);
    assert(buffer@ =~= string_form(bytes@));
    writer.write_bytes(buffer.as_slice())
}

/// The bytes that a number is written as where it is a key: its digits
/// between quotes.
pub open spec fn key_form(number: Seq<u8>) -> Seq<u8> {
    seq![QUOTE] + number + seq![QUOTE]
}

/// Write an unsigned number as a key.
pub fn encode_unsigned_key<W: Writer, T: Unsigned>(writer: &mut W, value: T) -> (r: Result<
    (),
    W::Error,
>)
    ensures
        wrote(*old(writer), *final(writer), r is Ok, key_form(decimal_form(value.value()))),
{
    let mut buffer = Vec::new();
    buffer.push(QUOTE);
    push_decimal(&mut buffer, value);
    buffer.push(QUOTE);
    assert(buffer@ =~= key_form(decimal_form(value.value())));
    writer.write_bytes(buffer.as_slice())
}

/// Write a signed number as a key.
pub fn encode_signed_key<W: Writer, T: Signed>(writer: &mut W, value: T) -> (r: Result<
    (),
    W::Error,
>)
    ensures
        wrote(*old(writer), *final(writer), r is Ok, key_form(signed_form(value.value()))),
{
    let mut buffer = Vec::new();
    buffer.push(QUOTE);
    push_signed(&mut buffer, value);
    buffer.push(QUOTE);
    assert(buffer@ =~= key_form(signed_form(value.value())));
    writer.write_bytes(buffer.as_slice())
}

/// The bytes that bytes are written as: an array of numbers.
pub open spec fn bytes_form(bytes: Seq<u8>, n: nat) -> Seq<u8>
    decreases n,
{
    if n == 0 || n > bytes.len() {
        Seq::empty()
    } else if n == 1 {
        decimal_form(bytes[0] as nat)
    } else {
        bytes_form(bytes, (n - 1) as nat) + seq![COMMA] + decimal_form(bytes[n - 1] as nat)
    }
}

/// Append bytes as an array of numbers to the buffer.
pub fn push_byte_array(buffer: &mut Vec<u8>, bytes: &[u8])
    ensures
        final(buffer)@ == old(buffer)@ + seq![OPEN_BRACKET] + bytes_form(bytes@, bytes@.len())
            + seq![CLOSE_BRACKET],
{
    buffer.push(OPEN_BRACKET);
    let mut i: usize = 0;
    assert(buffer@ =~= old(buffer)@ + seq![OPEN_BRACKET] + bytes_form(bytes@, 0));
    while i < bytes.len()
        invariant
            i <= bytes@.len(),
            buffer@ == old(buffer)@ + seq![OPEN_BRACKET] + bytes_form(bytes@, i as nat),
        decreases bytes@.len() - i,
    {
        if i > 0 {
            buffer.push(COMMA);
        }
        push_decimal(buffer, bytes[i]);
        proof {
            assert(buffer@ =~= old(buffer)@ + seq![OPEN_BRACKET] + bytes_form(
                bytes@,
                (i + 1) as nat,
            ));
        }
        i = i + 1;
    }
    buffer.push(CLOSE_BRACKET);
}

/// Write bytes as an array of numbers.
pub fn encode_byte_array<W: Writer>(writer: &mut W, bytes: &[u8]) -> (r: Result<(), W::Error>)
    ensures
        wrote(
            *old(writer),
            *final(writer),
            r is Ok,
            seq![OPEN_BRACKET] + bytes_form(bytes@, bytes@.len()) + seq![CLOSE_BRACKET],
        ),
{
    let mut buffer = Vec::new();
    push_byte_array(&mut buffer, bytes);
    assert(buffer@ =~= seq![OPEN_BRACKET] + bytes_form(bytes@, bytes@.len()) + seq![
        CLOSE_BRACKET,
    ]);
    writer.write_bytes(buffer.as_slice())
}

// ---- encoders ----
/// What stands between two values of an array, or two pairs of an object:
/// nothing before the first one, a comma before every other one.
pub open spec fn separator(first: bool) -> Seq<u8> {
    if first {
        Seq::empty()
    } else {
        seq![COMMA]
    }
}

/// A JSON encoder, for one value.
pub struct JsonEncoder<'a, W> {
    /// Where the value is written to.
    pub writer: &'a mut W,
}

/// An encoder for the values of a JSON array.
pub struct JsonArrayEncoder<'a, W> {
    /// Whether no value was written yet.
    pub first: bool,
    /// Where the values are written to.
    pub writer: &'a mut W,
}

/// An encoder for the pairs of a JSON object.
pub struct JsonObjectEncoder<'a, W> {
    /// Whether no pair was written yet.
    pub first: bool,
    /// Where the pairs are written to.
    pub writer: &'a mut W,
}

/// An encoder for the key and the value of a pair of a JSON object.
pub struct JsonObjectPairEncoder<'a, W> {
    /// Where the pair is written to.
    pub writer: &'a mut W,
}

/// An encoder for a key of a JSON object.
pub struct JsonObjectKeyEncoder<'a, W> {
    /// Where the key is written to.
    pub writer: &'a mut W,
}

impl<'a, W: Writer> JsonArrayEncoder<'a, W> {
    /// Prepare encoding of the next value: a comma is written before every
    /// value but the first.
    pub fn next(&mut self) -> (r: Result<JsonEncoder<'_, W>, W::Error>)
        ensures
            r is Ok <==> fits(*old(self).writer, separator(old(self).first).len()),
            r matches Ok(encoder) ==> wrote(
                *old(self).writer,
                *encoder.writer,
                true,
                separator(old(self).first),
            ) && *final(self).writer == *final(encoder.writer) && !final(self).first,
            r is Err ==> final(self).writer.written() == old(self).writer.written()
                && final(self).first == old(self).first,
            *final(final(self).writer) == *final(old(self).writer),
    {
        if !self.first {
            self.writer.write_byte(COMMA)?;
        } else {
            assert(self.writer.written() + Seq::<u8>::empty() =~= self.writer.written());
        }
        self.first = false;
        Ok(JsonEncoder { writer: &mut *self.writer })
    }

    /// End the array: its closing bracket is written.
    pub fn end(self) -> (r: Result<(), W::Error>)
        ensures
            wrote(*old(self.writer), *final(self.writer), r is Ok, seq![CLOSE_BRACKET]),
    {
        self.writer.write_byte(CLOSE_BRACKET)
    }
}

impl<'a, W: Writer> JsonObjectEncoder<'a, W> {
    /// Prepare encoding of the next pair: a comma is written before every
    /// pair but the first.
    pub fn next(&mut self) -> (r: Result<JsonObjectPairEncoder<'_, W>, W::Error>)
        ensures
            r is Ok <==> fits(*old(self).writer, separator(old(self).first).len()),
            r matches Ok(encoder) ==> wrote(
                *old(self).writer,
                *encoder.writer,
                true,
                separator(old(self).first),
            ) && *final(self).writer == *final(encoder.writer) && !final(self).first,
            r is Err ==> final(self).writer.written() == old(self).writer.written()
                && final(self).first == old(self).first,
            *final(final(self).writer) == *final(old(self).writer),
    {
        if !self.first {
            self.writer.write_byte(COMMA)?;
        } else {
            assert(self.writer.written() + Seq::<u8>::empty() =~= self.writer.written());
        }
        self.first = false;
        Ok(JsonObjectPairEncoder { writer: &mut *self.writer })
    }

    /// End the object: its closing brace is written.
    pub fn end(self) -> (r: Result<(), W::Error>)
        ensures
            wrote(*old(self.writer), *final(self.writer), r is Ok, seq![CLOSE_BRACE]),
    {
        self.writer.write_byte(CLOSE_BRACE)
    }
}

impl<'a, W: Writer> JsonObjectPairEncoder<'a, W> {
    /// Return the encoder for the key of the pair.
    #[inline]
    pub fn first(&mut self) -> (r: Result<JsonObjectKeyEncoder<'_, W>, W::Error>)
        ensures
            r matches Ok(encoder) && *encoder.writer == *old(self).writer && *final(self).writer
                == *final(encoder.writer),
            *final(final(self).writer) == *final(old(self).writer),
    {
        Ok(JsonObjectKeyEncoder { writer: &mut *self.writer })
    }

    /// Return the encoder for the value of the pair: a colon is written
    /// before the value.
    pub fn second(&mut self) -> (r: Result<JsonEncoder<'_, W>, W::Error>)
        ensures
            r is Ok <==> fits(*old(self).writer, 1),
            r matches Ok(encoder) ==> wrote(
                *old(self).writer,
                *encoder.writer,
                true,
                seq![COLON],
            ) && *final(self).writer == *final(encoder.writer),
            r is Err ==> final(self).writer.written() == old(self).writer.written(),
            *final(final(self).writer) == *final(old(self).writer),
    {
        self.writer.write_byte(COLON)?;
        Ok(JsonEncoder { writer: &mut *self.writer })
    }

    /// End the pair. Nothing is written for it.
    #[inline]
    pub fn end(self) -> (r: Result<(), W::Error>)
        ensures
            r is Ok,
            *final(self.writer) == *old(self.writer),
    {
        Ok(())
    }
}

impl<'a, W: Writer> JsonObjectKeyEncoder<'a, W> {
    /// Encode a string as a key.
    #[inline]
    pub fn encode_string(self, string: &str) -> (r: Result<(), W::Error>)
        ensures
            wrote(
                *old(self.writer),
                *final(self.writer),
                r is Ok,
                string_form(string.spec_bytes()),
            ),
    {
        encode_text(self.writer, string.as_bytes())
    }

    /// Encode an 8-bit unsigned integer, between quotes.
    #[inline]
    pub fn encode_u8(self, value: u8) -> (r: Result<(), W::Error>)
        ensures
            wrote(*old(self.writer), *final(self.writer), r is Ok, key_form(decimal_form(value as nat))),
    {
        encode_unsigned_key::<W, u8>(self.writer, value)
    }

    /// Encode a 16-bit unsigned integer, between quotes.
    #[inline]
    pub fn encode_u16(self, value: u16) -> (r: Result<(), W::Error>)
        ensures
            wrote(*old(self.writer), *final(self.writer), r is Ok, key_form(decimal_form(value as nat))),
    {
        encode_unsigned_key::<W, u16>(self.writer, value)
    }

    /// Encode a 32-bit unsigned integer, between quotes.
    #[inline]
    pub fn encode_u32(self, value: u32) -> (r: Result<(), W::Error>)
        ensures
            wrote(*old(self.writer), *final(self.writer), r is Ok, key_form(decimal_form(value as nat))),
    {
        encode_unsigned_key::<W, u32>(self.writer, value)
    }

    /// Encode a 64-bit unsigned integer, between quotes.
    #[inline]
    pub fn encode_u64(self, value: u64) -> (r: Result<(), W::Error>)
        ensures
            wrote(*old(self.writer), *final(self.writer), r is Ok, key_form(decimal_form(value as nat))),
    {
        encode_unsigned_key::<W, u64>(self.writer, value)
    }

    /// Encode a 128-bit unsigned integer, between quotes.
    #[inline]
    pub fn encode_u128(self, value: u128) -> (r: Result<(), W::Error>)
        ensures
            wrote(*old(self.writer), *final(self.writer), r is Ok, key_form(decimal_form(value as nat))),
    {
        encode_unsigned_key::<W, u128>(self.writer, value)
    }

    /// Encode a pointer-sized unsigned integer, between quotes.
    #[inline]
    pub fn encode_usize(self, value: usize) -> (r: Result<(), W::Error>)
        ensures
            wrote(*old(self.writer), *final(self.writer), r is Ok, key_form(decimal_form(value as nat))),
    {
        encode_unsigned_key::<W, usize>(self.writer, value)
    }

    /// Encode an 8-bit signed integer, between quotes.
    #[inline]
    pub fn encode_i8(self, value: i8) -> (r: Result<(), W::Error>)
        ensures
            wrote(*old(self.writer), *final(self.writer), r is Ok, key_form(signed_form(value as int))),
    {
        encode_signed_key::<W, i8>(self.writer, value)
    }

    /// Encode a 16-bit signed integer, between quotes.
    #[inline]
    pub fn encode_i16(self, value: i16) -> (r: Result<(), W::Error>)
        ensures
            wrote(*old(self.writer), *final(self.writer), r is Ok, key_form(signed_form(value as int))),
    {
        encode_signed_key::<W, i16>(self.writer, value)
    }

    /// Encode a 32-bit signed integer, between quotes.
    #[inline]
    pub fn encode_i32(self, value: i32) -> (r: Result<(), W::Error>)
        ensures
            wrote(*old(self.writer), *final(self.writer), r is Ok, key_form(signed_form(value as int))),
    {
        encode_signed_key::<W, i32>(self.writer, value)
    }

    /// Encode a 64-bit signed integer, between quotes.
    #[inline]
    pub fn encode_i64(self, value: i64) -> (r: Result<(), W::Error>)
        ensures
            wrote(*old(self.writer), *final(self.writer), r is Ok, key_form(signed_form(value as int))),
    {
        encode_signed_key::<W, i64>(self.writer, value)
    }

    /// Encode a 128-bit signed integer, between quotes.
    #[inline]
    pub fn encode_i128(self, value: i128) -> (r: Result<(), W::Error>)
        ensures
            wrote(*old(self.writer), *final(self.writer), r is Ok, key_form(signed_form(value as int))),
    {
        encode_signed_key::<W, i128>(self.writer, value)
    }

    /// Encode a pointer-sized signed integer, between quotes.
    #[inline]
    pub fn encode_isize(self, value: isize) -> (r: Result<(), W::Error>)
        ensures
            wrote(*old(self.writer), *final(self.writer), r is Ok, key_form(signed_form(value as int))),
    {
        encode_signed_key::<W, isize>(self.writer, value)
    }

}

impl<'a, W: Writer> JsonEncoder<'a, W> {
    /// Construct a new encoder of one value.
    #[inline]
    pub fn new(writer: &'a mut W) -> (encoder: Self)
        ensures
            *encoder.writer == *old(writer),
            *final(encoder.writer) == *final(writer),
    {
        Self { writer }
    }

    /// Encode a unit or something that is completely empty: `null`.
    #[inline]
    pub fn encode_unit(self) -> (r: Result<(), W::Error>)
        ensures
            wrote(*old(self.writer), *final(self.writer), r is Ok, NULL@),
    {
        self.writer.write_bytes(NULL.as_slice())
    }

    /// Encode an optional value that is absent: `null`.
    #[inline]
    pub fn encode_none(self) -> (r: Result<(), W::Error>)
        ensures
            wrote(*old(self.writer), *final(self.writer), r is Ok, NULL@),
    {
        self.writer.write_bytes(NULL.as_slice())
    }

    /// Encode an optional value that is present. The value is encoded next,
    /// and nothing is written before it.
    #[inline]
    pub fn encode_some(self) -> (r: Result<Self, W::Error>)
        ensures
            r matches Ok(encoder) && encoder == self,
    {
        Ok(self)
    }

    /// Encode a boolean value: `true` or `false`.
    #[inline]
    pub fn encode_bool(self, value: bool) -> (r: Result<(), W::Error>)
        ensures
            wrote(*old(self.writer), *final(self.writer), r is Ok, if value {
                TRUE@
            } else {
                FALSE@
            }),
    {
        if value {
            self.writer.write_bytes(TRUE.as_slice())
        } else {
            self.writer.write_bytes(FALSE.as_slice())
        }
    }

    /// Encode a string.
    #[inline]
    pub fn encode_string(self, string: &str) -> (r: Result<(), W::Error>)
        ensures
            wrote(
                *old(self.writer),
                *final(self.writer),
                r is Ok,
                string_form(string.spec_bytes()),
            ),
    {
        encode_text(self.writer, string.as_bytes())
    }

    /// Encode a character, as the string that holds it.
    #[inline]
    pub fn encode_char(self, value: char) -> (r: Result<(), W::Error>)
        ensures
            wrote(
                *old(self.writer),
                *final(self.writer),
                r is Ok,
                string_form(encode_scalar(value as u32)),
            ),
    {
        let mut bytes = Vec::new();
        crate::text::push_char(&mut bytes, value);
        assert(bytes@ =~= encode_scalar(value as u32));
        encode_text(self.writer, bytes.as_slice())
    }

    /// Encode a sequence of bytes, as an array of numbers.
    #[inline]
    pub fn encode_bytes(self, bytes: &[u8]) -> (r: Result<(), W::Error>)
        ensures
            wrote(
                *old(self.writer),
                *final(self.writer),
                r is Ok,
                seq![OPEN_BRACKET] + bytes_form(bytes@, bytes@.len()) + seq![CLOSE_BRACKET],
            ),
    {
        encode_byte_array(self.writer, bytes)
    }

    /// Encode fixed-length array, as an array of numbers.
    #[inline]
    pub fn encode_array<const N: usize>(self, array: [u8; N]) -> (r: Result<(), W::Error>)
        ensures
            wrote(
                *old(self.writer),
                *final(self.writer),
                r is Ok,
                seq![OPEN_BRACKET] + bytes_form(array@, array@.len()) + seq![CLOSE_BRACKET],
            ),
    {
        encode_byte_array(self.writer, array.as_slice())
    }

    /// Encode a unit struct: an object without pairs.
    #[inline]
    pub fn encode_unit_struct(self) -> (r: Result<(), W::Error>)
        ensures
            wrote(
                *old(self.writer),
                *final(self.writer),
                r is Ok,
                seq![OPEN_BRACE, CLOSE_BRACE],
            ),
    {
        let mut buffer = Vec::new();
        buffer.push(OPEN_BRACE);
        buffer.push(CLOSE_BRACE);
        assert(buffer@ =~= seq![OPEN_BRACE, CLOSE_BRACE]);
        self.writer.write_bytes(buffer.as_slice())
    }

    /// Encode an 8-bit unsigned integer.
    #[inline]
    pub fn encode_u8(self, value: u8) -> (r: Result<(), W::Error>)
        ensures
            wrote(*old(self.writer), *final(self.writer), r is Ok, decimal_form(value as nat)),
    {
        encode_unsigned::<W, u8>(self.writer, value)
    }

    /// Encode a 16-bit unsigned integer.
    #[inline]
    pub fn encode_u16(self, value: u16) -> (r: Result<(), W::Error>)
        ensures
            wrote(*old(self.writer), *final(self.writer), r is Ok, decimal_form(value as nat)),
    {
        encode_unsigned::<W, u16>(self.writer, value)
    }

    /// Encode a 32-bit unsigned integer.
    #[inline]
    pub fn encode_u32(self, value: u32) -> (r: Result<(), W::Error>)
        ensures
            wrote(*old(self.writer), *final(self.writer), r is Ok, decimal_form(value as nat)),
    {
        encode_unsigned::<W, u32>(self.writer, value)
    }

    /// Encode a 64-bit unsigned integer.
    #[inline]
    pub fn encode_u64(self, value: u64) -> (r: Result<(), W::Error>)
        ensures
            wrote(*old(self.writer), *final(self.writer), r is Ok, decimal_form(value as nat)),
    {
        encode_unsigned::<W, u64>(self.writer, value)
    }

    /// Encode a 128-bit unsigned integer.
    #[inline]
    pub fn encode_u128(self, value: u128) -> (r: Result<(), W::Error>)
        ensures
            wrote(*old(self.writer), *final(self.writer), r is Ok, decimal_form(value as nat)),
    {
        encode_unsigned::<W, u128>(self.writer, value)
    }

    /// Encode a pointer-sized unsigned integer.
    #[inline]
    pub fn encode_usize(self, value: usize) -> (r: Result<(), W::Error>)
        ensures
            wrote(*old(self.writer), *final(self.writer), r is Ok, decimal_form(value as nat)),
    {
        encode_unsigned::<W, usize>(self.writer, value)
    }

    /// Encode an 8-bit signed integer.
    #[inline]
    pub fn encode_i8(self, value: i8) -> (r: Result<(), W::Error>)
        ensures
            wrote(*old(self.writer), *final(self.writer), r is Ok, signed_form(value as int)),
    {
        encode_signed::<W, i8>(self.writer, value)
    }

    /// Encode a 16-bit signed integer.
    #[inline]
    pub fn encode_i16(self, value: i16) -> (r: Result<(), W::Error>)
        ensures
            wrote(*old(self.writer), *final(self.writer), r is Ok, signed_form(value as int)),
    {
        encode_signed::<W, i16>(self.writer, value)
    }

    /// Encode a 32-bit signed integer.
    #[inline]
    pub fn encode_i32(self, value: i32) -> (r: Result<(), W::Error>)
        ensures
            wrote(*old(self.writer), *final(self.writer), r is Ok, signed_form(value as int)),
    {
        encode_signed::<W, i32>(self.writer, value)
    }

    /// Encode a 64-bit signed integer.
    #[inline]
    pub fn encode_i64(self, value: i64) -> (r: Result<(), W::Error>)
        ensures
            wrote(*old(self.writer), *final(self.writer), r is Ok, signed_form(value as int)),
    {
        encode_signed::<W, i64>(self.writer, value)
    }

    /// Encode a 128-bit signed integer.
    #[inline]
    pub fn encode_i128(self, value: i128) -> (r: Result<(), W::Error>)
        ensures
            wrote(*old(self.writer), *final(self.writer), r is Ok, signed_form(value as int)),
    {
        encode_signed::<W, i128>(self.writer, value)
    }

    /// Encode a pointer-sized signed integer.
    #[inline]
    pub fn encode_isize(self, value: isize) -> (r: Result<(), W::Error>)
        ensures
            wrote(*old(self.writer), *final(self.writer), r is Ok, signed_form(value as int)),
    {
        encode_signed::<W, isize>(self.writer, value)
    }

    /// Encode a sequence: the opening bracket of an array is written, and its values are encoded next.
    #[inline]
    pub fn encode_sequence(self, _len: usize) -> (r: Result<JsonArrayEncoder<'a, W>, W::Error>)
        ensures
            r is Ok <==> fits(*old(self.writer), 1),
            r matches Ok(encoder) ==> encoder.first && wrote(
                *old(self.writer),
                *encoder.writer,
                true,
                seq![OPEN_BRACKET],
            ) && *final(encoder.writer) == *final(self.writer),
            r is Err ==> final(self.writer).written() == old(self.writer).written(),
    {
        match self.writer.write_byte(OPEN_BRACKET) {
            Ok(()) => Ok(JsonArrayEncoder { first: true, writer: self.writer }),
            Err(e) => Err(e),
        }
    }

    /// Encode a tuple: the opening bracket of an array is written, and its values are encoded next.
    #[inline]
    pub fn encode_tuple(self, _len: usize) -> (r: Result<JsonArrayEncoder<'a, W>, W::Error>)
        ensures
            r is Ok <==> fits(*old(self.writer), 1),
            r matches Ok(encoder) ==> encoder.first && wrote(
                *old(self.writer),
                *encoder.writer,
                true,
                seq![OPEN_BRACKET],
            ) && *final(encoder.writer) == *final(self.writer),
            r is Err ==> final(self.writer).written() == old(self.writer).written(),
    {
        match self.writer.write_byte(OPEN_BRACKET) {
            Ok(()) => Ok(JsonArrayEncoder { first: true, writer: self.writer }),
            Err(e) => Err(e),
        }
    }

    /// Encode a map: the opening brace of an object is written, and its pairs are encoded next.
    #[inline]
    pub fn encode_map(self, _len: usize) -> (r: Result<JsonObjectEncoder<'a, W>, W::Error>)
        ensures
            r is Ok <==> fits(*old(self.writer), 1),
            r matches Ok(encoder) ==> encoder.first && wrote(
                *old(self.writer),
                *encoder.writer,
                true,
                seq![OPEN_BRACE],
            ) && *final(encoder.writer) == *final(self.writer),
            r is Err ==> final(self.writer).written() == old(self.writer).written(),
    {
        match self.writer.write_byte(OPEN_BRACE) {
            Ok(()) => Ok(JsonObjectEncoder { first: true, writer: self.writer }),
            Err(e) => Err(e),
        }
    }

    /// Encode a struct: the opening brace of an object is written, and its fields are encoded next.
    #[inline]
    pub fn encode_struct(self, _len: usize) -> (r: Result<JsonObjectEncoder<'a, W>, W::Error>)
        ensures
            r is Ok <==> fits(*old(self.writer), 1),
            r matches Ok(encoder) ==> encoder.first && wrote(
                *old(self.writer),
                *encoder.writer,
                true,
                seq![OPEN_BRACE],
            ) && *final(encoder.writer) == *final(self.writer),
            r is Err ==> final(self.writer).written() == old(self.writer).written(),
    {
        match self.writer.write_byte(OPEN_BRACE) {
            Ok(()) => Ok(JsonObjectEncoder { first: true, writer: self.writer }),
            Err(e) => Err(e),
        }
    }

    /// Encode a tuple struct: the opening brace of an object is written, and its fields are encoded next, with their indices as keys.
    #[inline]
    pub fn encode_tuple_struct(self, _len: usize) -> (r: Result<JsonObjectEncoder<'a, W>, W::Error>)
        ensures
            r is Ok <==> fits(*old(self.writer), 1),
            r matches Ok(encoder) ==> encoder.first && wrote(
                *old(self.writer),
                *encoder.writer,
                true,
                seq![OPEN_BRACE],
            ) && *final(encoder.writer) == *final(self.writer),
            r is Err ==> final(self.writer).written() == old(self.writer).written(),
    {
        match self.writer.write_byte(OPEN_BRACE) {
            Ok(()) => Ok(JsonObjectEncoder { first: true, writer: self.writer }),
            Err(e) => Err(e),
        }
    }

}

} // verus!
