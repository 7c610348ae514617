//! The JSON encoder and decoder as an encoder and a decoder of the protocol.

use crate::de::{Decode, Decoder, PairDecoder, PairsDecoder, SequenceDecoder, ValueVisitor};
use crate::en::{Encode, Encoder, PairsEncoder, SequenceEncoder};
use crate::error::{Cause, Error, Message};
use crate::json::de::{
    array_step, decode_text, object_step, second_skipped, stands, text_parsed, token_parsed,
    JsonDecoder, JsonKeyDecoder, JsonObjectDecoder, JsonObjectPairDecoder, JsonSequenceDecoder,
};
use crate::json::reader::string::StringReference;
use crate::json::en::{
    separator, JsonArrayEncoder, JsonEncoder, JsonObjectEncoder, JsonObjectKeyEncoder,
    JsonObjectPairEncoder,
};
use crate::json::reader::{token, ParseError, ParseErrorKind, Parsed, Parser, Token};
use crate::never::Never;
use crate::results::found;
use crate::text::str_from_utf8;
use crate::writer::{fits, Writer};
use vstd::prelude::*;

verus! {

/// An error raised while decoding a JSON text through the protocol.
#[derive(Debug)]
pub struct JsonError {
    repr: JsonErrorRepr,
}

#[derive(Debug)]
enum JsonErrorRepr {
    Custom(String),
    Message(Message),
    Parse(ParseError),
}

impl Error for JsonError {
    closed spec fn cause(&self) -> Cause {
        match self.repr {
            JsonErrorRepr::Custom(text) => Cause::Custom(text@),
            JsonErrorRepr::Message(message) => Cause::Message(message),
            JsonErrorRepr::Parse(error) => Cause::Parse(error),
        }
    }

    #[inline]
    fn custom(text: &str) -> (e: Self) {
        Self { repr: JsonErrorRepr::Custom(text.to_owned()) }
    }

    #[inline]
    fn message(message: Message) -> (e: Self) {
        Self { repr: JsonErrorRepr::Message(message) }
    }
}

impl JsonError {
    /// Construct the error for a failure to read the text.
    #[inline]
    pub fn parse(error: ParseError) -> (e: Self)
        ensures
            e.cause() == Cause::Parse(error),
    {
        Self { repr: JsonErrorRepr::Parse(error) }
    }

    /// The failure to read the text, where the error was made from one.
    #[inline]
    pub fn parse_error(&self) -> (r: Option<ParseError>)
        ensures
            r == (match self.cause() {
                Cause::Parse(error) => Some(error),
                _ => None,
            }),
    {
        match &self.repr {
            JsonErrorRepr::Parse(error) => Some(*error),
            _ => None,
        }
    }
}

/// What reading does to a parser, for the outcome that the text of the
/// parser comes to, as a decoder of the protocol returns it: `same` tells
/// whether a value that is handed out is the value of the outcome.
pub open spec fn lifted<'de, P: Parser<'de>, V, M>(
    before: P,
    after: P,
    r: Result<V, JsonError>,
    outcome: Parsed<M>,
    same: spec_fn(V, M) -> bool,
) -> bool {
    &&& stands(before, after, outcome.len)
    &&& match outcome.result {
        Ok(value) => (r matches Ok(v) && same(v, value)),
        Err(error) => (r matches Err(e) && e.cause() == Cause::Parse(error)),
    }
}

/// What a function that reads the text returns, as a decoder of the
/// protocol returns it.
#[inline]
pub fn lift<T>(r: Result<T, ParseError>) -> (out: Result<T, JsonError>)
    ensures
        match r {
            Ok(value) => out == Ok::<T, JsonError>(value),
            Err(error) => out matches Err(e) && e.cause() == Cause::Parse(error),
        },
{
    match r {
        Ok(value) => Ok(value),
        Err(error) => Err(JsonError::parse(error)),
    }
}

/// Every kind of value but a pack, a variant and bytes in several slices.
impl<'a, W: Writer> Encoder for JsonEncoder<'a, W> {
    type Ok = ();

    type Error = W::Error;

    type Pack = Never<(), W::Error>;

    type Some = Self;

    type Sequence = JsonArrayEncoder<'a, W>;

    type Tuple = JsonArrayEncoder<'a, W>;

    type Map = JsonObjectEncoder<'a, W>;

    type Struct = JsonObjectEncoder<'a, W>;

    type TupleStruct = JsonObjectEncoder<'a, W>;

    type Variant = Never<(), W::Error>;

    #[inline]
    fn expecting(&self) -> &'static str {
        "type supported by the JSON encoder"
    }

    #[inline]
    fn encode_unit(self) -> (r: Result<(), W::Error>) {
        JsonEncoder::encode_unit(self)
    }

    #[inline]
    fn encode_bool(self, value: bool) -> (r: Result<(), W::Error>) {
        JsonEncoder::encode_bool(self, value)
    }

    #[inline]
    fn encode_char(self, value: char) -> (r: Result<(), W::Error>) {
        JsonEncoder::encode_char(self, value)
    }

    #[inline]
    fn encode_u8(self, value: u8) -> (r: Result<(), W::Error>) {
        JsonEncoder::encode_u8(self, value)
    }

    #[inline]
    fn encode_u16(self, value: u16) -> (r: Result<(), W::Error>) {
        JsonEncoder::encode_u16(self, value)
    }

    #[inline]
    fn encode_u32(self, value: u32) -> (r: Result<(), W::Error>) {
        JsonEncoder::encode_u32(self, value)
    }

    #[inline]
    fn encode_u64(self, value: u64) -> (r: Result<(), W::Error>) {
        JsonEncoder::encode_u64(self, value)
    }

    #[inline]
    fn encode_u128(self, value: u128) -> (r: Result<(), W::Error>) {
        JsonEncoder::encode_u128(self, value)
    }

    #[inline]
    fn encode_usize(self, value: usize) -> (r: Result<(), W::Error>) {
        JsonEncoder::encode_usize(self, value)
    }

    #[inline]
    fn encode_i8(self, value: i8) -> (r: Result<(), W::Error>) {
        JsonEncoder::encode_i8(self, value)
    }

    #[inline]
    fn encode_i16(self, value: i16) -> (r: Result<(), W::Error>) {
        JsonEncoder::encode_i16(self, value)
    }

    #[inline]
    fn encode_i32(self, value: i32) -> (r: Result<(), W::Error>) {
        JsonEncoder::encode_i32(self, value)
    }

    #[inline]
    fn encode_i64(self, value: i64) -> (r: Result<(), W::Error>) {
        JsonEncoder::encode_i64(self, value)
    }

    #[inline]
    fn encode_i128(self, value: i128) -> (r: Result<(), W::Error>) {
        JsonEncoder::encode_i128(self, value)
    }

    #[inline]
    fn encode_isize(self, value: isize) -> (r: Result<(), W::Error>) {
        JsonEncoder::encode_isize(self, value)
    }

    #[inline]
    fn encode_array<const N: usize>(self, array: [u8; N]) -> (r: Result<(), W::Error>) {
        JsonEncoder::encode_array(self, array)
    }

    #[inline]
    fn encode_bytes(self, bytes: &[u8]) -> (r: Result<(), W::Error>) {
        JsonEncoder::encode_bytes(self, bytes)
    }

    #[inline]
    fn encode_string(self, string: &str) -> (r: Result<(), W::Error>) {
        JsonEncoder::encode_string(self, string)
    }

    #[inline]
    fn encode_none(self) -> (r: Result<(), W::Error>) {
        JsonEncoder::encode_none(self)
    }

    #[inline]
    fn encode_unit_struct(self) -> (r: Result<(), W::Error>) {
        JsonEncoder::encode_unit_struct(self)
    }

    #[inline]
    fn encode_some(self) -> (r: Result<Self, W::Error>) {
        JsonEncoder::encode_some(self)
    }

    #[inline]
    fn encode_sequence(self, len: usize) -> (r: Result<JsonArrayEncoder<'a, W>, W::Error>) {
        JsonEncoder::encode_sequence(self, len)
    }

    #[inline]
    fn encode_tuple(self, len: usize) -> (r: Result<JsonArrayEncoder<'a, W>, W::Error>) {
        JsonEncoder::encode_tuple(self, len)
    }

    #[inline]
    fn encode_map(self, len: usize) -> (r: Result<JsonObjectEncoder<'a, W>, W::Error>) {
        JsonEncoder::encode_map(self, len)
    }

    #[inline]
    fn encode_struct(self, fields: usize) -> (r: Result<JsonObjectEncoder<'a, W>, W::Error>) {
        JsonEncoder::encode_struct(self, fields)
    }

    #[inline]
    fn encode_tuple_struct(self, fields: usize) -> (r: Result<JsonObjectEncoder<'a, W>, W::Error>) {
        JsonEncoder::encode_tuple_struct(self, fields)
    }
}

/// The key of an object: a string or a number.
impl<'a, W: Writer> Encoder for JsonObjectKeyEncoder<'a, W> {
    type Ok = ();

    type Error = W::Error;

    type Pack = Never<(), W::Error>;

    type Some = Never<(), W::Error>;

    type Sequence = Never<(), W::Error>;

    type Tuple = Never<(), W::Error>;

    type Map = Never<(), W::Error>;

    type Struct = Never<(), W::Error>;

    type TupleStruct = Never<(), W::Error>;

    type Variant = Never<(), W::Error>;

    #[inline]
    fn expecting(&self) -> &'static str {
        "type supported by the JSON encoder of the key of an object"
    }

    #[inline]
    fn encode_u8(self, value: u8) -> (r: Result<(), W::Error>) {
        JsonObjectKeyEncoder::encode_u8(self, value)
    }

    #[inline]
    fn encode_u16(self, value: u16) -> (r: Result<(), W::Error>) {
        JsonObjectKeyEncoder::encode_u16(self, value)
    }

    #[inline]
    fn encode_u32(self, value: u32) -> (r: Result<(), W::Error>) {
        JsonObjectKeyEncoder::encode_u32(self, value)
    }

    #[inline]
    fn encode_u64(self, value: u64) -> (r: Result<(), W::Error>) {
        JsonObjectKeyEncoder::encode_u64(self, value)
    }

    #[inline]
    fn encode_u128(self, value: u128) -> (r: Result<(), W::Error>) {
        JsonObjectKeyEncoder::encode_u128(self, value)
    }

    #[inline]
    fn encode_usize(self, value: usize) -> (r: Result<(), W::Error>) {
        JsonObjectKeyEncoder::encode_usize(self, value)
    }

    #[inline]
    fn encode_i8(self, value: i8) -> (r: Result<(), W::Error>) {
        JsonObjectKeyEncoder::encode_i8(self, value)
    }

    #[inline]
    fn encode_i16(self, value: i16) -> (r: Result<(), W::Error>) {
        JsonObjectKeyEncoder::encode_i16(self, value)
    }

    #[inline]
    fn encode_i32(self, value: i32) -> (r: Result<(), W::Error>) {
        JsonObjectKeyEncoder::encode_i32(self, value)
    }

    #[inline]
    fn encode_i64(self, value: i64) -> (r: Result<(), W::Error>) {
        JsonObjectKeyEncoder::encode_i64(self, value)
    }

    #[inline]
    fn encode_i128(self, value: i128) -> (r: Result<(), W::Error>) {
        JsonObjectKeyEncoder::encode_i128(self, value)
    }

    #[inline]
    fn encode_isize(self, value: isize) -> (r: Result<(), W::Error>) {
        JsonObjectKeyEncoder::encode_isize(self, value)
    }

    #[inline]
    fn encode_string(self, string: &str) -> (r: Result<(), W::Error>) {
        JsonObjectKeyEncoder::encode_string(self, string)
    }
}

impl<'a, W: Writer> SequenceEncoder for JsonArrayEncoder<'a, W> {
    type Ok = ();

    type Error = W::Error;

    #[inline]
    fn push<T: Encode<M>, M>(&mut self, value: &T) -> (r: Result<(), W::Error>)
        ensures
            !fits(*old(self).writer, separator(old(self).first).len()) ==> (r is Err
                && final(self).writer.written() == old(self).writer.written() && final(self).first
                == old(self).first),
            fits(*old(self).writer, separator(old(self).first).len()) ==> !final(self).first,
    {
        let encoder = JsonArrayEncoder::next(self)?;
        value.encode(encoder)
    }

    #[inline]
    fn end(self) -> Result<(), W::Error> {
        JsonArrayEncoder::end(self)
    }
}

impl<'a, W: Writer> PairsEncoder for JsonObjectEncoder<'a, W> {
    type Ok = ();

    type Error = W::Error;

    #[inline]
    fn insert<F: Encode<M>, S: Encode<M>, M>(&mut self, first: &F, second: &S) -> (r: Result<
        (),
        W::Error,
    >)
        ensures
            !fits(*old(self).writer, separator(old(self).first).len()) ==> (r is Err
                && final(self).writer.written() == old(self).writer.written()
                && final(self).first == old(self).first),
            fits(*old(self).writer, separator(old(self).first).len()) ==> !final(self).first,
    {
        let mut pair = JsonObjectEncoder::next(self)?;
        first.encode(JsonObjectPairEncoder::first(&mut pair)?)?;
        second.encode(JsonObjectPairEncoder::second(&mut pair)?)?;
        JsonObjectPairEncoder::end(pair)
    }

    #[inline]
    fn end(self) -> Result<(), W::Error> {
        JsonObjectEncoder::end(self)
    }
}

/// A unit, a boolean, a number, a string, an optional value, a sequence, a tuple, a map and a struct.
impl<'a, 'de, P: Parser<'de>> Decoder<'de> for JsonDecoder<'a, P> {
    type Error = JsonError;

    type Pack = Never<(), JsonError>;

    type Sequence = JsonSequenceDecoder<'a, P>;

    type Tuple = JsonSequenceDecoder<'a, P>;

    type Map = JsonObjectDecoder<'a, P>;

    type Some = Self;

    type Struct = JsonObjectDecoder<'a, P>;

    type Variant = Never<(), JsonError>;

    #[inline]
    fn expecting(&self) -> &'static str {
        "type supported by the JSON decoder"
    }

    #[inline]
    fn skip_any(self) -> (r: Result<(), JsonError>) {
        lift(JsonDecoder::skip_any(self))
    }

    #[inline]
    fn decode_unit(self) -> (r: Result<(), JsonError>) {
        lift(JsonDecoder::decode_unit(self))
    }

    #[inline]
    fn decode_bool(self) -> (r: Result<bool, JsonError>) {
        lift(JsonDecoder::decode_bool(self))
    }

    #[inline]
    fn decode_u8(self) -> (r: Result<u8, JsonError>) {
        lift(JsonDecoder::decode_u8(self))
    }

    #[inline]
    fn decode_u16(self) -> (r: Result<u16, JsonError>) {
        lift(JsonDecoder::decode_u16(self))
    }

    #[inline]
    fn decode_u32(self) -> (r: Result<u32, JsonError>) {
        lift(JsonDecoder::decode_u32(self))
    }

    #[inline]
    fn decode_u64(self) -> (r: Result<u64, JsonError>) {
        lift(JsonDecoder::decode_u64(self))
    }

    #[inline]
    fn decode_u128(self) -> (r: Result<u128, JsonError>) {
        lift(JsonDecoder::decode_u128(self))
    }

    #[inline]
    fn decode_usize(self) -> (r: Result<usize, JsonError>) {
        lift(JsonDecoder::decode_usize(self))
    }

    #[inline]
    fn decode_i8(self) -> (r: Result<i8, JsonError>) {
        lift(JsonDecoder::decode_i8(self))
    }

    #[inline]
    fn decode_i16(self) -> (r: Result<i16, JsonError>) {
        lift(JsonDecoder::decode_i16(self))
    }

    #[inline]
    fn decode_i32(self) -> (r: Result<i32, JsonError>) {
        lift(JsonDecoder::decode_i32(self))
    }

    #[inline]
    fn decode_i64(self) -> (r: Result<i64, JsonError>) {
        lift(JsonDecoder::decode_i64(self))
    }

    #[inline]
    fn decode_i128(self) -> (r: Result<i128, JsonError>) {
        lift(JsonDecoder::decode_i128(self))
    }

    #[inline]
    fn decode_isize(self) -> (r: Result<isize, JsonError>) {
        lift(JsonDecoder::decode_isize(self))
    }

    #[inline]
    fn decode_unit_struct(self) -> (r: Result<(), JsonError>) {
        lift(JsonDecoder::decode_unit_struct(self))
    }

    #[inline]
    fn decode_string<V: ValueVisitor<'de, Target = str>>(self, visitor: V) -> (r: Result<
        V::Ok,
        JsonError,
    >)
        ensures
            stands(
                *old(self.parser),
                *final(self.parser),
                text_parsed(old(self.parser).rest(), old(self.parser).index()).len,
            ),
            text_parsed(old(self.parser).rest(), old(self.parser).index()).result matches Err(
                error,
            ) ==> (r matches Err(e) && e.cause() == Cause::Parse(error)),
    {
        match lift(decode_text(self.parser, self.scratch))? {
            StringReference::Borrowed(bytes) => match str_from_utf8(bytes) {
                Some(text) => visitor.visit_borrowed(text),
                None => Err(JsonError::message(Message::InvalidUtf8)),
            },
            StringReference::Scratch => match str_from_utf8(self.scratch.as_slice()) {
                Some(text) => visitor.visit_ref(text),
                None => Err(JsonError::message(Message::InvalidUtf8)),
            },
        }
    }

    #[inline]
    fn decode_option(self) -> (r: Result<Option<Self>, JsonError>) {
        lift(JsonDecoder::decode_option(self))
    }

    #[inline]
    fn decode_sequence(self) -> (r: Result<JsonSequenceDecoder<'a, P>, JsonError>) {
        lift(JsonDecoder::decode_sequence(self))
    }

    #[inline]
    fn decode_tuple(self, len: usize) -> (r: Result<JsonSequenceDecoder<'a, P>, JsonError>) {
        lift(JsonDecoder::decode_tuple(self, len))
    }

    #[inline]
    fn decode_map(self) -> (r: Result<JsonObjectDecoder<'a, P>, JsonError>) {
        lift(JsonDecoder::decode_map(self))
    }

    #[inline]
    fn decode_struct(self, fields: usize) -> (r: Result<JsonObjectDecoder<'a, P>, JsonError>) {
        lift(JsonDecoder::decode_struct(self, fields))
    }

    #[inline]
    fn decode_tuple_struct(self, fields: usize) -> (r: Result<JsonObjectDecoder<'a, P>, JsonError>) {
        lift(JsonDecoder::decode_tuple_struct(self, fields))
    }
}

/// The key of an object: a string or a number.
impl<'a, 'de, P: Parser<'de>> Decoder<'de> for JsonKeyDecoder<'a, P> {
    type Error = JsonError;

    type Pack = Never<(), JsonError>;

    type Sequence = Never<(), JsonError>;

    type Tuple = Never<(), JsonError>;

    type Map = Never<(), JsonError>;

    type Some = Never<(), JsonError>;

    type Struct = Never<(), JsonError>;

    type Variant = Never<(), JsonError>;

    #[inline]
    fn expecting(&self) -> &'static str {
        "type supported by the JSON decoder of the key of an object"
    }

    #[inline]
    fn skip_any(self) -> (r: Result<(), JsonError>) {
        lift(JsonKeyDecoder::skip_any(self))
    }

    #[inline]
    fn decode_u8(self) -> (r: Result<u8, JsonError>) {
        lift(JsonKeyDecoder::decode_u8(self))
    }

    #[inline]
    fn decode_u16(self) -> (r: Result<u16, JsonError>) {
        lift(JsonKeyDecoder::decode_u16(self))
    }

    #[inline]
    fn decode_u32(self) -> (r: Result<u32, JsonError>) {
        lift(JsonKeyDecoder::decode_u32(self))
    }

    #[inline]
    fn decode_u64(self) -> (r: Result<u64, JsonError>) {
        lift(JsonKeyDecoder::decode_u64(self))
    }

    #[inline]
    fn decode_u128(self) -> (r: Result<u128, JsonError>) {
        lift(JsonKeyDecoder::decode_u128(self))
    }

    #[inline]
    fn decode_usize(self) -> (r: Result<usize, JsonError>) {
        lift(JsonKeyDecoder::decode_usize(self))
    }

    #[inline]
    fn decode_i8(self) -> (r: Result<i8, JsonError>) {
        lift(JsonKeyDecoder::decode_i8(self))
    }

    #[inline]
    fn decode_i16(self) -> (r: Result<i16, JsonError>) {
        lift(JsonKeyDecoder::decode_i16(self))
    }

    #[inline]
    fn decode_i32(self) -> (r: Result<i32, JsonError>) {
        lift(JsonKeyDecoder::decode_i32(self))
    }

    #[inline]
    fn decode_i64(self) -> (r: Result<i64, JsonError>) {
        lift(JsonKeyDecoder::decode_i64(self))
    }

    #[inline]
    fn decode_i128(self) -> (r: Result<i128, JsonError>) {
        lift(JsonKeyDecoder::decode_i128(self))
    }

    #[inline]
    fn decode_isize(self) -> (r: Result<isize, JsonError>) {
        lift(JsonKeyDecoder::decode_isize(self))
    }

    #[inline]
    fn decode_string<V: ValueVisitor<'de, Target = str>>(self, visitor: V) -> (r: Result<
        V::Ok,
        JsonError,
    >)
        ensures
            stands(
                *old(self.parser),
                *final(self.parser),
                text_parsed(old(self.parser).rest(), old(self.parser).index()).len,
            ),
            text_parsed(old(self.parser).rest(), old(self.parser).index()).result matches Err(
                error,
            ) ==> (r matches Err(e) && e.cause() == Cause::Parse(error)),
    {
        match lift(decode_text(self.parser, self.scratch))? {
            StringReference::Borrowed(bytes) => match str_from_utf8(bytes) {
                Some(text) => visitor.visit_borrowed(text),
                None => Err(JsonError::message(Message::InvalidUtf8)),
            },
            StringReference::Scratch => match str_from_utf8(self.scratch.as_slice()) {
                Some(text) => visitor.visit_ref(text),
                None => Err(JsonError::message(Message::InvalidUtf8)),
            },
        }
    }
}

impl<'a, 'de, P: Parser<'de>> PairDecoder<'de> for JsonObjectPairDecoder<'a, P> {
    type Error = JsonError;

    #[inline]
    fn first<F: Decode<'de, M>, M>(&mut self) -> Result<F, JsonError> {
        F::decode(lift(JsonObjectPairDecoder::first(self))?)
    }

    #[inline]
    fn second<S: Decode<'de, M>, M>(self) -> Result<S, JsonError> {
        S::decode(lift(JsonObjectPairDecoder::second(self))?)
    }

    #[inline]
    fn skip_second(self) -> Result<bool, JsonError> {
        lift(JsonObjectPairDecoder::skip_second(self))
    }
}

impl<'a, 'de, P: Parser<'de>> SequenceDecoder<'de> for JsonSequenceDecoder<'a, P> {
    type Error = JsonError;

    open spec fn stepped(before: Self, after: Self, absent: bool, fault: Option<Cause>) -> bool {
        &&& !after.first
        &&& after.len == before.len
        &&& match array_step(before.parser.rest(), before.parser.index(), before.first).result {
            Ok(true) => !absent,
            Ok(false) => (absent && stands(
                *before.parser,
                *after.parser,
                array_step(before.parser.rest(), before.parser.index(), before.first).len,
            )),
            Err(error) => fault == Some(Cause::Parse(error)),
        }
    }

    #[inline]
    fn size_hint(&self) -> Option<usize> {
        JsonSequenceDecoder::size_hint(self)
    }

    #[inline]
    fn next<T: Decode<'de, M>, M>(&mut self) -> (r: Result<Option<T>, JsonError>) {
        match lift(JsonSequenceDecoder::next(self))? {
            Some(decoder) => found(T::decode(decoder)),
            None => Ok(None),
        }
    }
}

impl<'a, 'de, P: Parser<'de>> PairsDecoder<'de> for JsonObjectDecoder<'a, P> {
    type Error = JsonError;

    #[inline]
    fn size_hint(&self) -> Option<usize> {
        JsonObjectDecoder::size_hint(self)
    }

    #[inline]
    fn first<F: Decode<'de, M>, M>(&mut self) -> (r: Result<Option<F>, JsonError>)
        ensures
            !final(self).first,
            final(self).len == old(self).len,
            match object_step(old(self).parser.rest(), old(self).parser.index(), old(self).first).result {
                Ok(true) => !(r matches Ok(None)),
                Ok(false) => (r matches Ok(None) && stands(
                    *old(self).parser,
                    *final(self).parser,
                    object_step(old(self).parser.rest(), old(self).parser.index(), old(self).first).len,
                )),
                Err(error) => (r matches Err(e) && e.cause() == Cause::Parse(error)),
            },
    {
        match lift(JsonObjectDecoder::next(self))? {
            Some(decoder) => {
                let mut pair = decoder;
                found(F::decode(lift(JsonObjectPairDecoder::first(&mut pair))?))
            },
            None => Ok(None),
        }
    }

    #[inline]
    fn second<S: Decode<'de, M>, M>(&mut self) -> (r: Result<S, JsonError>)
        ensures
            final(self).first == old(self).first,
            final(self).len == old(self).len,
            token_parsed(
                old(self).parser.rest(),
                old(self).parser.index(),
                Token::Colon,
                ParseErrorKind::ExpectedColon(token(old(self).parser.rest())),
            ).result matches Err(error) ==> (r matches Err(e) && e.cause() == Cause::Parse(error)),
    {
        let pair = JsonObjectPairDecoder::new(&mut *self.scratch, &mut *self.parser);
        S::decode(lift(JsonObjectPairDecoder::second(pair))?)
    }

    #[inline]
    fn skip_second(&mut self) -> (r: Result<bool, JsonError>)
        ensures
            final(self).first == old(self).first,
            final(self).len == old(self).len,
            lifted(
                *old(self).parser,
                *final(self).parser,
                r,
                second_skipped(old(self).parser.rest(), old(self).parser.index()),
                |v: bool, m: ()| v,
            ),
    {
        let pair = JsonObjectPairDecoder::new(&mut *self.scratch, &mut *self.parser);
        lift(JsonObjectPairDecoder::skip_second(pair))
    }
}

} // verus!
