//! Decoding values out of a JSON text.
//!
//! White space is skipped before every token. Between the values of an array
//! and between the pairs of an object stand commas; the decoders read over
//! any number of them, and over one before the closing bracket or brace.

use crate::integer::{Signed, Unsigned};
use crate::json::reader::integer::{
    number_skipped, parse_signed, parse_unsigned, signed_parsed, skip_number, unsigned_parsed,
};
use crate::json::reader::string::{body_parsed, parse_string, StringReference};
use crate::json::reader::{
    behind, exact_parsed, failure, lemma_spaces_end, parse_exact, parsed, peek, skip_whitespace,
    spaces, token, ParseError, ParseErrorKind, Parsed, Parser, SliceParser, Token,
};
use crate::text::str_from_utf8;
use std::marker::PhantomData;
use vstd::prelude::*;
use vstd::string::StringSliceAdditionalSpecFns;
use vstd::utf8::valid_utf8;

verus! {

/// The bytes of `null`.
pub const NULL: [u8; 4] = [0x6e, 0x75, 0x6c, 0x6c];

/// The bytes of `true`.
pub const TRUE: [u8; 4] = [0x74, 0x72, 0x75, 0x65];

/// The bytes of `false`.
pub const FALSE: [u8; 5] = [0x66, 0x61, 0x6c, 0x73, 0x65];

/// The place `n` bytes behind the place `index`.
pub open spec fn at(index: usize, n: nat) -> usize {
    (index + n) as usize
}

/// The outcome without what is handed out.
pub open spec fn unit<V>(outcome: Parsed<V>) -> Parsed<()> {
    Parsed {
        result: match outcome.result {
            Ok(_) => Ok(()),
            Err(error) => Err(error),
        },
        len: outcome.len,
    }
}

/// What reading a string comes to, for a text `s` that starts with the
/// opening quote at the place `index`: the bytes of the string, which are
/// UTF-8.
pub open spec fn string_parsed(s: Seq<u8>, index: usize) -> Parsed<Seq<u8>> {
    let body = body_parsed(s.skip(1), at(index, 1));
    match body.result {
        Ok(bytes) => Parsed {
            result: if valid_utf8(bytes) {
                Ok(bytes)
            } else {
                Err(failure(ParseErrorKind::InvalidUtf8, index as int, index + 1 + body.len))
            },
            len: 1 + body.len,
        },
        Err(error) => Parsed { result: Err(error), len: 1 },
    }
}

/// What reading a token that must be the given one comes to.
pub open spec fn token_parsed(s: Seq<u8>, index: usize, expected: Token, kind: ParseErrorKind)
    -> Parsed<()> {
    if token(s) == expected {
        Parsed { result: Ok(()), len: spaces(s) + 1 }
    } else {
        Parsed {
            result: Err(failure(kind, index + spaces(s), index + spaces(s))),
            len: spaces(s),
        }
    }
}

/// What stepping to the next value of an array comes to: whether there is
/// one. `first` tells that none was read yet: then no comma may stand
/// before the next one, and else one comma must, with another one behind it.
pub open spec fn array_step(s: Seq<u8>, index: usize, first: bool) -> Parsed<bool> {
    let w = spaces(s);
    let t = s.skip(w as int + 1);
    let v = spaces(t);
    if first && token(s).spec_is_value() {
        Parsed { result: Ok(true), len: w }
    } else if !first && token(s) == Token::Comma {
        if token(t).spec_is_value() {
            Parsed { result: Ok(true), len: w + 1 + v }
        } else {
            Parsed {
                result: Err(
                    failure(
                        ParseErrorKind::ExpectedValue(token(t)),
                        index + w + 1 + v,
                        index + w + 1 + v,
                    ),
                ),
                len: w + 1 + v,
            }
        }
    } else if token(s) == Token::CloseBracket {
        Parsed { result: Ok(false), len: w + 1 }
    } else {
        Parsed {
            result: Err(
                failure(ParseErrorKind::ExpectedCloseBracket(token(s)), index + w, index + w),
            ),
            len: w,
        }
    }
}

/// What stepping to the next pair of an object comes to: whether there is
/// one. `first` tells that none was read yet: then no comma may stand
/// before the next one, and else one comma must, with another one behind it.
pub open spec fn object_step(s: Seq<u8>, index: usize, first: bool) -> Parsed<bool> {
    let w = spaces(s);
    let t = s.skip(w as int + 1);
    let v = spaces(t);
    if first && token(s) == Token::String {
        Parsed { result: Ok(true), len: w }
    } else if !first && token(s) == Token::Comma {
        if token(t) == Token::String {
            Parsed { result: Ok(true), len: w + 1 + v }
        } else {
            Parsed {
                result: Err(
                    failure(
                        ParseErrorKind::ExpectedString(token(t)),
                        index + w + 1 + v,
                        index + w + 1 + v,
                    ),
                ),
                len: w + 1 + v,
            }
        }
    } else if token(s) == Token::CloseBrace {
        Parsed { result: Ok(false), len: w + 1 }
    } else {
        Parsed {
            result: Err(
                failure(ParseErrorKind::ExpectedCloseBrace(token(s)), index + w, index + w),
            ),
            len: w,
        }
    }
}

/// What reading over one value of any kind comes to.
#[verifier::opaque]
pub open spec fn value_skipped(s: Seq<u8>, index: usize) -> Parsed<()>
    decreases s.len(), 0nat,
{
    let w = spaces(s);
    let body = s.skip(w as int);
    let here = at(index, w);
    if w >= s.len() {
        Parsed {
            result: Err(
                failure(ParseErrorKind::ExpectedValue(Token::Eof), index as int, index + w),
            ),
            len: w,
        }
    } else {
        behind(
            w,
            match token(s) {
                Token::OpenBrace => behind(1, object_skipped(body.skip(1), at(here, 1), true)),
                Token::OpenBracket => behind(1, array_skipped(body.skip(1), at(here, 1), true)),
                Token::Null => exact_parsed(body, here, NULL@, ParseErrorKind::ExpectedNull),
                Token::True => exact_parsed(body, here, TRUE@, ParseErrorKind::ExpectedTrue),
                Token::False => exact_parsed(body, here, FALSE@, ParseErrorKind::ExpectedFalse),
                Token::Number => number_skipped(body, here),
                Token::String => unit(string_parsed(body, here)),
                other => Parsed {
                    result: Err(
                        failure(ParseErrorKind::ExpectedValue(other), index as int, index + w),
                    ),
                    len: 0,
                },
            },
        )
    }
}

/// What reading over the values of an array and its closing bracket comes to.
#[verifier::opaque]
pub open spec fn array_skipped(s: Seq<u8>, index: usize, first: bool) -> Parsed<()>
    decreases s.len(), 1nat,
{
    let step = array_step(s, index, first);
    match step.result {
        Ok(true) => if step.len <= s.len() {
            let value = value_skipped(s.skip(step.len as int), at(index, step.len));
            match value.result {
                Ok(_) => if 1 <= value.len <= s.len() - step.len {
                    behind(
                        step.len + value.len,
                        array_skipped(
                            s.skip((step.len + value.len) as int),
                            at(index, step.len + value.len),
                            false,
                        ),
                    )
                } else {
                    Parsed { result: Ok(()), len: 0 }
                },
                Err(error) => Parsed { result: Err(error), len: step.len + value.len },
            }
        } else {
            Parsed { result: Ok(()), len: 0 }
        },
        Ok(false) => Parsed { result: Ok(()), len: step.len },
        Err(error) => Parsed { result: Err(error), len: step.len },
    }
}

/// What reading over a pair behind its key comes to: a colon and a value.
#[verifier::opaque]
pub open spec fn second_skipped(s: Seq<u8>, index: usize) -> Parsed<()>
    decreases s.len(), 1nat,
{
    let colon = token_parsed(
        s,
        index,
        Token::Colon,
        ParseErrorKind::ExpectedColon(token(s)),
    );
    match colon.result {
        Ok(_) => if colon.len <= s.len() {
            behind(colon.len, value_skipped(s.skip(colon.len as int), at(index, colon.len)))
        } else {
            Parsed { result: Ok(()), len: 0 }
        },
        Err(error) => Parsed { result: Err(error), len: colon.len },
    }
}

/// What reading over the pairs of an object and its closing brace comes to.
#[verifier::opaque]
pub open spec fn object_skipped(s: Seq<u8>, index: usize, first: bool) -> Parsed<()>
    decreases s.len(), 2nat,
{
    let step = object_step(s, index, first);
    match step.result {
        Ok(true) => if step.len < s.len() {
            let key = string_parsed(s.skip(step.len as int), at(index, step.len));
            match key.result {
                Ok(_) => if 1 <= key.len <= s.len() - step.len {
                    let value = second_skipped(
                        s.skip((step.len + key.len) as int),
                        at(index, step.len + key.len),
                    );
                    match value.result {
                        Ok(_) => if value.len <= s.len() - step.len - key.len {
                            behind(
                                step.len + key.len + value.len,
                                object_skipped(
                                    s.skip((step.len + key.len + value.len) as int),
                                    at(index, step.len + key.len + value.len),
                                    false,
                                ),
                            )
                        } else {
                            Parsed { result: Ok(()), len: 0 }
                        },
                        Err(error) => Parsed {
                            result: Err(error),
                            len: step.len + key.len + value.len,
                        },
                    }
                } else {
                    Parsed { result: Ok(()), len: 0 }
                },
                Err(error) => Parsed { result: Err(error), len: step.len + key.len },
            }
        } else {
            Parsed { result: Ok(()), len: 0 }
        },
        Ok(false) => Parsed { result: Ok(()), len: step.len },
        Err(error) => Parsed { result: Err(error), len: step.len },
    }
}

/// What reading comes to behind white space.
pub open spec fn spaced<V>(s: Seq<u8>, index: usize, then: spec_fn(Seq<u8>, usize) -> Parsed<V>)
    -> Parsed<V> {
    behind(spaces(s), then(s.skip(spaces(s) as int), at(index, spaces(s))))
}

/// Step to the next value of an array, and tell whether there is one.
pub fn array_next<'de, P: Parser<'de>>(p: &mut P, first: bool) -> (r: Result<bool, ParseError>)
    ensures
        parsed(
            *old(p),
            *final(p),
            r,
            array_step(old(p).rest(), old(p).index(), first),
            |v: bool, m: bool| v == m,
        ),
{
    let ghost s = p.rest();
    let ghost w = spaces(s);
    proof {
        p.lemma_fits();
        lemma_spaces_end(s);
    }
    let t = peek(p)?;
    if first && t.is_value() {
        return Ok(true);
    }
    if !first && t == Token::Comma {
        p.skip(1)?;
        let ghost behind = p.rest();
        proof {
            assert(behind =~= s.skip(w as int + 1));
            lemma_spaces_end(behind);
        }
        let next = peek(p)?;
        proof {
            assert(p.rest() =~= s.skip((w + 1 + spaces(behind)) as int));
        }
        if next.is_value() {
            return Ok(true);
        }
        return Err(ParseError::at(p.pos(), ParseErrorKind::ExpectedValue(next)));
    }
    if t == Token::CloseBracket {
        p.skip(1)?;
        proof {
            assert(p.rest() =~= s.skip((w + 1) as int));
        }
        return Ok(false);
    }
    Err(ParseError::at(p.pos(), ParseErrorKind::ExpectedCloseBracket(t)))
}

/// Step to the next pair of an object, and tell whether there is one.
pub fn object_next<'de, P: Parser<'de>>(p: &mut P, first: bool) -> (r: Result<bool, ParseError>)
    ensures
        parsed(
            *old(p),
            *final(p),
            r,
            object_step(old(p).rest(), old(p).index(), first),
            |v: bool, m: bool| v == m,
        ),
{
    let ghost s = p.rest();
    let ghost w = spaces(s);
    proof {
        p.lemma_fits();
        lemma_spaces_end(s);
    }
    let t = peek(p)?;
    if first && t.is_string() {
        return Ok(true);
    }
    if !first && t == Token::Comma {
        p.skip(1)?;
        let ghost behind = p.rest();
        proof {
            assert(behind =~= s.skip(w as int + 1));
            lemma_spaces_end(behind);
        }
        let next = peek(p)?;
        proof {
            assert(p.rest() =~= s.skip((w + 1 + spaces(behind)) as int));
        }
        if next.is_string() {
            return Ok(true);
        }
        return Err(ParseError::at(p.pos(), ParseErrorKind::ExpectedString(next)));
    }
    if t == Token::CloseBrace {
        p.skip(1)?;
        proof {
            assert(p.rest() =~= s.skip((w + 1) as int));
        }
        return Ok(false);
    }
    Err(ParseError::at(p.pos(), ParseErrorKind::ExpectedCloseBrace(t)))
}

/// Read the opening bracket of an array, behind white space.
pub fn open_array<'de, P: Parser<'de>>(p: &mut P) -> (r: Result<(), ParseError>)
    ensures
        parsed(
            *old(p),
            *final(p),
            r,
            token_parsed(
                old(p).rest(),
                old(p).index(),
                Token::OpenBracket,
                ParseErrorKind::ExpectedOpenBracket(token(old(p).rest())),
            ),
            |v: (), m: ()| true,
        ),
{
    let ghost s = p.rest();
    proof {
        p.lemma_fits();
        lemma_spaces_end(s);
    }
    let actual = peek(p)?;
    if actual != Token::OpenBracket {
        return Err(ParseError::at(p.pos(), ParseErrorKind::ExpectedOpenBracket(actual)));
    }
    p.skip(1)?;
    assert(p.rest() =~= s.skip(spaces(s) as int + 1));
    Ok(())
}

/// Read the opening brace of an object, behind white space.
pub fn open_object<'de, P: Parser<'de>>(p: &mut P) -> (r: Result<(), ParseError>)
    ensures
        parsed(
            *old(p),
            *final(p),
            r,
            token_parsed(
                old(p).rest(),
                old(p).index(),
                Token::OpenBrace,
                ParseErrorKind::ExpectedOpenBrace(token(old(p).rest())),
            ),
            |v: (), m: ()| true,
        ),
{
    let ghost s = p.rest();
    proof {
        p.lemma_fits();
        lemma_spaces_end(s);
    }
    let actual = peek(p)?;
    if actual != Token::OpenBrace {
        return Err(ParseError::at(p.pos(), ParseErrorKind::ExpectedOpenBrace(actual)));
    }
    p.skip(1)?;
    assert(p.rest() =~= s.skip(spaces(s) as int + 1));
    Ok(())
}

/// Read the colon between a key and a value, behind white space.
pub fn expect_colon<'de, P: Parser<'de>>(p: &mut P) -> (r: Result<(), ParseError>)
    ensures
        parsed(
            *old(p),
            *final(p),
            r,
            token_parsed(
                old(p).rest(),
                old(p).index(),
                Token::Colon,
                ParseErrorKind::ExpectedColon(token(old(p).rest())),
            ),
            |v: (), m: ()| true,
        ),
{
    let ghost s = p.rest();
    proof {
        p.lemma_fits();
        lemma_spaces_end(s);
    }
    let actual = peek(p)?;
    if actual != Token::Colon {
        return Err(ParseError::at(p.pos(), ParseErrorKind::ExpectedColon(actual)));
    }
    p.skip(1)?;
    assert(p.rest() =~= s.skip(spaces(s) as int + 1));
    Ok(())
}

/// Read a string that starts with its opening quote, and hand out its bytes:
/// those of the text where the string holds no escape, and else those in
/// the scratch buffer.
pub fn parse_quoted<'de, P: Parser<'de>>(p: &mut P, scratch: &mut Vec<u8>) -> (r: Result<
    StringReference<'de>,
    ParseError,
>)
    requires
        old(p).rest().len() > 0,
    ensures
        parsed(
            *old(p),
            *final(p),
            r,
            string_parsed(old(p).rest(), old(p).index()),
            |v: StringReference<'de>, m: Seq<u8>|
                match v {
                    StringReference::Borrowed(bytes) => bytes@ == m,
                    StringReference::Scratch => final(scratch)@ == m,
                },
        ),
{
    let start = p.pos();
    proof {
        p.lemma_fits();
    }
    p.skip(1)?;
    let ghost body = p.rest();
    let ghost len = body_parsed(body, p.index()).len;
    let reference = match parse_string(p, scratch) {
        Ok(reference) => reference,
        Err(e) => {
            assert(body.skip(0) =~= body);
            return Err(e);
        },
    };
    proof {
        assert(body.skip(len as int) =~= old(p).rest().skip(1 + len as int));
    }
    let valid = match reference {
        StringReference::Borrowed(bytes) => str_from_utf8(bytes).is_some(),
        StringReference::Scratch => str_from_utf8(scratch.as_slice()).is_some(),
    };
    if !valid {
        return Err(ParseError::spanned(start, p.pos(), ParseErrorKind::InvalidUtf8));
    }
    Ok(reference)
}

/// Read over a string that starts with its opening quote.
pub fn skip_string<'de, P: Parser<'de>>(p: &mut P, scratch: &mut Vec<u8>) -> (r: Result<
    (),
    ParseError,
>)
    requires
        old(p).rest().len() > 0,
    ensures
        parsed(
            *old(p),
            *final(p),
            r,
            unit(string_parsed(old(p).rest(), old(p).index())),
            |v: (), m: ()| true,
        ),
{
    match parse_quoted(p, scratch) {
        Ok(_) => Ok(()),
        Err(e) => Err(e),
    }
}

/// Read a string that starts with its opening quote, and hand it out.
pub fn decode_quoted<'de, P: Parser<'de>>(p: &mut P, scratch: &mut Vec<u8>) -> (r: Result<
    String,
    ParseError,
>)
    requires
        old(p).rest().len() > 0,
    ensures
        parsed(
            *old(p),
            *final(p),
            r,
            string_parsed(old(p).rest(), old(p).index()),
            |v: String, m: Seq<u8>| vstd::utf8::encode_utf8(v@) == m,
        ),
{
    let start = p.pos();
    let reference = parse_quoted(p, scratch)?;
    let text = match reference {
        StringReference::Borrowed(bytes) => str_from_utf8(bytes),
        StringReference::Scratch => str_from_utf8(scratch.as_slice()),
    };
    match text {
        Some(text) => Ok(text.to_owned()),
        None => Err(ParseError::spanned(start, p.pos(), ParseErrorKind::InvalidUtf8)),
    }
}

/// Read over a pair behind its key: a colon and a value.
pub fn skip_second<'de, P: Parser<'de>>(p: &mut P, scratch: &mut Vec<u8>) -> (r: Result<
    (),
    ParseError,
>)
    ensures
        parsed(
            *old(p),
            *final(p),
            r,
            second_skipped(old(p).rest(), old(p).index()),
            |v: (), m: ()| true,
        ),
    decreases old(p).rest().len(), 1nat,
{
    let ghost s = p.rest();
    proof {
        p.lemma_fits();
        lemma_second_skipped(s, p.index());
        lemma_spaces_end(s);
    }
    expect_colon(p)?;
    let ghost used = token_parsed(
        s,
        old(p).index(),
        Token::Colon,
        ParseErrorKind::ExpectedColon(token(s)),
    ).len;
    let ghost rest = p.rest();
    let r = skip_value(p, scratch);
    proof {
        let value = value_skipped(rest, at(old(p).index(), used));
        assert(rest.skip(value.len as int) =~= s.skip((used + value.len) as int));
    }
    r
}

/// Read over the values of an array and its closing bracket.
pub fn skip_array<'de, P: Parser<'de>>(p: &mut P, scratch: &mut Vec<u8>, first: bool) -> (r:
    Result<(), ParseError>)
    ensures
        parsed(
            *old(p),
            *final(p),
            r,
            array_skipped(old(p).rest(), old(p).index(), first),
            |v: (), m: ()| true,
        ),
    decreases old(p).rest().len(), 1nat,
{
    let ghost s = p.rest();
    let ghost start = p.index();
    let ghost mut consumed: nat = 0;
    let mut current = first;
    proof {
        p.lemma_fits();
        assert(s.skip(0) =~= s);
    }
    loop
        invariant
            s == old(p).rest(),
            start == old(p).index(),
            start + s.len() <= usize::MAX,
            consumed <= s.len(),
            p.rest() == s.skip(consumed as int),
            p.index() == start + consumed,
            array_skipped(s, start, first) == behind(
                consumed,
                array_skipped(p.rest(), p.index(), current),
            ),
        decreases s.len() - consumed,
    {
        let ghost rest = p.rest();
        let ghost step = array_step(rest, p.index(), current);
        proof {
            lemma_array_skipped(rest, p.index(), current);
            lemma_array_step(rest, p.index(), current);
        }
        let more = match array_next(p, current) {
            Ok(more) => more,
            Err(e) => {
                proof {
                    assert(rest.skip(step.len as int) =~= s.skip((consumed + step.len) as int));
                }
                return Err(e);
            },
        };
        proof {
            assert(rest.skip(step.len as int) =~= s.skip((consumed + step.len) as int));
        }
        if !more {
            return Ok(());
        }
        let ghost item = p.rest();
        let ghost value = value_skipped(item, p.index());
        proof {
            lemma_value_len(item, p.index());
        }
        match skip_value(p, scratch) {
            Ok(()) => {},
            Err(e) => {
                proof {
                    assert(item.skip(value.len as int) =~= s.skip(
                        (consumed + step.len + value.len) as int,
                    ));
                }
                return Err(e);
            },
        }
        proof {
            assert(item.skip(value.len as int) =~= s.skip(
                (consumed + step.len + value.len) as int,
            ));
            assert(item.skip(value.len as int) =~= rest.skip((step.len + value.len) as int));
            consumed = consumed + step.len + value.len;
        }
        current = false;
    }
}

/// Read over the pairs of an object and its closing brace.
pub fn skip_object<'de, P: Parser<'de>>(p: &mut P, scratch: &mut Vec<u8>, first: bool) -> (r:
    Result<(), ParseError>)
    ensures
        parsed(
            *old(p),
            *final(p),
            r,
            object_skipped(old(p).rest(), old(p).index(), first),
            |v: (), m: ()| true,
        ),
    decreases old(p).rest().len(), 2nat,
{
    let ghost s = p.rest();
    let ghost start = p.index();
    let ghost mut consumed: nat = 0;
    let mut current = first;
    proof {
        p.lemma_fits();
        assert(s.skip(0) =~= s);
    }
    loop
        invariant
            s == old(p).rest(),
            start == old(p).index(),
            start + s.len() <= usize::MAX,
            consumed <= s.len(),
            p.rest() == s.skip(consumed as int),
            p.index() == start + consumed,
            object_skipped(s, start, first) == behind(
                consumed,
                object_skipped(p.rest(), p.index(), current),
            ),
        decreases s.len() - consumed,
    {
        let ghost rest = p.rest();
        let ghost step = object_step(rest, p.index(), current);
        proof {
            lemma_object_skipped(rest, p.index(), current);
            lemma_object_step(rest, p.index(), current);
        }
        let more = match object_next(p, current) {
            Ok(more) => more,
            Err(e) => {
                proof {
                    assert(rest.skip(step.len as int) =~= s.skip((consumed + step.len) as int));
                }
                return Err(e);
            },
        };
        proof {
            assert(rest.skip(step.len as int) =~= s.skip((consumed + step.len) as int));
        }
        if !more {
            return Ok(());
        }
        let ghost item = p.rest();
        let ghost key = string_parsed(item, p.index());
        proof {
            lemma_object_step(rest, at(start, consumed), current);
            lemma_string_parsed(item, p.index());
        }
        match skip_string(p, scratch) {
            Ok(()) => {},
            Err(e) => {
                proof {
                    assert(item.skip(key.len as int) =~= s.skip(
                        (consumed + step.len + key.len) as int,
                    ));
                }
                return Err(e);
            },
        }
        let ghost behind_key = p.rest();
        let ghost value = second_skipped(behind_key, p.index());
        proof {
            assert(behind_key =~= rest.skip((step.len + key.len) as int));
            lemma_second_len(behind_key, p.index());
        }
        match skip_second(p, scratch) {
            Ok(()) => {},
            Err(e) => {
                proof {
                    assert(behind_key.skip(value.len as int) =~= s.skip(
                        (consumed + step.len + key.len + value.len) as int,
                    ));
                }
                return Err(e);
            },
        }
        proof {
            assert(behind_key.skip(value.len as int) =~= s.skip(
                (consumed + step.len + key.len + value.len) as int,
            ));
            assert(behind_key.skip(value.len as int) =~= rest.skip(
                (step.len + key.len + value.len) as int,
            ));
            consumed = consumed + step.len + key.len + value.len;
        }
        current = false;
    }
}

/// Read over one value of any kind.
pub fn skip_value<'de, P: Parser<'de>>(p: &mut P, scratch: &mut Vec<u8>) -> (r: Result<
    (),
    ParseError,
>)
    ensures
        parsed(
            *old(p),
            *final(p),
            r,
            value_skipped(old(p).rest(), old(p).index()),
            |v: (), m: ()| true,
        ),
    decreases old(p).rest().len(), 0nat,
{
    let ghost s = p.rest();
    let ghost w = spaces(s);
    let start = p.pos();
    proof {
        p.lemma_fits();
        lemma_spaces_end(s);
        lemma_value_skipped(s, p.index());
        lemma_value_len(s, p.index());
    }
    let actual = peek(p)?;
    let ghost body = p.rest();
    proof {
        assert(body.skip(0) =~= body);
    }
    match actual {
        Token::OpenBrace => {
            p.skip(1)?;
            let ghost inner = p.rest();
            let r = skip_object(p, scratch, true);
            proof {
                let len = object_skipped(inner, at(old(p).index(), w + 1), true).len;
                assert(inner.skip(len as int) =~= s.skip((w + 1 + len) as int));
            }
            r
        },
        Token::OpenBracket => {
            p.skip(1)?;
            let ghost inner = p.rest();
            let r = skip_array(p, scratch, true);
            proof {
                let len = array_skipped(inner, at(old(p).index(), w + 1), true).len;
                assert(inner.skip(len as int) =~= s.skip((w + 1 + len) as int));
            }
            r
        },
        Token::Null => {
            let r = parse_exact(p, NULL.as_slice(), ParseErrorKind::ExpectedNull);
            proof {
                let len = exact_parsed(
                    body,
                    at(old(p).index(), w),
                    NULL@,
                    ParseErrorKind::ExpectedNull,
                ).len;
                assert(body.skip(len as int) =~= s.skip((w + len) as int));
            }
            r
        },
        Token::True => {
            let r = parse_exact(p, TRUE.as_slice(), ParseErrorKind::ExpectedTrue);
            proof {
                let len = exact_parsed(
                    body,
                    at(old(p).index(), w),
                    TRUE@,
                    ParseErrorKind::ExpectedTrue,
                ).len;
                assert(body.skip(len as int) =~= s.skip((w + len) as int));
            }
            r
        },
        Token::False => {
            let r = parse_exact(p, FALSE.as_slice(), ParseErrorKind::ExpectedFalse);
            proof {
                let len = exact_parsed(
                    body,
                    at(old(p).index(), w),
                    FALSE@,
                    ParseErrorKind::ExpectedFalse,
                ).len;
                assert(body.skip(len as int) =~= s.skip((w + len) as int));
            }
            r
        },
        Token::Number => {
            let r = skip_number(p);
            proof {
                let len = number_skipped(body, at(old(p).index(), w)).len;
                assert(body.skip(len as int) =~= s.skip((w + len) as int));
            }
            r
        },
        Token::String => {
            let r = skip_string(p, scratch);
            proof {
                let len = string_parsed(body, at(old(p).index(), w)).len;
                assert(body.skip(len as int) =~= s.skip((w + len) as int));
            }
            r
        },
        actual => Err(
            ParseError::spanned(start, p.pos(), ParseErrorKind::ExpectedValue(actual)),
        ),
    }
}

/// What is read over as a string lies within the text.
pub proof fn lemma_string_parsed(s: Seq<u8>, index: usize)
    requires
        s.len() > 0,
    ensures
        1 <= string_parsed(s, index).len <= s.len(),
{
    crate::json::reader::string::lemma_scan_len(s.skip(1));
}

/// A step to a pair stops before the opening quote of a key.
pub proof fn lemma_object_step(s: Seq<u8>, index: usize, first: bool)
    ensures
        object_step(s, index, first).len <= s.len(),
        object_step(s, index, first).result == Ok::<bool, ParseError>(true) ==> object_step(
            s,
            index,
            first,
        ).len < s.len(),
{
    lemma_spaces_end(s);
    if spaces(s) < s.len() {
        lemma_spaces_end(s.skip(spaces(s) as int + 1));
    }
}

/// A step to a value stops within the text.
pub proof fn lemma_array_step(s: Seq<u8>, index: usize, first: bool)
    ensures
        array_step(s, index, first).len <= s.len(),
        array_step(s, index, first).result == Ok::<bool, ParseError>(true) ==> array_step(
            s,
            index,
            first,
        ).len < s.len(),
{
    lemma_spaces_end(s);
    if spaces(s) < s.len() {
        lemma_spaces_end(s.skip(spaces(s) as int + 1));
    }
}

/// One value is read over as what its first token announces.
pub proof fn lemma_value_skipped(s: Seq<u8>, index: usize)
    ensures
        value_skipped(s, index) == ({
            let w = spaces(s);
            let body = s.skip(w as int);
            let here = at(index, w);
            if w >= s.len() {
                Parsed {
                    result: Err(
                        failure(
                            ParseErrorKind::ExpectedValue(Token::Eof),
                            index as int,
                            index + w,
                        ),
                    ),
                    len: w,
                }
            } else {
                behind(
                    w,
                    match token(s) {
                        Token::OpenBrace => behind(
                            1,
                            object_skipped(body.skip(1), at(here, 1), true),
                        ),
                        Token::OpenBracket => behind(
                            1,
                            array_skipped(body.skip(1), at(here, 1), true),
                        ),
                        Token::Null => exact_parsed(
                            body,
                            here,
                            NULL@,
                            ParseErrorKind::ExpectedNull,
                        ),
                        Token::True => exact_parsed(
                            body,
                            here,
                            TRUE@,
                            ParseErrorKind::ExpectedTrue,
                        ),
                        Token::False => exact_parsed(
                            body,
                            here,
                            FALSE@,
                            ParseErrorKind::ExpectedFalse,
                        ),
                        Token::Number => number_skipped(body, here),
                        Token::String => unit(string_parsed(body, here)),
                        other => Parsed {
                            result: Err(
                                failure(
                                    ParseErrorKind::ExpectedValue(other),
                                    index as int,
                                    index + w,
                                ),
                            ),
                            len: 0,
                        },
                    },
                )
            }
        }),
{
    reveal_with_fuel(value_skipped, 1);
    reveal_with_fuel(array_skipped, 1);
    reveal_with_fuel(second_skipped, 1);
    reveal_with_fuel(object_skipped, 1);
}

/// What follows a key is read over as a colon and a value.
pub proof fn lemma_second_skipped(s: Seq<u8>, index: usize)
    ensures
        second_skipped(s, index) == ({
            let colon = token_parsed(
                s,
                index,
                Token::Colon,
                ParseErrorKind::ExpectedColon(token(s)),
            );
            match colon.result {
                Ok(_) => if colon.len <= s.len() {
                    behind(
                        colon.len,
                        value_skipped(s.skip(colon.len as int), at(index, colon.len)),
                    )
                } else {
                    Parsed { result: Ok(()), len: 0 }
                },
                Err(error) => Parsed { result: Err(error), len: colon.len },
            }
        }),
{
    reveal_with_fuel(value_skipped, 1);
    reveal_with_fuel(array_skipped, 1);
    reveal_with_fuel(second_skipped, 1);
    reveal_with_fuel(object_skipped, 1);
}

/// The rest of an array is read over by a step to the next value, the value
/// and the rest behind it.
pub proof fn lemma_array_skipped(s: Seq<u8>, index: usize, first: bool)
    ensures
        array_skipped(s, index, first) == ({
            let step = array_step(s, index, first);
            match step.result {
                Ok(true) => if step.len <= s.len() {
                    let value = value_skipped(s.skip(step.len as int), at(index, step.len));
                    match value.result {
                        Ok(_) => if 1 <= value.len <= s.len() - step.len {
                            behind(
                                step.len + value.len,
                                array_skipped(
                                    s.skip((step.len + value.len) as int),
                                    at(index, step.len + value.len),
                                    false,
                                ),
                            )
                        } else {
                            Parsed { result: Ok(()), len: 0 }
                        },
                        Err(error) => Parsed { result: Err(error), len: step.len + value.len },
                    }
                } else {
                    Parsed { result: Ok(()), len: 0 }
                },
                Ok(false) => Parsed { result: Ok(()), len: step.len },
                Err(error) => Parsed { result: Err(error), len: step.len },
            }
        }),
{
    reveal_with_fuel(value_skipped, 1);
    reveal_with_fuel(array_skipped, 1);
    reveal_with_fuel(second_skipped, 1);
    reveal_with_fuel(object_skipped, 1);
}

/// The rest of an object is read over by a step to the next pair, the key,
/// the colon with the value, and the rest behind them.
pub proof fn lemma_object_skipped(s: Seq<u8>, index: usize, first: bool)
    ensures
        object_skipped(s, index, first) == ({
            let step = object_step(s, index, first);
            match step.result {
                Ok(true) => if step.len < s.len() {
                    let key = string_parsed(s.skip(step.len as int), at(index, step.len));
                    match key.result {
                        Ok(_) => if 1 <= key.len <= s.len() - step.len {
                            let value = second_skipped(
                                s.skip((step.len + key.len) as int),
                                at(index, step.len + key.len),
                            );
                            match value.result {
                                Ok(_) => if value.len <= s.len() - step.len - key.len {
                                    behind(
                                        step.len + key.len + value.len,
                                        object_skipped(
                                            s.skip((step.len + key.len + value.len) as int),
                                            at(index, step.len + key.len + value.len),
                                            false,
                                        ),
                                    )
                                } else {
                                    Parsed { result: Ok(()), len: 0 }
                                },
                                Err(error) => Parsed {
                                    result: Err(error),
                                    len: step.len + key.len + value.len,
                                },
                            }
                        } else {
                            Parsed { result: Ok(()), len: 0 }
                        },
                        Err(error) => Parsed { result: Err(error), len: step.len + key.len },
                    }
                } else {
                    Parsed { result: Ok(()), len: 0 }
                },
                Ok(false) => Parsed { result: Ok(()), len: step.len },
                Err(error) => Parsed { result: Err(error), len: step.len },
            }
        }),
{
    reveal_with_fuel(value_skipped, 1);
    reveal_with_fuel(array_skipped, 1);
    reveal_with_fuel(second_skipped, 1);
    reveal_with_fuel(object_skipped, 1);
}

/// What is read over as the rest of an array lies within the text.
pub proof fn lemma_array_len(s: Seq<u8>, index: usize, first: bool)
    ensures
        array_skipped(s, index, first).len <= s.len(),
    decreases s.len(), 2nat,
{
    lemma_array_skipped(s, index, first);
    lemma_array_step(s, index, first);
    let step = array_step(s, index, first);
    if step.result == Ok::<bool, ParseError>(true) {
        let item = s.skip(step.len as int);
        lemma_value_len(item, at(index, step.len));
        let value = value_skipped(item, at(index, step.len));
        if value.result is Ok && 1 <= value.len <= s.len() - step.len {
            lemma_array_len(
                s.skip((step.len + value.len) as int),
                at(index, step.len + value.len),
                false,
            );
        }
    }
}

/// What is read over as the rest of an object lies within the text.
pub proof fn lemma_object_len(s: Seq<u8>, index: usize, first: bool)
    ensures
        object_skipped(s, index, first).len <= s.len(),
    decreases s.len(), 3nat,
{
    lemma_object_skipped(s, index, first);
    lemma_object_step(s, index, first);
    let step = object_step(s, index, first);
    if step.result == Ok::<bool, ParseError>(true) {
        let item = s.skip(step.len as int);
        lemma_string_parsed(item, at(index, step.len));
        let key = string_parsed(item, at(index, step.len));
        if key.result is Ok {
            let behind_key = s.skip((step.len + key.len) as int);
            lemma_second_len(behind_key, at(index, step.len + key.len));
            let value = second_skipped(behind_key, at(index, step.len + key.len));
            if value.result is Ok {
                lemma_object_len(
                    s.skip((step.len + key.len + value.len) as int),
                    at(index, step.len + key.len + value.len),
                    false,
                );
            }
        }
    }
}

/// What is read over as a colon and a value lies within the text, and is at
/// least a byte.
pub proof fn lemma_second_len(s: Seq<u8>, index: usize)
    ensures
        second_skipped(s, index).len <= s.len(),
        second_skipped(s, index).result is Ok ==> second_skipped(s, index).len >= 1,
    decreases s.len(), 1nat,
{
    lemma_second_skipped(s, index);
    lemma_spaces_end(s);
    let colon = token_parsed(s, index, Token::Colon, ParseErrorKind::ExpectedColon(token(s)));
    if colon.result is Ok {
        lemma_value_len(s.skip(colon.len as int), at(index, colon.len));
    }
}

/// What is read over as a value lies within the text, and is at least a byte.
pub proof fn lemma_value_len(s: Seq<u8>, index: usize)
    ensures
        value_skipped(s, index).len <= s.len(),
        value_skipped(s, index).result is Ok ==> value_skipped(s, index).len >= 1,
    decreases s.len(), 0nat,
{
    lemma_value_skipped(s, index);
    lemma_spaces_end(s);
    let w = spaces(s);
    if w < s.len() {
        let body = s.skip(w as int);
        let here = at(index, w);
        match token(s) {
            Token::OpenBrace => {
                lemma_object_len(body.skip(1), at(here, 1), true);
            },
            Token::OpenBracket => {
                lemma_array_len(body.skip(1), at(here, 1), true);
            },
            Token::Number => {
                crate::json::reader::integer::lemma_scanned_len(
                    body.skip(crate::json::reader::integer::sign_len(body) as int),
                );
            },
            Token::String => {
                lemma_string_parsed(body, here);
            },
            _ => {},
        }
    }
}

/// What reading a boolean comes to.
pub open spec fn bool_parsed(s: Seq<u8>, index: usize) -> Parsed<bool> {
    let w = spaces(s);
    let body = s.skip(w as int);
    let here = at(index, w);
    if token(s) == Token::True {
        let word = exact_parsed(body, here, TRUE@, ParseErrorKind::ExpectedTrue);
        Parsed {
            result: match word.result {
                Ok(_) => Ok(true),
                Err(error) => Err(error),
            },
            len: w + word.len,
        }
    } else if token(s) == Token::False {
        let word = exact_parsed(body, here, FALSE@, ParseErrorKind::ExpectedFalse);
        Parsed {
            result: match word.result {
                Ok(_) => Ok(false),
                Err(error) => Err(error),
            },
            len: w + word.len,
        }
    } else {
        Parsed {
            result: Err(failure(ParseErrorKind::ExpectedBool(token(s)), index + w, index + w)),
            len: w,
        }
    }
}

/// What reading the start of an optional value comes to: whether the value
/// is present. An absent value is written as `null`.
pub open spec fn option_parsed(s: Seq<u8>, index: usize) -> Parsed<bool> {
    let w = spaces(s);
    if token(s) == Token::Null {
        let word = exact_parsed(s.skip(w as int), at(index, w), NULL@, ParseErrorKind::ExpectedNull);
        Parsed {
            result: match word.result {
                Ok(_) => Ok(false),
                Err(error) => Err(error),
            },
            len: w + word.len,
        }
    } else {
        Parsed { result: Ok(true), len: w }
    }
}

/// What reading a string behind white space comes to: the bytes of the string.
pub open spec fn text_parsed(s: Seq<u8>, index: usize) -> Parsed<Seq<u8>> {
    let w = spaces(s);
    if token(s) == Token::String {
        behind(w, string_parsed(s.skip(w as int), at(index, w)))
    } else {
        Parsed {
            result: Err(failure(ParseErrorKind::ExpectedString(token(s)), index + w, index + w)),
            len: w,
        }
    }
}

/// What reading an unsigned number out of the string of a key comes to.
pub open spec fn key_unsigned_parsed(s: Seq<u8>, index: usize, max: nat) -> Parsed<nat> {
    let text = text_parsed(s, index);
    Parsed {
        result: match text.result {
            Ok(bytes) => unsigned_parsed(bytes, 0, max).result,
            Err(error) => Err(error),
        },
        len: text.len,
    }
}

/// What reading a signed number out of the string of a key comes to.
pub open spec fn key_signed_parsed(s: Seq<u8>, index: usize, max: nat) -> Parsed<int> {
    let text = text_parsed(s, index);
    Parsed {
        result: match text.result {
            Ok(bytes) => signed_parsed(bytes, 0, max).result,
            Err(error) => Err(error),
        },
        len: text.len,
    }
}

/// Read a boolean: `true` or `false`.
pub fn decode_boolean<'de, P: Parser<'de>>(p: &mut P) -> (r: Result<bool, ParseError>)
    ensures
        parsed(
            *old(p),
            *final(p),
            r,
            bool_parsed(old(p).rest(), old(p).index()),
            |v: bool, m: bool| v == m,
        ),
{
    let ghost s = p.rest();
    let ghost w = spaces(s);
    proof {
        p.lemma_fits();
        lemma_spaces_end(s);
    }
    let actual = peek(p)?;
    let ghost body = p.rest();
    if actual == Token::True {
        let r = parse_exact(p, TRUE.as_slice(), ParseErrorKind::ExpectedTrue);
        proof {
            let len = exact_parsed(body, p.index(), TRUE@, ParseErrorKind::ExpectedTrue).len;
            let len = exact_parsed(body, at(old(p).index(), w), TRUE@, ParseErrorKind::ExpectedTrue).len;
            assert(body.skip(len as int) =~= s.skip((w + len) as int));
        }
        r?;
        Ok(true)
    } else if actual == Token::False {
        let r = parse_exact(p, FALSE.as_slice(), ParseErrorKind::ExpectedFalse);
        proof {
            let len = exact_parsed(body, at(old(p).index(), w), FALSE@, ParseErrorKind::ExpectedFalse).len;
            assert(body.skip(len as int) =~= s.skip((w + len) as int));
        }
        r?;
        Ok(false)
    } else {
        Err(ParseError::at(p.pos(), ParseErrorKind::ExpectedBool(actual)))
    }
}

/// Read the start of an optional value, and tell whether the value is present.
pub fn decode_presence<'de, P: Parser<'de>>(p: &mut P) -> (r: Result<bool, ParseError>)
    ensures
        parsed(
            *old(p),
            *final(p),
            r,
            option_parsed(old(p).rest(), old(p).index()),
            |v: bool, m: bool| v == m,
        ),
{
    let ghost s = p.rest();
    let ghost w = spaces(s);
    proof {
        p.lemma_fits();
        lemma_spaces_end(s);
    }
    let actual = peek(p)?;
    let ghost body = p.rest();
    if actual.is_null() {
        let r = parse_exact(p, NULL.as_slice(), ParseErrorKind::ExpectedNull);
        proof {
            let len = exact_parsed(body, at(old(p).index(), w), NULL@, ParseErrorKind::ExpectedNull).len;
            assert(body.skip(len as int) =~= s.skip((w + len) as int));
        }
        r?;
        Ok(false)
    } else {
        Ok(true)
    }
}

/// Read a string behind white space, and hand out its bytes: those of the
/// text where the string holds no escape, and else those in the scratch buffer.
pub fn decode_text<'de, P: Parser<'de>>(p: &mut P, scratch: &mut Vec<u8>) -> (r: Result<
    StringReference<'de>,
    ParseError,
>)
    ensures
        parsed(
            *old(p),
            *final(p),
            r,
            text_parsed(old(p).rest(), old(p).index()),
            |v: StringReference<'de>, m: Seq<u8>|
                match v {
                    StringReference::Borrowed(bytes) => bytes@ == m,
                    StringReference::Scratch => final(scratch)@ == m,
                },
        ),
{
    let ghost s = p.rest();
    let ghost w = spaces(s);
    proof {
        p.lemma_fits();
        lemma_spaces_end(s);
    }
    let actual = peek(p)?;
    if !actual.is_string() {
        return Err(ParseError::at(p.pos(), ParseErrorKind::ExpectedString(actual)));
    }
    let ghost body = p.rest();
    let r = parse_quoted(p, scratch);
    proof {
        lemma_string_parsed(body, at(old(p).index(), w));
        let len = string_parsed(body, at(old(p).index(), w)).len;
        assert(body.skip(len as int) =~= s.skip((w + len) as int));
    }
    r
}

/// Read a string behind white space, and hand it out.
pub fn decode_owned_text<'de, P: Parser<'de>>(p: &mut P, scratch: &mut Vec<u8>) -> (r: Result<
    String,
    ParseError,
>)
    ensures
        parsed(
            *old(p),
            *final(p),
            r,
            text_parsed(old(p).rest(), old(p).index()),
            |v: String, m: Seq<u8>| vstd::utf8::encode_utf8(v@) == m,
        ),
{
    let start = p.pos();
    let reference = decode_text(p, scratch)?;
    let text = match reference {
        StringReference::Borrowed(bytes) => str_from_utf8(bytes),
        StringReference::Scratch => str_from_utf8(scratch.as_slice()),
    };
    match text {
        Some(text) => Ok(text.to_owned()),
        None => Err(ParseError::spanned(start, p.pos(), ParseErrorKind::InvalidUtf8)),
    }
}

/// Read an unsigned number behind white space.
pub fn decode_unsigned_value<'de, T: Unsigned, P: Parser<'de>>(p: &mut P) -> (r: Result<
    T,
    ParseError,
>)
    ensures
        parsed(
            *old(p),
            *final(p),
            r,
            spaced(
                old(p).rest(),
                old(p).index(),
                |s: Seq<u8>, index: usize| unsigned_parsed(s, index, T::max_value()),
            ),
            |v: T, m: nat| v.value() == m,
        ),
{
    let ghost s = p.rest();
    let ghost w = spaces(s);
    proof {
        p.lemma_fits();
        lemma_spaces_end(s);
    }
    skip_whitespace(p)?;
    let ghost body = p.rest();
    let r = parse_unsigned::<T, P>(p);
    proof {
        let len = unsigned_parsed(body, at(old(p).index(), w), T::max_value()).len;
        assert(body.skip(len as int) =~= s.skip((w + len) as int));
    }
    r
}

/// Read a signed number behind white space.
pub fn decode_signed_value<'de, T: Signed, P: Parser<'de>>(p: &mut P) -> (r: Result<
    T,
    ParseError,
>)
    ensures
        parsed(
            *old(p),
            *final(p),
            r,
            spaced(
                old(p).rest(),
                old(p).index(),
                |s: Seq<u8>, index: usize| signed_parsed(s, index, T::Unsigned::max_value()),
            ),
            |v: T, m: int| v.value() == m,
        ),
{
    let ghost s = p.rest();
    let ghost w = spaces(s);
    proof {
        p.lemma_fits();
        lemma_spaces_end(s);
    }
    skip_whitespace(p)?;
    let ghost body = p.rest();
    let r = parse_signed::<T, P>(p);
    proof {
        let len = signed_parsed(body, at(old(p).index(), w), T::Unsigned::max_value()).len;
        assert(body.skip(len as int) =~= s.skip((w + len) as int));
    }
    r
}

/// Reads an unsigned number out of the bytes of a key.
pub struct KeyUnsignedVisitor<T> {
    marker: PhantomData<T>,
}

impl<T: Unsigned> KeyUnsignedVisitor<T> {
    /// A reader of unsigned numbers out of keys.
    pub fn new() -> Self {
        Self { marker: PhantomData }
    }

    /// Read the number that the bytes start with.
    #[inline]
    pub fn visit_any(self, bytes: &[u8]) -> (r: Result<T, ParseError>)
        ensures
            match unsigned_parsed(bytes@, 0, T::max_value()).result {
                Ok(value) => (r matches Ok(v) && v.value() == value),
                Err(error) => r == Err::<T, _>(error),
            },
    {
        let mut parser = SliceParser::new(bytes);
        parse_unsigned::<T, _>(&mut parser)
    }
}

/// Reads a signed number out of the bytes of a key.
pub struct KeySignedVisitor<T> {
    marker: PhantomData<T>,
}

impl<T: Signed> KeySignedVisitor<T> {
    /// A reader of signed numbers out of keys.
    pub fn new() -> Self {
        Self { marker: PhantomData }
    }

    /// Read the number that the bytes start with.
    #[inline]
    pub fn visit_any(self, bytes: &[u8]) -> (r: Result<T, ParseError>)
        ensures
            match signed_parsed(bytes@, 0, T::Unsigned::max_value()).result {
                Ok(value) => (r matches Ok(v) && v.value() == value),
                Err(error) => r == Err::<T, _>(error),
            },
    {
        let mut parser = SliceParser::new(bytes);
        parse_signed::<T, _>(&mut parser)
    }
}

/// Read an unsigned number out of the string of a key.
pub fn decode_unsigned_key<'de, T: Unsigned, P: Parser<'de>>(
    p: &mut P,
    scratch: &mut Vec<u8>,
) -> (r: Result<T, ParseError>)
    ensures
        parsed(
            *old(p),
            *final(p),
            r,
            key_unsigned_parsed(old(p).rest(), old(p).index(), T::max_value()),
            |v: T, m: nat| v.value() == m,
        ),
{
    match decode_text(p, scratch)? {
        StringReference::Borrowed(bytes) => KeyUnsignedVisitor::<T>::new().visit_any(bytes),
        StringReference::Scratch => KeyUnsignedVisitor::<T>::new().visit_any(scratch.as_slice()),
    }
}

/// Read a signed number out of the string of a key.
pub fn decode_signed_key<'de, T: Signed, P: Parser<'de>>(p: &mut P, scratch: &mut Vec<u8>) -> (r:
    Result<T, ParseError>)
    ensures
        parsed(
            *old(p),
            *final(p),
            r,
            key_signed_parsed(old(p).rest(), old(p).index(), T::Unsigned::max_value()),
            |v: T, m: int| v.value() == m,
        ),
{
    match decode_text(p, scratch)? {
        StringReference::Borrowed(bytes) => KeySignedVisitor::<T>::new().visit_any(bytes),
        StringReference::Scratch => KeySignedVisitor::<T>::new().visit_any(scratch.as_slice()),
    }
}

/// A JSON decoder, for one value.
pub struct JsonDecoder<'a, P> {
    /// Where strings that hold escapes are put together.
    pub scratch: &'a mut Vec<u8>,
    /// Where the value is read from.
    pub parser: &'a mut P,
}

/// A JSON object key decoder.
pub struct JsonKeyDecoder<'a, P> {
    /// Where strings that hold escapes are put together.
    pub scratch: &'a mut Vec<u8>,
    /// Where the key is read from.
    pub parser: &'a mut P,
}

/// A decoder for the pairs of a JSON object.
pub struct JsonObjectDecoder<'a, P> {
    /// Where strings that hold escapes are put together.
    pub scratch: &'a mut Vec<u8>,
    /// Whether no pair was stepped to yet.
    pub first: bool,
    /// The number of pairs that the caller expects, if it expects a number.
    pub len: Option<usize>,
    /// Where the pairs are read from.
    pub parser: &'a mut P,
}

/// A decoder for the key and the value of a pair of a JSON object.
pub struct JsonObjectPairDecoder<'a, P> {
    /// Where strings that hold escapes are put together.
    pub scratch: &'a mut Vec<u8>,
    /// Where the pair is read from.
    pub parser: &'a mut P,
}

/// A decoder for the values of a JSON array.
pub struct JsonSequenceDecoder<'a, P> {
    /// Where strings that hold escapes are put together.
    pub scratch: &'a mut Vec<u8>,
    /// The number of values that the caller expects, if it expects a number.
    pub len: Option<usize>,
    /// Whether no value was stepped to yet.
    pub first: bool,
    /// Where the values are read from.
    pub parser: &'a mut P,
}

impl<'a, 'de, P: Parser<'de>> JsonDecoder<'a, P> {
    /// Construct a new decoder of one value.
    #[inline]
    pub fn new(scratch: &'a mut Vec<u8>, parser: &'a mut P) -> (decoder: Self)
        ensures
            *decoder.parser == *old(parser),
            *final(decoder.parser) == *final(parser),
    {
        Self { scratch, parser }
    }

    /// Skip over any values.
    pub fn skip_any(self) -> (r: Result<(), ParseError>)
        ensures
            parsed(
                *old(self.parser),
                *final(self.parser),
                r,
                value_skipped(old(self.parser).rest(), old(self.parser).index()),
                |v: (), m: ()| true,
            ),
    {
        skip_value(self.parser, self.scratch)
    }

    /// Read `true`.
    #[inline]
    pub fn parse_true(self) -> (r: Result<(), ParseError>)
        ensures
            parsed(
                *old(self.parser),
                *final(self.parser),
                r,
                exact_parsed(
                    old(self.parser).rest(),
                    old(self.parser).index(),
                    TRUE@,
                    ParseErrorKind::ExpectedTrue,
                ),
                |v: (), m: ()| true,
            ),
    {
        parse_exact(self.parser, TRUE.as_slice(), ParseErrorKind::ExpectedTrue)
    }

    /// Read `false`.
    #[inline]
    pub fn parse_false(self) -> (r: Result<(), ParseError>)
        ensures
            parsed(
                *old(self.parser),
                *final(self.parser),
                r,
                exact_parsed(
                    old(self.parser).rest(),
                    old(self.parser).index(),
                    FALSE@,
                    ParseErrorKind::ExpectedFalse,
                ),
                |v: (), m: ()| true,
            ),
    {
        parse_exact(self.parser, FALSE.as_slice(), ParseErrorKind::ExpectedFalse)
    }

    /// Read `null`.
    #[inline]
    pub fn parse_null(self) -> (r: Result<(), ParseError>)
        ensures
            parsed(
                *old(self.parser),
                *final(self.parser),
                r,
                exact_parsed(
                    old(self.parser).rest(),
                    old(self.parser).index(),
                    NULL@,
                    ParseErrorKind::ExpectedNull,
                ),
                |v: (), m: ()| true,
            ),
    {
        parse_exact(self.parser, NULL.as_slice(), ParseErrorKind::ExpectedNull)
    }

    /// Decode a unit: whatever value there is, it is skipped.
    #[inline]
    pub fn decode_unit(self) -> (r: Result<(), ParseError>)
        ensures
            parsed(
                *old(self.parser),
                *final(self.parser),
                r,
                value_skipped(old(self.parser).rest(), old(self.parser).index()),
                |v: (), m: ()| true,
            ),
    {
        self.skip_any()
    }

    /// Decode a unit struct: whatever value there is, it is skipped.
    #[inline]
    pub fn decode_unit_struct(self) -> (r: Result<(), ParseError>)
        ensures
            parsed(
                *old(self.parser),
                *final(self.parser),
                r,
                value_skipped(old(self.parser).rest(), old(self.parser).index()),
                |v: (), m: ()| true,
            ),
    {
        self.skip_any()
    }

    /// Decode a boolean.
    #[inline]
    pub fn decode_bool(self) -> (r: Result<bool, ParseError>)
        ensures
            parsed(
                *old(self.parser),
                *final(self.parser),
                r,
                bool_parsed(old(self.parser).rest(), old(self.parser).index()),
                |v: bool, m: bool| v == m,
            ),
    {
        decode_boolean(self.parser)
    }

    /// Decode a string.
    #[inline]
    pub fn decode_owned_string(self) -> (r: Result<String, ParseError>)
        ensures
            parsed(
                *old(self.parser),
                *final(self.parser),
                r,
                text_parsed(old(self.parser).rest(), old(self.parser).index()),
                |v: String, m: Seq<u8>| vstd::utf8::encode_utf8(v@) == m,
            ),
    {
        decode_owned_text(self.parser, self.scratch)
    }

    /// Decode an optional value: nothing where it is `null`, the decoder of
    /// the value otherwise.
    #[inline]
    pub fn decode_option(self) -> (r: Result<Option<JsonDecoder<'a, P>>, ParseError>)
        ensures
            option_parsed(old(self.parser).rest(), old(self.parser).index()).len <= old(
                self.parser,
            ).rest().len(),
            match option_parsed(old(self.parser).rest(), old(self.parser).index()).result {
                Ok(present) => (r matches Ok(some) && some is Some == present && (
                some matches Some(d) ==> stands(
                    *old(self.parser),
                    *d.parser,
                    option_parsed(old(self.parser).rest(), old(self.parser).index()).len,
                ) && *final(d.parser) == *final(self.parser)) && (some is None ==> stands(
                    *old(self.parser),
                    *final(self.parser),
                    option_parsed(old(self.parser).rest(), old(self.parser).index()).len,
                ))),
                Err(error) => r matches Err(e) && e == error,
            },
    {
        if decode_presence(self.parser)? {
            Ok(Some(self))
        } else {
            Ok(None)
        }
    }

    /// Decode an 8-bit unsigned integer.
    #[inline]
    pub fn decode_u8(self) -> (r: Result<u8, ParseError>)
        ensures
            parsed(
                *old(self.parser),
                *final(self.parser),
                r,
                spaced(
                    old(self.parser).rest(),
                    old(self.parser).index(),
                    |s: Seq<u8>, index: usize|
                        unsigned_parsed(s, index, <u8 as Unsigned>::max_value()),
                ),
                |v: u8, m: nat| v == m,
            ),
    {
        decode_unsigned_value::<u8, P>(self.parser)
    }

    /// Decode a 16-bit unsigned integer.
    #[inline]
    pub fn decode_u16(self) -> (r: Result<u16, ParseError>)
        ensures
            parsed(
                *old(self.parser),
                *final(self.parser),
                r,
                spaced(
                    old(self.parser).rest(),
                    old(self.parser).index(),
                    |s: Seq<u8>, index: usize|
                        unsigned_parsed(s, index, <u16 as Unsigned>::max_value()),
                ),
                |v: u16, m: nat| v == m,
            ),
    {
        decode_unsigned_value::<u16, P>(self.parser)
    }

    /// Decode a 32-bit unsigned integer.
    #[inline]
    pub fn decode_u32(self) -> (r: Result<u32, ParseError>)
        ensures
            parsed(
                *old(self.parser),
                *final(self.parser),
                r,
                spaced(
                    old(self.parser).rest(),
                    old(self.parser).index(),
                    |s: Seq<u8>, index: usize|
                        unsigned_parsed(s, index, <u32 as Unsigned>::max_value()),
                ),
                |v: u32, m: nat| v == m,
            ),
    {
        decode_unsigned_value::<u32, P>(self.parser)
    }

    /// Decode a 64-bit unsigned integer.
    #[inline]
    pub fn decode_u64(self) -> (r: Result<u64, ParseError>)
        ensures
            parsed(
                *old(self.parser),
                *final(self.parser),
                r,
                spaced(
                    old(self.parser).rest(),
                    old(self.parser).index(),
                    |s: Seq<u8>, index: usize|
                        unsigned_parsed(s, index, <u64 as Unsigned>::max_value()),
                ),
                |v: u64, m: nat| v == m,
            ),
    {
        decode_unsigned_value::<u64, P>(self.parser)
    }

    /// Decode a 128-bit unsigned integer.
    #[inline]
    pub fn decode_u128(self) -> (r: Result<u128, ParseError>)
        ensures
            parsed(
                *old(self.parser),
                *final(self.parser),
                r,
                spaced(
                    old(self.parser).rest(),
                    old(self.parser).index(),
                    |s: Seq<u8>, index: usize|
                        unsigned_parsed(s, index, <u128 as Unsigned>::max_value()),
                ),
                |v: u128, m: nat| v == m,
            ),
    {
        decode_unsigned_value::<u128, P>(self.parser)
    }

    /// Decode a pointer-sized unsigned integer.
    #[inline]
    pub fn decode_usize(self) -> (r: Result<usize, ParseError>)
        ensures
            parsed(
                *old(self.parser),
                *final(self.parser),
                r,
                spaced(
                    old(self.parser).rest(),
                    old(self.parser).index(),
                    |s: Seq<u8>, index: usize|
                        unsigned_parsed(s, index, <usize as Unsigned>::max_value()),
                ),
                |v: usize, m: nat| v == m,
            ),
    {
        decode_unsigned_value::<usize, P>(self.parser)
    }

    /// Decode an 8-bit signed integer.
    #[inline]
    pub fn decode_i8(self) -> (r: Result<i8, ParseError>)
        ensures
            parsed(
                *old(self.parser),
                *final(self.parser),
                r,
                spaced(
                    old(self.parser).rest(),
                    old(self.parser).index(),
                    |s: Seq<u8>, index: usize|
                        signed_parsed(s, index, <u8 as Unsigned>::max_value()),
                ),
                |v: i8, m: int| v == m,
            ),
    {
        decode_signed_value::<i8, P>(self.parser)
    }

    /// Decode a 16-bit signed integer.
    #[inline]
    pub fn decode_i16(self) -> (r: Result<i16, ParseError>)
        ensures
            parsed(
                *old(self.parser),
                *final(self.parser),
                r,
                spaced(
                    old(self.parser).rest(),
                    old(self.parser).index(),
                    |s: Seq<u8>, index: usize|
                        signed_parsed(s, index, <u16 as Unsigned>::max_value()),
                ),
                |v: i16, m: int| v == m,
            ),
    {
        decode_signed_value::<i16, P>(self.parser)
    }

    /// Decode a 32-bit signed integer.
    #[inline]
    pub fn decode_i32(self) -> (r: Result<i32, ParseError>)
        ensures
            parsed(
                *old(self.parser),
                *final(self.parser),
                r,
                spaced(
                    old(self.parser).rest(),
                    old(self.parser).index(),
                    |s: Seq<u8>, index: usize|
                        signed_parsed(s, index, <u32 as Unsigned>::max_value()),
                ),
                |v: i32, m: int| v == m,
            ),
    {
        decode_signed_value::<i32, P>(self.parser)
    }

    /// Decode a 64-bit signed integer.
    #[inline]
    pub fn decode_i64(self) -> (r: Result<i64, ParseError>)
        ensures
            parsed(
                *old(self.parser),
                *final(self.parser),
                r,
                spaced(
                    old(self.parser).rest(),
                    old(self.parser).index(),
                    |s: Seq<u8>, index: usize|
                        signed_parsed(s, index, <u64 as Unsigned>::max_value()),
                ),
                |v: i64, m: int| v == m,
            ),
    {
        decode_signed_value::<i64, P>(self.parser)
    }

    /// Decode a 128-bit signed integer.
    #[inline]
    pub fn decode_i128(self) -> (r: Result<i128, ParseError>)
        ensures
            parsed(
                *old(self.parser),
                *final(self.parser),
                r,
                spaced(
                    old(self.parser).rest(),
                    old(self.parser).index(),
                    |s: Seq<u8>, index: usize|
                        signed_parsed(s, index, <u128 as Unsigned>::max_value()),
                ),
                |v: i128, m: int| v == m,
            ),
    {
        decode_signed_value::<i128, P>(self.parser)
    }

    /// Decode a pointer-sized signed integer.
    #[inline]
    pub fn decode_isize(self) -> (r: Result<isize, ParseError>)
        ensures
            parsed(
                *old(self.parser),
                *final(self.parser),
                r,
                spaced(
                    old(self.parser).rest(),
                    old(self.parser).index(),
                    |s: Seq<u8>, index: usize|
                        signed_parsed(s, index, <usize as Unsigned>::max_value()),
                ),
                |v: isize, m: int| v == m,
            ),
    {
        decode_signed_value::<isize, P>(self.parser)
    }

    /// Decode a sequence: the decoder of the values of an array.
    #[inline]
    pub fn decode_sequence(self) -> (r: Result<JsonSequenceDecoder<'a, P>, ParseError>)
        ensures
            match token_parsed(
                old(self.parser).rest(),
                old(self.parser).index(),
                Token::OpenBracket,
                ParseErrorKind::ExpectedOpenBracket(token(old(self.parser).rest())),
            ).result {
                Ok(_) => (r matches Ok(d) && d.first && d.len == None::<usize> && stands(
                    *old(self.parser),
                    *d.parser,
                    spaces(old(self.parser).rest()) + 1,
                ) && *final(d.parser) == *final(self.parser)),
                Err(error) => r matches Err(e) && e == error,
            },
    {
        JsonSequenceDecoder::new(self.scratch, None::<usize>, self.parser)
    }

    /// Decode a tuple: the decoder of the values of an array.
    #[inline]
    pub fn decode_tuple(self, len: usize) -> (r: Result<JsonSequenceDecoder<'a, P>, ParseError>)
        ensures
            match token_parsed(
                old(self.parser).rest(),
                old(self.parser).index(),
                Token::OpenBracket,
                ParseErrorKind::ExpectedOpenBracket(token(old(self.parser).rest())),
            ).result {
                Ok(_) => (r matches Ok(d) && d.first && d.len == Some(len) && stands(
                    *old(self.parser),
                    *d.parser,
                    spaces(old(self.parser).rest()) + 1,
                ) && *final(d.parser) == *final(self.parser)),
                Err(error) => r matches Err(e) && e == error,
            },
    {
        JsonSequenceDecoder::new(self.scratch, Some(len), self.parser)
    }

    /// Decode a map: the decoder of the pairs of an object.
    #[inline]
    pub fn decode_map(self) -> (r: Result<JsonObjectDecoder<'a, P>, ParseError>)
        ensures
            match token_parsed(
                old(self.parser).rest(),
                old(self.parser).index(),
                Token::OpenBrace,
                ParseErrorKind::ExpectedOpenBrace(token(old(self.parser).rest())),
            ).result {
                Ok(_) => (r matches Ok(d) && d.first && d.len == None::<usize> && stands(
                    *old(self.parser),
                    *d.parser,
                    spaces(old(self.parser).rest()) + 1,
                ) && *final(d.parser) == *final(self.parser)),
                Err(error) => r matches Err(e) && e == error,
            },
    {
        JsonObjectDecoder::new(self.scratch, None::<usize>, self.parser)
    }

    /// Decode a struct: the decoder of the pairs of an object.
    #[inline]
    pub fn decode_struct(self, len: usize) -> (r: Result<JsonObjectDecoder<'a, P>, ParseError>)
        ensures
            match token_parsed(
                old(self.parser).rest(),
                old(self.parser).index(),
                Token::OpenBrace,
                ParseErrorKind::ExpectedOpenBrace(token(old(self.parser).rest())),
            ).result {
                Ok(_) => (r matches Ok(d) && d.first && d.len == Some(len) && stands(
                    *old(self.parser),
                    *d.parser,
                    spaces(old(self.parser).rest()) + 1,
                ) && *final(d.parser) == *final(self.parser)),
                Err(error) => r matches Err(e) && e == error,
            },
    {
        JsonObjectDecoder::new(self.scratch, Some(len), self.parser)
    }

    /// Decode a tuple struct: the decoder of the pairs of an object, whose keys are the indices of the fields.
    #[inline]
    pub fn decode_tuple_struct(self, len: usize) -> (r: Result<JsonObjectDecoder<'a, P>, ParseError>)
        ensures
            match token_parsed(
                old(self.parser).rest(),
                old(self.parser).index(),
                Token::OpenBrace,
                ParseErrorKind::ExpectedOpenBrace(token(old(self.parser).rest())),
            ).result {
                Ok(_) => (r matches Ok(d) && d.first && d.len == Some(len) && stands(
                    *old(self.parser),
                    *d.parser,
                    spaces(old(self.parser).rest()) + 1,
                ) && *final(d.parser) == *final(self.parser)),
                Err(error) => r matches Err(e) && e == error,
            },
    {
        JsonObjectDecoder::new(self.scratch, Some(len), self.parser)
    }

}

/// Whether the parser `after` stands `len` bytes behind the parser `before`.
pub open spec fn stands<'de, P: Parser<'de>>(before: P, after: P, len: nat) -> bool {
    &&& len <= before.rest().len()
    &&& after.rest() == before.rest().skip(len as int)
    &&& after.index() == before.index() + len
}

impl<'a, 'de, P: Parser<'de>> JsonKeyDecoder<'a, P> {
    /// Construct a new decoder of one key.
    #[inline]
    pub fn new(scratch: &'a mut Vec<u8>, parser: &'a mut P) -> (decoder: Self)
        ensures
            *decoder.parser == *old(parser),
            *final(decoder.parser) == *final(parser),
    {
        Self { scratch, parser }
    }

    /// Skip over the key.
    pub fn skip_any(self) -> (r: Result<(), ParseError>)
        ensures
            parsed(
                *old(self.parser),
                *final(self.parser),
                r,
                value_skipped(old(self.parser).rest(), old(self.parser).index()),
                |v: (), m: ()| true,
            ),
    {
        JsonDecoder::new(self.scratch, self.parser).skip_any()
    }

    /// Decode the bytes that the string of the key stands for.
    #[inline]
    pub fn decode_escaped_bytes(self) -> (r: Result<Vec<u8>, ParseError>)
        ensures
            parsed(
                *old(self.parser),
                *final(self.parser),
                r,
                text_parsed(old(self.parser).rest(), old(self.parser).index()),
                |v: Vec<u8>, m: Seq<u8>| v@ == m,
            ),
    {
        match decode_text(self.parser, self.scratch)? {
            StringReference::Borrowed(bytes) => {
                let mut out = Vec::new();
                out.extend_from_slice(bytes);
                assert(out@ =~= bytes@);
                Ok(out)
            },
            StringReference::Scratch => {
                let mut out = Vec::new();
                out.extend_from_slice(self.scratch.as_slice());
                assert(out@ =~= self.scratch@);
                Ok(out)
            },
        }
    }

    /// Decode the key as a string.
    #[inline]
    pub fn decode_owned_string(self) -> (r: Result<String, ParseError>)
        ensures
            parsed(
                *old(self.parser),
                *final(self.parser),
                r,
                text_parsed(old(self.parser).rest(), old(self.parser).index()),
                |v: String, m: Seq<u8>| vstd::utf8::encode_utf8(v@) == m,
            ),
    {
        JsonDecoder::new(self.scratch, self.parser).decode_owned_string()
    }

    /// Decode an 8-bit unsigned integer.
    #[inline]
    pub fn decode_u8(self) -> (r: Result<u8, ParseError>)
        ensures
            parsed(
                *old(self.parser),
                *final(self.parser),
                r,
                key_unsigned_parsed(
                    old(self.parser).rest(),
                    old(self.parser).index(),
                    <u8 as Unsigned>::max_value(),
                ),
                |v: u8, m: nat| v == m,
            ),
    {
        decode_unsigned_key::<u8, P>(self.parser, self.scratch)
    }

    /// Decode a 16-bit unsigned integer.
    #[inline]
    pub fn decode_u16(self) -> (r: Result<u16, ParseError>)
        ensures
            parsed(
                *old(self.parser),
                *final(self.parser),
                r,
                key_unsigned_parsed(
                    old(self.parser).rest(),
                    old(self.parser).index(),
                    <u16 as Unsigned>::max_value(),
                ),
                |v: u16, m: nat| v == m,
            ),
    {
        decode_unsigned_key::<u16, P>(self.parser, self.scratch)
    }

    /// Decode a 32-bit unsigned integer.
    #[inline]
    pub fn decode_u32(self) -> (r: Result<u32, ParseError>)
        ensures
            parsed(
                *old(self.parser),
                *final(self.parser),
                r,
                key_unsigned_parsed(
                    old(self.parser).rest(),
                    old(self.parser).index(),
                    <u32 as Unsigned>::max_value(),
                ),
                |v: u32, m: nat| v == m,
            ),
    {
        decode_unsigned_key::<u32, P>(self.parser, self.scratch)
    }

    /// Decode a 64-bit unsigned integer.
    #[inline]
    pub fn decode_u64(self) -> (r: Result<u64, ParseError>)
        ensures
            parsed(
                *old(self.parser),
                *final(self.parser),
                r,
                key_unsigned_parsed(
                    old(self.parser).rest(),
                    old(self.parser).index(),
                    <u64 as Unsigned>::max_value(),
                ),
                |v: u64, m: nat| v == m,
            ),
    {
        decode_unsigned_key::<u64, P>(self.parser, self.scratch)
    }

    /// Decode a 128-bit unsigned integer.
    #[inline]
    pub fn decode_u128(self) -> (r: Result<u128, ParseError>)
        ensures
            parsed(
                *old(self.parser),
                *final(self.parser),
                r,
                key_unsigned_parsed(
                    old(self.parser).rest(),
                    old(self.parser).index(),
                    <u128 as Unsigned>::max_value(),
                ),
                |v: u128, m: nat| v == m,
            ),
    {
        decode_unsigned_key::<u128, P>(self.parser, self.scratch)
    }

    /// Decode a pointer-sized unsigned integer.
    #[inline]
    pub fn decode_usize(self) -> (r: Result<usize, ParseError>)
        ensures
            parsed(
                *old(self.parser),
                *final(self.parser),
                r,
                key_unsigned_parsed(
                    old(self.parser).rest(),
                    old(self.parser).index(),
                    <usize as Unsigned>::max_value(),
                ),
                |v: usize, m: nat| v == m,
            ),
    {
        decode_unsigned_key::<usize, P>(self.parser, self.scratch)
    }

    /// Decode an 8-bit signed integer.
    #[inline]
    pub fn decode_i8(self) -> (r: Result<i8, ParseError>)
        ensures
            parsed(
                *old(self.parser),
                *final(self.parser),
                r,
                key_signed_parsed(
                    old(self.parser).rest(),
                    old(self.parser).index(),
                    <u8 as Unsigned>::max_value(),
                ),
                |v: i8, m: int| v == m,
            ),
    {
        decode_signed_key::<i8, P>(self.parser, self.scratch)
    }

    /// Decode a 16-bit signed integer.
    #[inline]
    pub fn decode_i16(self) -> (r: Result<i16, ParseError>)
        ensures
            parsed(
                *old(self.parser),
                *final(self.parser),
                r,
                key_signed_parsed(
                    old(self.parser).rest(),
                    old(self.parser).index(),
                    <u16 as Unsigned>::max_value(),
                ),
                |v: i16, m: int| v == m,
            ),
    {
        decode_signed_key::<i16, P>(self.parser, self.scratch)
    }

    /// Decode a 32-bit signed integer.
    #[inline]
    pub fn decode_i32(self) -> (r: Result<i32, ParseError>)
        ensures
            parsed(
                *old(self.parser),
                *final(self.parser),
                r,
                key_signed_parsed(
                    old(self.parser).rest(),
                    old(self.parser).index(),
                    <u32 as Unsigned>::max_value(),
                ),
                |v: i32, m: int| v == m,
            ),
    {
        decode_signed_key::<i32, P>(self.parser, self.scratch)
    }

    /// Decode a 64-bit signed integer.
    #[inline]
    pub fn decode_i64(self) -> (r: Result<i64, ParseError>)
        ensures
            parsed(
                *old(self.parser),
                *final(self.parser),
                r,
                key_signed_parsed(
                    old(self.parser).rest(),
                    old(self.parser).index(),
                    <u64 as Unsigned>::max_value(),
                ),
                |v: i64, m: int| v == m,
            ),
    {
        decode_signed_key::<i64, P>(self.parser, self.scratch)
    }

    /// Decode a 128-bit signed integer.
    #[inline]
    pub fn decode_i128(self) -> (r: Result<i128, ParseError>)
        ensures
            parsed(
                *old(self.parser),
                *final(self.parser),
                r,
                key_signed_parsed(
                    old(self.parser).rest(),
                    old(self.parser).index(),
                    <u128 as Unsigned>::max_value(),
                ),
                |v: i128, m: int| v == m,
            ),
    {
        decode_signed_key::<i128, P>(self.parser, self.scratch)
    }

    /// Decode a pointer-sized signed integer.
    #[inline]
    pub fn decode_isize(self) -> (r: Result<isize, ParseError>)
        ensures
            parsed(
                *old(self.parser),
                *final(self.parser),
                r,
                key_signed_parsed(
                    old(self.parser).rest(),
                    old(self.parser).index(),
                    <usize as Unsigned>::max_value(),
                ),
                |v: isize, m: int| v == m,
            ),
    {
        decode_signed_key::<isize, P>(self.parser, self.scratch)
    }

}

impl<'a, 'de, P: Parser<'de>> JsonSequenceDecoder<'a, P> {
    /// Read the opening bracket of an array, and hand out the decoder of its values.
    #[inline]
    pub fn new(scratch: &'a mut Vec<u8>, len: Option<usize>, parser: &'a mut P) -> (r: Result<
        Self,
        ParseError,
    >)
        ensures
            match token_parsed(
                old(parser).rest(),
                old(parser).index(),
                Token::OpenBracket,
                ParseErrorKind::ExpectedOpenBracket(token(old(parser).rest())),
            ).result {
                Ok(_) => (r matches Ok(d) && d.first && d.len == len && stands(
                    *old(parser),
                    *d.parser,
                    spaces(old(parser).rest()) + 1,
                ) && *final(d.parser) == *final(parser)),
                Err(error) => r matches Err(e) && e == error,
            },
    {
        proof {
            lemma_spaces_end(parser.rest());
        }
        open_array(parser)?;
        Ok(Self { scratch, len, first: true, parser })
    }

    /// The number of values that the caller expects, if it expects a number.
    #[inline]
    pub fn size_hint(&self) -> (r: Option<usize>)
        ensures
            r == self.len,
    {
        self.len
    }

    /// The decoder of the next value, unless the array ends.
    pub fn next(&mut self) -> (r: Result<Option<JsonDecoder<'_, P>>, ParseError>)
        ensures
            array_step(
                old(self).parser.rest(),
                old(self).parser.index(),
                old(self).first,
            ).len <= old(self).parser.rest().len(),
            match array_step(
                old(self).parser.rest(),
                old(self).parser.index(),
                old(self).first,
            ).result {
                Ok(true) => (r matches Ok(Some(d)) && stands(
                    *old(self).parser,
                    *d.parser,
                    array_step(
                        old(self).parser.rest(),
                        old(self).parser.index(),
                        old(self).first,
                    ).len,
                ) && *final(self).parser == *final(d.parser)),
                Ok(false) => (r matches Ok(None) && stands(
                    *old(self).parser,
                    *final(self).parser,
                    array_step(
                        old(self).parser.rest(),
                        old(self).parser.index(),
                        old(self).first,
                    ).len,
                )),
                Err(error) => r matches Err(e) && e == error,
            },
            !final(self).first,
            final(self).len == old(self).len,
            *final(final(self).parser) == *final(old(self).parser),
    {
        let first = self.first;
        self.first = false;
        if array_next(&mut *self.parser, first)? {
            Ok(Some(JsonDecoder { scratch: &mut *self.scratch, parser: &mut *self.parser }))
        } else {
            Ok(None)
        }
    }

    /// The decoder of the next value of a pack, which an array that ends is short of.
    pub fn next_packed(&mut self) -> (r: Result<JsonDecoder<'_, P>, ParseError>)
        ensures
            match array_step(
                old(self).parser.rest(),
                old(self).parser.index(),
                old(self).first,
            ).result {
                Ok(true) => (r matches Ok(d) && stands(
                    *old(self).parser,
                    *d.parser,
                    array_step(
                        old(self).parser.rest(),
                        old(self).parser.index(),
                        old(self).first,
                    ).len,
                ) && *final(self).parser == *final(d.parser)),
                Ok(false) => (r matches Err(e) && e.kind == ParseErrorKind::ShortArray),
                Err(error) => r matches Err(e) && e == error,
            },
            !final(self).first,
            *final(final(self).parser) == *final(old(self).parser),
    {
        let first = self.first;
        self.first = false;
        if array_next(&mut *self.parser, first)? {
            Ok(JsonDecoder { scratch: &mut *self.scratch, parser: &mut *self.parser })
        } else {
            Err(ParseError::at(self.parser.pos(), ParseErrorKind::ShortArray))
        }
    }
}

impl<'a, 'de, P: Parser<'de>> JsonObjectDecoder<'a, P> {
    /// Read the opening brace of an object, and hand out the decoder of its pairs.
    #[inline]
    pub fn new(scratch: &'a mut Vec<u8>, len: Option<usize>, parser: &'a mut P) -> (r: Result<
        Self,
        ParseError,
    >)
        ensures
            match token_parsed(
                old(parser).rest(),
                old(parser).index(),
                Token::OpenBrace,
                ParseErrorKind::ExpectedOpenBrace(token(old(parser).rest())),
            ).result {
                Ok(_) => (r matches Ok(d) && d.first && d.len == len && stands(
                    *old(parser),
                    *d.parser,
                    spaces(old(parser).rest()) + 1,
                ) && *final(d.parser) == *final(parser)),
                Err(error) => r matches Err(e) && e == error,
            },
    {
        proof {
            lemma_spaces_end(parser.rest());
        }
        open_object(parser)?;
        Ok(Self { scratch, first: true, len, parser })
    }

    /// The number of pairs that the caller expects, if it expects a number.
    #[inline]
    pub fn size_hint(&self) -> (r: Option<usize>)
        ensures
            r == self.len,
    {
        self.len
    }

    /// The decoder of the next pair, unless the object ends.
    pub fn next(&mut self) -> (r: Result<Option<JsonObjectPairDecoder<'_, P>>, ParseError>)
        ensures
            object_step(
                old(self).parser.rest(),
                old(self).parser.index(),
                old(self).first,
            ).len <= old(self).parser.rest().len(),
            match object_step(
                old(self).parser.rest(),
                old(self).parser.index(),
                old(self).first,
            ).result {
                Ok(true) => (r matches Ok(Some(d)) && stands(
                    *old(self).parser,
                    *d.parser,
                    object_step(
                        old(self).parser.rest(),
                        old(self).parser.index(),
                        old(self).first,
                    ).len,
                ) && *final(self).parser == *final(d.parser)),
                Ok(false) => (r matches Ok(None) && stands(
                    *old(self).parser,
                    *final(self).parser,
                    object_step(
                        old(self).parser.rest(),
                        old(self).parser.index(),
                        old(self).first,
                    ).len,
                )),
                Err(error) => r matches Err(e) && e == error,
            },
            !final(self).first,
            final(self).len == old(self).len,
            *final(final(self).parser) == *final(old(self).parser),
    {
        let first = self.first;
        self.first = false;
        if object_next(&mut *self.parser, first)? {
            Ok(
                Some(
                    JsonObjectPairDecoder {
                        scratch: &mut *self.scratch,
                        parser: &mut *self.parser,
                    },
                ),
            )
        } else {
            Ok(None)
        }
    }
}

impl<'a, 'de, P: Parser<'de>> JsonObjectPairDecoder<'a, P> {
    /// Construct a new decoder of one pair.
    #[inline]
    pub fn new(scratch: &'a mut Vec<u8>, parser: &'a mut P) -> (decoder: Self)
        ensures
            *decoder.parser == *old(parser),
            *final(decoder.parser) == *final(parser),
    {
        Self { scratch, parser }
    }

    /// The decoder of the key.
    #[inline]
    pub fn first(&mut self) -> (r: Result<JsonKeyDecoder<'_, P>, ParseError>)
        ensures
            r matches Ok(decoder) && *decoder.parser == *old(self).parser && *final(self).parser
                == *final(decoder.parser),
            *final(final(self).parser) == *final(old(self).parser),
    {
        Ok(JsonKeyDecoder { scratch: &mut *self.scratch, parser: &mut *self.parser })
    }

    /// Read the colon behind the key, and hand out the decoder of the value.
    #[inline]
    pub fn second(self) -> (r: Result<JsonDecoder<'a, P>, ParseError>)
        ensures
            match token_parsed(
                old(self.parser).rest(),
                old(self.parser).index(),
                Token::Colon,
                ParseErrorKind::ExpectedColon(token(old(self.parser).rest())),
            ).result {
                Ok(_) => (r matches Ok(d) && stands(
                    *old(self.parser),
                    *d.parser,
                    spaces(old(self.parser).rest()) + 1,
                ) && *final(d.parser) == *final(self.parser)),
                Err(error) => r matches Err(e) && e == error,
            },
    {
        proof {
            lemma_spaces_end(self.parser.rest());
        }
        expect_colon(self.parser)?;
        Ok(JsonDecoder { scratch: self.scratch, parser: self.parser })
    }

    /// Skip over the colon behind the key and over the value.
    #[inline]
    pub fn skip_second(self) -> (r: Result<bool, ParseError>)
        ensures
            parsed(
                *old(self.parser),
                *final(self.parser),
                r,
                second_skipped(old(self.parser).rest(), old(self.parser).index()),
                |v: bool, m: ()| v,
            ),
    {
        skip_second(self.parser, self.scratch)?;
        Ok(true)
    }
}

} // verus!
