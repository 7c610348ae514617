//! Reading JSON text: tokens, positions and the places where reading fails.

pub mod integer;
pub mod string;

use vstd::prelude::*;

verus! {

/// The byte `{`.
pub const OPEN_BRACE: u8 = 0x7b;

/// The byte `}`.
pub const CLOSE_BRACE: u8 = 0x7d;

/// The byte `[`.
pub const OPEN_BRACKET: u8 = 0x5b;

/// The byte `]`.
pub const CLOSE_BRACKET: u8 = 0x5d;

/// The byte `,`.
pub const COMMA: u8 = 0x2c;

/// The byte `:`.
pub const COLON: u8 = 0x3a;

/// The byte `"`.
pub const QUOTE: u8 = 0x22;

/// The byte `-`.
pub const MINUS: u8 = 0x2d;

/// The byte `+`.
pub const PLUS: u8 = 0x2b;

/// The byte `.`.
pub const POINT: u8 = 0x2e;

/// The byte `0`.
pub const ZERO: u8 = 0x30;

/// The byte `1`.
pub const ONE: u8 = 0x31;

/// The byte `9`.
pub const NINE: u8 = 0x39;

/// The byte `e`.
pub const LOWER_E: u8 = 0x65;

/// The byte `E`.
pub const UPPER_E: u8 = 0x45;

/// The byte `n`.
pub const LOWER_N: u8 = 0x6e;

/// The byte `t`.
pub const LOWER_T: u8 = 0x74;

/// The byte `f`.
pub const LOWER_F: u8 = 0x66;

/// The byte `\`.
pub const BACKSLASH: u8 = 0x5c;

/// The byte `/`.
pub const SLASH: u8 = 0x2f;

/// What the next byte of a JSON text announces.
#[derive(Debug, Clone, Copy, PartialEq, Eq, Structural)]
pub enum Token {
    /// `{`.
    OpenBrace,
    /// `}`.
    CloseBrace,
    /// `[`.
    OpenBracket,
    /// `]`.
    CloseBracket,
    /// `,`.
    Comma,
    /// `:`.
    Colon,
    /// `"`, the start of a string.
    String,
    /// `-` or a digit, the start of a number.
    Number,
    /// `n`, the start of `null`.
    Null,
    /// `t`, the start of `true`.
    True,
    /// `f`, the start of `false`.
    False,
    /// A byte that starts nothing.
    Error,
    /// The end of the text.
    Eof,
}

impl Token {
    /// The token that a byte announces.
    pub open spec fn spec_from_byte(b: u8) -> Token {
        if b == OPEN_BRACE {
            Token::OpenBrace
        } else if b == CLOSE_BRACE {
            Token::CloseBrace
        } else if b == OPEN_BRACKET {
            Token::OpenBracket
        } else if b == CLOSE_BRACKET {
            Token::CloseBracket
        } else if b == COMMA {
            Token::Comma
        } else if b == COLON {
            Token::Colon
        } else if b == QUOTE {
            Token::String
        } else if b == MINUS || (ZERO <= b && b <= NINE) {
            Token::Number
        } else if b == LOWER_N {
            Token::Null
        } else if b == LOWER_T {
            Token::True
        } else if b == LOWER_F {
            Token::False
        } else {
            Token::Error
        }
    }

    /// Whether the token starts a value.
    pub open spec fn spec_is_value(&self) -> bool {
        match *self {
            Token::OpenBrace
            | Token::OpenBracket
            | Token::String
            | Token::Number
            | Token::Null
            | Token::True
            | Token::False => true,
            _ => false,
        }
    }

    /// The token that a byte announces.
    #[inline]
    pub fn from_byte(b: u8) -> (token: Token)
        ensures
            token == Self::spec_from_byte(b),
    {
        if b == OPEN_BRACE {
            Token::OpenBrace
        } else if b == CLOSE_BRACE {
            Token::CloseBrace
        } else if b == OPEN_BRACKET {
            Token::OpenBracket
        } else if b == CLOSE_BRACKET {
            Token::CloseBracket
        } else if b == COMMA {
            Token::Comma
        } else if b == COLON {
            Token::Colon
        } else if b == QUOTE {
            Token::String
        } else if b == MINUS || (ZERO <= b && b <= NINE) {
            Token::Number
        } else if b == LOWER_N {
            Token::Null
        } else if b == LOWER_T {
            Token::True
        } else if b == LOWER_F {
            Token::False
        } else {
            Token::Error
        }
    }

    /// Whether the token starts `null`.
    #[inline]
    pub fn is_null(&self) -> (r: bool)
        ensures
            r == (*self == Token::Null),
    {
        matches!(self, Token::Null)
    }

    /// Whether the token starts a string.
    #[inline]
    pub fn is_string(&self) -> (r: bool)
        ensures
            r == (*self == Token::String),
    {
        matches!(self, Token::String)
    }

    /// Whether the token starts a value.
    #[inline]
    pub fn is_value(&self) -> (r: bool)
        ensures
            r == self.spec_is_value(),
    {
        matches!(
            self,
            Token::OpenBrace
                | Token::OpenBracket
                | Token::String
                | Token::Number
                | Token::Null
                | Token::True
                | Token::False
        )
    }
}

/// Why reading a JSON text failed.
#[derive(Debug, Clone, Copy, PartialEq, Eq, Structural)]
pub enum ParseErrorKind {
    /// The text ended where a byte had to be read.
    BufferUnderflow,
    /// What should be a number is none.
    InvalidNumeric,
    /// The number is none that the requested type holds.
    IntegerError(integer::Error),
    /// A value was expected where the token stands.
    ExpectedValue(Token),
    /// `true` was expected.
    ExpectedTrue,
    /// `false` was expected.
    ExpectedFalse,
    /// `null` was expected.
    ExpectedNull,
    /// `true` or `false` was expected where the token stands.
    ExpectedBool(Token),
    /// `{` was expected where the token stands.
    ExpectedOpenBrace(Token),
    /// `[` was expected where the token stands.
    ExpectedOpenBracket(Token),
    /// A string was expected where the token stands.
    ExpectedString(Token),
    /// `:` was expected where the token stands.
    ExpectedColon(Token),
    /// A key or `}` was expected where the token stands.
    ExpectedCloseBrace(Token),
    /// A value or `]` was expected where the token stands.
    ExpectedCloseBracket(Token),
    /// An array ended before it held as many values as were asked for.
    ShortArray,
    /// A string holds a byte below 0x20.
    ControlCharacterInString,
    /// A string ends within an escape, or holds an escape that JSON does not know.
    InvalidEscape,
    /// A `\u` escape names no Unicode scalar value.
    InvalidUnicode,
    /// A string is not UTF-8.
    InvalidUtf8,
}

/// A failure to read a JSON text, with the place in the text that it is about.
#[derive(Debug, Clone, Copy, PartialEq, Eq, Structural)]
pub struct ParseError {
    /// Why reading failed.
    pub kind: ParseErrorKind,
    /// Where the text that is at fault starts.
    pub start: u32,
    /// Where the text that is at fault ends.
    pub end: u32,
}

impl ParseError {
    /// An error about the given position.
    #[inline]
    pub fn at(pos: u32, kind: ParseErrorKind) -> (e: Self)
        ensures
            e == (ParseError { kind, start: pos, end: pos }),
    {
        Self { kind, start: pos, end: pos }
    }

    /// An error about the text between two positions.
    #[inline]
    pub fn spanned(start: u32, end: u32, kind: ParseErrorKind) -> (e: Self)
        ensures
            e == (ParseError { kind, start, end }),
    {
        Self { kind, start, end }
    }
}

/// What reading something out of a JSON text comes to: what is handed out,
/// or the failure, and the number of bytes that are read.
pub struct Parsed<V> {
    /// What is handed out, or the failure.
    pub result: Result<V, ParseError>,
    /// The number of bytes that are read.
    pub len: nat,
}

/// The failure of the given kind about the text from `start` to `end`.
pub open spec fn failure(kind: ParseErrorKind, start: int, end: int) -> ParseError {
    ParseError { kind, start: start as u32, end: end as u32 }
}

/// The outcome that takes `n` bytes more.
pub open spec fn behind<V>(n: nat, outcome: Parsed<V>) -> Parsed<V> {
    Parsed { result: outcome.result, len: n + outcome.len }
}

/// Trait governing how JSON is parsed depending on the kind of buffer provided.
pub trait Parser<'de>: Sized {
    /// The text that is still to be read.
    spec fn rest(&self) -> Seq<u8>;

    /// The number of bytes read so far.
    spec fn index(&self) -> usize;

    /// The text that is still to be read ends at a place that can be counted.
    proof fn lemma_fits(&self)
        ensures
            self.index() + self.rest().len() <= usize::MAX,
    ;

    /// The current position, as errors hold it.
    fn pos(&self) -> (p: u32)
        ensures
            p == self.index() as u32,
    ;

    /// The position `offset` bytes further on, as errors hold it.
    fn pos_at(&self, offset: usize) -> (p: u32)
        requires
            offset <= self.rest().len(),
        ensures
            p == (self.index() + offset) as u32,
    ;

    /// The text that is still to be read.
    fn as_slice(&self) -> (bytes: &'de [u8])
        ensures
            bytes@ == self.rest(),
    ;

    /// Look at the next byte without reading it.
    fn peek_byte(&mut self) -> (r: Result<Option<u8>, ParseError>)
        ensures
            *final(self) == *old(self),
            r == Ok::<_, ParseError>(
                if old(self).rest().len() > 0 {
                    Some(old(self).rest()[0])
                } else {
                    None
                },
            ),
    ;

    /// Read the next byte.
    fn read_byte(&mut self) -> (r: Result<u8, ParseError>)
        ensures
            old(self).rest().len() > 0 ==> r == Ok::<_, ParseError>(old(self).rest()[0])
                && final(self).rest() == old(self).rest().skip(1) && final(self).index()
                == old(self).index() + 1,
            old(self).rest().len() == 0 ==> r == Err::<u8, _>(
                ParseError {
                    kind: ParseErrorKind::BufferUnderflow,
                    start: old(self).index() as u32,
                    end: old(self).index() as u32,
                },
            ) && *final(self) == *old(self),
    ;

    /// Skip over the given number of bytes.
    fn skip(&mut self, n: usize) -> (r: Result<(), ParseError>)
        ensures
            n <= old(self).rest().len() ==> r == Ok::<_, ParseError>(()) && final(self).rest()
                == old(self).rest().skip(n as int) && final(self).index() == old(self).index()
                + n,
            n > old(self).rest().len() ==> r == Err::<(), _>(
                ParseError {
                    kind: ParseErrorKind::BufferUnderflow,
                    start: old(self).index() as u32,
                    end: old(self).index() as u32,
                },
            ) && *final(self) == *old(self),
    ;

    /// Read the given number of bytes.
    fn read_bytes(&mut self, n: usize) -> (r: Result<&'de [u8], ParseError>)
        ensures
            n <= old(self).rest().len() ==> (r matches Ok(bytes) && bytes@ == old(
                self,
            ).rest().take(n as int)) && final(self).rest() == old(self).rest().skip(n as int)
                && final(self).index() == old(self).index() + n,
            n > old(self).rest().len() ==> r == Err::<&'de [u8], _>(
                ParseError {
                    kind: ParseErrorKind::BufferUnderflow,
                    start: old(self).index() as u32,
                    end: old(self).index() as u32,
                },
            ) && *final(self) == *old(self),
    ;
}

/// An efficient [Parser] wrapper around a slice.
pub struct SliceParser<'de> {
    slice: &'de [u8],
    index: usize,
}

impl<'de> SliceParser<'de> {
    #[verifier::type_invariant]
    spec fn inv(self) -> bool {
        self.index <= self.slice@.len()
    }

    /// Construct a new instance around the specified slice.
    #[inline]
    pub fn new(slice: &'de [u8]) -> (parser: Self)
        ensures
            parser.rest() == slice@,
            parser.index() == 0,
    {
        proof {
            assert(slice@.skip(0) =~= slice@);
        }
        Self { slice, index: 0 }
    }
}

impl<'de> Parser<'de> for SliceParser<'de> {
    closed spec fn rest(&self) -> Seq<u8> {
        if self.index <= self.slice@.len() {
            self.slice@.skip(self.index as int)
        } else {
            Seq::empty()
        }
    }

    closed spec fn index(&self) -> usize {
        self.index
    }

    proof fn lemma_fits(&self) {
        assert(vstd::slice::spec_slice_len(self.slice) == self.slice@.len());
    }

    #[inline]
    fn pos(&self) -> (p: u32) {
        #[verifier::truncate]
        (self.index as u32)
    }

    #[inline]
    fn pos_at(&self, offset: usize) -> (p: u32) {
        proof {
            use_type_invariant(self);
            assert(vstd::slice::spec_slice_len(self.slice) == self.slice@.len());
        }
        #[verifier::truncate]
        ((self.index + offset) as u32)
    }

    #[inline]
    fn as_slice(&self) -> (bytes: &'de [u8]) {
        proof {
            use_type_invariant(self);
        }
        let slice: &'de [u8] = self.slice;
        let bytes = &slice[self.index..slice.len()];
        assert(bytes@ =~= self.slice@.skip(self.index as int));
        bytes
    }

    #[inline]
    fn peek_byte(&mut self) -> (r: Result<Option<u8>, ParseError>) {
        proof {
            use_type_invariant(&*self);
        }
        if self.index < self.slice.len() {
            Ok(Some(self.slice[self.index]))
        } else {
            Ok(None)
        }
    }

    #[inline]
    fn read_byte(&mut self) -> (r: Result<u8, ParseError>) {
        proof {
            use_type_invariant(&*self);
        }
        if self.index < self.slice.len() {
            let b = self.slice[self.index];
            assert(self.slice@.skip(self.index + 1) =~= self.slice@.skip(self.index as int).skip(
                1,
            ));
            self.index = self.index + 1;
            Ok(b)
        } else {
            Err(ParseError::at(self.pos(), ParseErrorKind::BufferUnderflow))
        }
    }

    #[inline]
    fn skip(&mut self, n: usize) -> (r: Result<(), ParseError>) {
        proof {
            use_type_invariant(&*self);
        }
        if n <= self.slice.len() - self.index {
            assert(self.slice@.skip(self.index + n) =~= self.slice@.skip(self.index as int).skip(
                n as int,
            ));
            self.index = self.index + n;
            Ok(())
        } else {
            Err(ParseError::at(self.pos(), ParseErrorKind::BufferUnderflow))
        }
    }

    #[inline]
    fn read_bytes(&mut self, n: usize) -> (r: Result<&'de [u8], ParseError>) {
        proof {
            use_type_invariant(&*self);
        }
        if n <= self.slice.len() - self.index {
            let slice: &'de [u8] = self.slice;
            let bytes = &slice[self.index..self.index + n];
            assert(self.slice@.skip(self.index + n) =~= self.slice@.skip(self.index as int).skip(
                n as int,
            ));
            assert(bytes@ =~= self.slice@.skip(self.index as int).take(n as int));
            self.index = self.index + n;
            Ok(bytes)
        } else {
            Err(ParseError::at(self.pos(), ParseErrorKind::BufferUnderflow))
        }
    }
}

/// The byte of a space.
pub const SPACE: u8 = 0x20;

/// Whether the byte is white space between the tokens of a JSON text.
pub open spec fn spec_is_space(b: u8) -> bool {
    b == 0x20 || b == 0x09 || b == 0x0a || b == 0x0d
}

/// The number of bytes of white space that `s` starts with.
pub open spec fn spaces(s: Seq<u8>) -> nat
    decreases s.len(),
{
    if s.len() > 0 && spec_is_space(s[0]) {
        1 + spaces(s.skip(1))
    } else {
        0
    }
}

/// A text starts with exactly `n` bytes of white space if its first `n` bytes
/// are white space and the byte after them, if there is one, is none.
pub proof fn lemma_spaces(s: Seq<u8>, n: nat)
    requires
        n <= s.len(),
        forall|i: int| 0 <= i < n ==> spec_is_space(#[trigger] s[i]),
        n == s.len() || !spec_is_space(s[n as int]),
    ensures
        spaces(s) == n,
    decreases n,
{
    if n > 0 {
        assert(spec_is_space(s[0]));
        assert forall|i: int| 0 <= i < n - 1 implies spec_is_space(#[trigger] s.skip(1)[i]) by {
            assert(s.skip(1)[i] == s[i + 1]);
        }
        if n < s.len() {
            assert(s.skip(1)[n - 1] == s[n as int]);
        }
        lemma_spaces(s.skip(1), (n - 1) as nat);
    }
}

/// The white space that a text starts with lies within the text, and the
/// byte after it, if there is one, is none.
pub proof fn lemma_spaces_end(s: Seq<u8>)
    ensures
        spaces(s) <= s.len(),
        spaces(s) == s.len() || !spec_is_space(s[spaces(s) as int]),
        spaces(s.skip(spaces(s) as int)) == 0,
    decreases s.len(),
{
    if s.len() > 0 && spec_is_space(s[0]) {
        lemma_spaces_end(s.skip(1));
        if spaces(s) < s.len() {
            assert(s[spaces(s) as int] == s.skip(1)[spaces(s.skip(1)) as int]);
        }
        assert(s.skip(1).skip(spaces(s.skip(1)) as int) =~= s.skip(spaces(s) as int));
    } else {
        assert(s.skip(0) =~= s);
    }
}

/// The token that `s` starts with, behind white space.
pub open spec fn token(s: Seq<u8>) -> Token {
    if spaces(s) >= s.len() {
        Token::Eof
    } else {
        Token::spec_from_byte(s[spaces(s) as int])
    }
}

/// Whether the byte is white space between the tokens of a JSON text.
#[inline]
pub fn is_space(b: u8) -> (r: bool)
    ensures
        r == spec_is_space(b),
{
    b == 0x20 || b == 0x09 || b == 0x0a || b == 0x0d
}

/// Skip over the white space that follows.
pub fn skip_whitespace<'de, P: Parser<'de>>(p: &mut P) -> (r: Result<(), ParseError>)
    ensures
        r is Ok,
        final(p).rest() == old(p).rest().skip(spaces(old(p).rest()) as int),
        final(p).index() == old(p).index() + spaces(old(p).rest()),
{
    let ghost s = p.rest();
    let ghost mut count: nat = 0;
    proof {
        p.lemma_fits();
        assert(s.skip(0) =~= s);
    }
    loop
        invariant
            s == old(p).rest(),
            count <= s.len(),
            p.rest() == s.skip(count as int),
            p.index() == old(p).index() + count,
            forall|i: int| 0 <= i < count ==> spec_is_space(#[trigger] s[i]),
        decreases s.len() - count,
    {
        let next = p.peek_byte()?;
        let more = match next {
            Some(b) => is_space(b),
            None => false,
        };
        if !more {
            proof {
                if count < s.len() {
                    assert(s[count as int] == p.rest()[0]);
                }
                lemma_spaces(s, count);
            }
            return Ok(());
        }
        assert(s[count as int] == p.rest()[0]);
        p.skip(1)?;
        proof {
            assert(p.rest() =~= s.skip(count as int + 1));
            count = count + 1;
        }
    }
}

/// Skip over white space and look at the token that follows, without reading it.
pub fn peek<'de, P: Parser<'de>>(p: &mut P) -> (r: Result<Token, ParseError>)
    ensures
        r == Ok::<_, ParseError>(token(old(p).rest())),
        final(p).rest() == old(p).rest().skip(spaces(old(p).rest()) as int),
        final(p).index() == old(p).index() + spaces(old(p).rest()),
        token(final(p).rest()) == token(old(p).rest()),
        spaces(final(p).rest()) == 0,
{
    proof {
        lemma_spaces_end(p.rest());
    }
    skip_whitespace(p)?;
    let next = p.peek_byte()?;
    Ok(
        match next {
            Some(b) => Token::from_byte(b),
            None => Token::Eof,
        },
    )
}

/// Read the given bytes, and fail with the given reason where other bytes follow.
pub fn parse_exact<'de, P: Parser<'de>>(p: &mut P, exact: &[u8], kind: ParseErrorKind) -> (r:
    Result<(), ParseError>)
    ensures
        parsed(
            *old(p),
            *final(p),
            r,
            exact_parsed(old(p).rest(), old(p).index(), exact@, kind),
            |v: (), m: ()| true,
        ),
        exact@.len() > old(p).rest().len() ==> r == Err::<(), _>(
            ParseError {
                kind: ParseErrorKind::BufferUnderflow,
                start: old(p).index() as u32,
                end: old(p).index() as u32,
            },
        ) && *final(p) == *old(p),
        exact@.len() <= old(p).rest().len() ==> final(p).rest() == old(p).rest().skip(
            exact@.len() as int,
        ) && final(p).index() == old(p).index() + exact@.len() && r == (if old(p).rest().take(
            exact@.len() as int,
        ) == exact@ {
            Ok::<(), ParseError>(())
        } else {
            Err::<(), _>(
                ParseError { kind, start: old(p).index() as u32, end: old(p).index() as u32 },
            )
        }),
{
    let pos = p.pos();
    proof {
        assert(p.rest().skip(0) =~= p.rest());
    }
    let bytes = p.read_bytes(exact.len())?;
    let mut i: usize = 0;
    while i < exact.len()
        invariant
            i <= exact@.len(),
            bytes@.len() == exact@.len(),
            bytes@.take(i as int) == exact@.take(i as int),
            bytes@ == old(p).rest().take(exact@.len() as int),
            pos == old(p).index() as u32,
            exact@.len() <= old(p).rest().len(),
            p.rest() == old(p).rest().skip(exact@.len() as int),
            p.index() == old(p).index() + exact@.len(),
        decreases exact@.len() - i,
    {
        if bytes[i] != exact[i] {
            assert(bytes@[i as int] != exact@[i as int]);
            return Err(ParseError::at(pos, kind));
        }
        assert(bytes@.take(i + 1) =~= bytes@.take(i as int).push(bytes@[i as int]));
        assert(exact@.take(i + 1) =~= exact@.take(i as int).push(exact@[i as int]));
        i = i + 1;
    }
    assert(bytes@.take(exact@.len() as int) =~= bytes@);
    assert(exact@.take(exact@.len() as int) =~= exact@);
    Ok(())
}

/// What reading does to a parser, for the outcome that the text of the
/// parser comes to, where `same` tells whether a value that is handed out is
/// the value of the outcome.
pub open spec fn parsed<'de, P: Parser<'de>, V, M>(
    before: P,
    after: P,
    r: Result<V, ParseError>,
    outcome: Parsed<M>,
    same: spec_fn(V, M) -> bool,
) -> bool {
    &&& outcome.len <= before.rest().len()
    &&& after.rest() == before.rest().skip(outcome.len as int)
    &&& after.index() == before.index() + outcome.len
    &&& match outcome.result {
        Ok(value) => (r matches Ok(v) && same(v, value)),
        Err(error) => r == Err::<V, _>(error),
    }
}

/// What reading over the given bytes comes to, for a text `s` that starts
/// at the place `index`.
pub open spec fn exact_parsed(s: Seq<u8>, index: usize, exact: Seq<u8>, kind: ParseErrorKind)
    -> Parsed<()> {
    if exact.len() > s.len() {
        Parsed { result: Err(failure(ParseErrorKind::BufferUnderflow, index as int, index as int)), len: 0 }
    } else if s.take(exact.len() as int) == exact {
        Parsed { result: Ok(()), len: exact.len() }
    } else {
        Parsed { result: Err(failure(kind, index as int, index as int)), len: exact.len() }
    }
}

} // verus!
