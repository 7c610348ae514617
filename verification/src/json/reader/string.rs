//! Strings of a JSON text.
//!
//! A string stands between two quotes. A backslash starts an escape: one of
//! `\" \\ \/ \b \f \n \r \t`, or `\u` with four hexadecimal digits, which
//! names a character; a character outside the basic plane is named by two
//! such escapes, a high and a low surrogate. A byte below 0x20 may not stand
//! in a string.

use super::{
    failure, parsed, ParseError, ParseErrorKind, Parsed, Parser, BACKSLASH, QUOTE, SLASH,
};
use crate::text::push_char;
use vstd::prelude::*;
use vstd::utf8::encode_scalar;

verus! {

/// The value of a hexadecimal digit, or 16 for a byte that is none.
pub open spec fn spec_hex(b: u8) -> u8 {
    if 0x30 <= b && b <= 0x39 {
        (b - 0x30) as u8
    } else if 0x41 <= b && b <= 0x46 {
        (b - 0x41 + 10) as u8
    } else if 0x61 <= b && b <= 0x66 {
        (b - 0x61 + 10) as u8
    } else {
        16
    }
}

/// Whether `s` starts with four hexadecimal digits.
pub open spec fn has_hex4(s: Seq<u8>) -> bool {
    s.len() >= 4 && spec_hex(s[0]) < 16 && spec_hex(s[1]) < 16 && spec_hex(s[2]) < 16 && spec_hex(
        s[3],
    ) < 16
}

/// The number that the four hexadecimal digits at the start of `s` stand for.
pub open spec fn hex4(s: Seq<u8>) -> u32 {
    (spec_hex(s[0]) * 4096 + spec_hex(s[1]) * 256 + spec_hex(s[2]) * 16 + spec_hex(s[3])) as u32
}

/// What an escape comes to.
pub enum Escape {
    /// The escape takes `len` bytes behind the backslash and stands for `bytes`.
    Bytes { bytes: Seq<u8>, len: nat },
    /// What follows the backslash is no escape.
    Invalid(ParseErrorKind),
    /// The text ends within the escape.
    Eof,
}

/// What the escape comes to whose backslash is followed by `s`.
pub open spec fn escape(s: Seq<u8>) -> Escape {
    if s.len() == 0 {
        Escape::Eof
    } else if s[0] == QUOTE || s[0] == BACKSLASH || s[0] == SLASH {
        Escape::Bytes { bytes: seq![s[0]], len: 1 }
    } else if s[0] == 0x62 {
        Escape::Bytes { bytes: seq![0x08u8], len: 1 }
    } else if s[0] == 0x66 {
        Escape::Bytes { bytes: seq![0x0cu8], len: 1 }
    } else if s[0] == 0x6e {
        Escape::Bytes { bytes: seq![0x0au8], len: 1 }
    } else if s[0] == 0x72 {
        Escape::Bytes { bytes: seq![0x0du8], len: 1 }
    } else if s[0] == 0x74 {
        Escape::Bytes { bytes: seq![0x09u8], len: 1 }
    } else if s[0] == 0x75 {
        if s.len() < 5 {
            Escape::Eof
        } else if !has_hex4(s.skip(1)) {
            Escape::Invalid(ParseErrorKind::InvalidEscape)
        } else if 0xdc00 <= hex4(s.skip(1)) <= 0xdfff {
            Escape::Invalid(ParseErrorKind::InvalidUnicode)
        } else if 0xd800 <= hex4(s.skip(1)) <= 0xdbff {
            if s.len() < 11 {
                Escape::Eof
            } else if s[5] != BACKSLASH || s[6] != 0x75 || !has_hex4(s.skip(7)) {
                Escape::Invalid(ParseErrorKind::InvalidEscape)
            } else if !(0xdc00 <= hex4(s.skip(7)) <= 0xdfff) {
                Escape::Invalid(ParseErrorKind::InvalidUnicode)
            } else {
                Escape::Bytes {
                    bytes: encode_scalar(
                        (0x10000 + (hex4(s.skip(1)) - 0xd800) * 0x400 + (hex4(s.skip(7))
                            - 0xdc00)) as u32,
                    ),
                    len: 11,
                }
            }
        } else {
            Escape::Bytes { bytes: encode_scalar(hex4(s.skip(1))), len: 5 }
        }
    } else {
        Escape::Invalid(ParseErrorKind::InvalidEscape)
    }
}

/// What reading a string comes to, behind its opening quote.
pub enum Scan {
    /// The string takes `len` bytes, the closing quote among them, and
    /// stands for `bytes`. It holds an escape or none.
    Text { bytes: Seq<u8>, len: nat, escaped: bool },
    /// The string is ill-formed, which shows at the byte `at`.
    Failure { kind: ParseErrorKind, at: nat },
    /// The text ends within the string.
    Eof,
}

/// The outcome `rest` of what follows `len` bytes that stand for `bytes`.
pub open spec fn prepend(bytes: Seq<u8>, len: nat, escaped: bool, rest: Scan) -> Scan {
    match rest {
        Scan::Text { bytes: more, len: more_len, escaped: more_escaped } => Scan::Text {
            bytes: bytes + more,
            len: len + more_len,
            escaped: escaped || more_escaped,
        },
        Scan::Failure { kind, at } => Scan::Failure { kind, at: len + at },
        Scan::Eof => Scan::Eof,
    }
}

/// What reading a string comes to whose opening quote is followed by `s`.
pub open spec fn scan_string(s: Seq<u8>) -> Scan
    decreases s.len(),
{
    if s.len() == 0 {
        Scan::Eof
    } else if s[0] == QUOTE {
        Scan::Text { bytes: Seq::empty(), len: 1, escaped: false }
    } else if s[0] == BACKSLASH {
        match escape(s.skip(1)) {
            Escape::Bytes { bytes, len } => if 1 + len <= s.len() {
                prepend(bytes, 1 + len, true, scan_string(s.skip(1 + len as int)))
            } else {
                Scan::Eof
            },
            Escape::Invalid(kind) => Scan::Failure { kind, at: 0 },
            Escape::Eof => Scan::Eof,
        }
    } else if s[0] < 0x20 {
        Scan::Failure { kind: ParseErrorKind::ControlCharacterInString, at: 0 }
    } else {
        prepend(seq![s[0]], 1, false, scan_string(s.skip(1)))
    }
}

/// A string lies within the text, and so does the place where one shows to
/// be ill-formed.
pub proof fn lemma_scan_len(s: Seq<u8>)
    ensures
        scan_string(s) matches Scan::Text { bytes, len, escaped } ==> 1 <= len <= s.len(),
        scan_string(s) matches Scan::Failure { kind, at } ==> at < s.len(),
    decreases s.len(),
{
    if s.len() == 0 || s[0] == QUOTE {
    } else if s[0] == BACKSLASH {
        if let Escape::Bytes { bytes, len } = escape(s.skip(1)) {
            if 1 + len <= s.len() {
                lemma_scan_len(s.skip(1 + len as int));
            }
        }
    } else if s[0] >= 0x20 {
        lemma_scan_len(s.skip(1));
    }
}

/// Behind `n` bytes that are neither a quote nor a backslash nor below
/// 0x20, a string goes on as a string that holds these bytes.
pub proof fn lemma_scan_plain(s: Seq<u8>, n: nat)
    requires
        n <= s.len(),
        forall|i: int| 0 <= i < n ==> #[trigger] s[i] != QUOTE && s[i] != BACKSLASH && s[i] >= 0x20,
    ensures
        scan_string(s) == prepend(s.take(n as int), n, false, scan_string(s.skip(n as int))),
    decreases n,
{
    if n == 0 {
        assert(s.skip(0) =~= s);
        assert(s.take(0) =~= Seq::<u8>::empty());
        match scan_string(s) {
            Scan::Text { bytes, len, escaped } => {
                assert(Seq::<u8>::empty() + bytes =~= bytes);
            },
            Scan::Failure { kind, at } => {},
            Scan::Eof => {},
        }
    } else {
        assert(s[0] != QUOTE && s[0] != BACKSLASH && s[0] >= 0x20);
        assert forall|i: int| 0 <= i < n - 1 implies #[trigger] s.skip(1)[i] != QUOTE && s.skip(
            1,
        )[i] != BACKSLASH && s.skip(1)[i] >= 0x20 by {
            assert(s.skip(1)[i] == s[i + 1]);
        }
        lemma_scan_plain(s.skip(1), (n - 1) as nat);
        assert(s.skip(1).skip(n - 1) =~= s.skip(n as int));
        match scan_string(s.skip(n as int)) {
            Scan::Text { bytes, len, escaped } => {
                assert(seq![s[0]] + (s.skip(1).take(n - 1) + bytes) =~= s.take(n as int) + bytes);
            },
            Scan::Failure { kind, at } => {},
            Scan::Eof => {},
        }
    }
}

/// A string read out of a JSON text.
pub enum StringReference<'de> {
    /// The string holds no escape, and is borrowed from the text.
    Borrowed(&'de [u8]),
    /// The string holds an escape, and what it stands for is in the scratch buffer.
    Scratch,
}

/// The value of a hexadecimal digit, if the byte is one.
#[inline]
pub fn hex(b: u8) -> (r: Option<u8>)
    ensures
        r is Some <==> spec_hex(b) < 16,
        r matches Some(value) ==> value == spec_hex(b),
{
    if 0x30 <= b && b <= 0x39 {
        Some(b - 0x30)
    } else if 0x41 <= b && b <= 0x46 {
        Some(b - 0x41 + 10)
    } else if 0x61 <= b && b <= 0x66 {
        Some(b - 0x61 + 10)
    } else {
        None
    }
}

/// The number that the four hexadecimal digits from the place `at` on stand
/// for, if there are four such digits.
pub fn decode_hex4(bytes: &[u8], at: usize) -> (r: Option<u32>)
    requires
        at + 4 <= bytes@.len(),
    ensures
        r is Some <==> has_hex4(bytes@.skip(at as int)),
        r matches Some(code) ==> code == hex4(bytes@.skip(at as int)) && code <= 0xffff,
{
    let ghost s = bytes@.skip(at as int);
    assert(s[0] == bytes@[at as int] && s[1] == bytes@[at + 1] && s[2] == bytes@[at + 2] && s[3]
        == bytes@[at + 3]);
    let a = match hex(bytes[at]) {
        Some(a) => a,
        None => {
            return None;
        },
    };
    let b = match hex(bytes[at + 1]) {
        Some(b) => b,
        None => {
            return None;
        },
    };
    let c = match hex(bytes[at + 2]) {
        Some(c) => c,
        None => {
            return None;
        },
    };
    let d = match hex(bytes[at + 3]) {
        Some(d) => d,
        None => {
            return None;
        },
    };
    Some(a as u32 * 4096 + b as u32 * 256 + c as u32 * 16 + d as u32)
}

/// What decoding an escape in exec code comes to.
pub enum Unescaped {
    /// The escape is read over and what it stands for is in the buffer.
    Done(usize),
    /// What follows the backslash is no escape.
    Invalid(ParseErrorKind),
    /// The text ends within the escape.
    Eof,
}

/// Decode the escape whose backslash stands before the place `at`, and
/// append what it stands for to the buffer.
pub fn decode_escape(bytes: &[u8], at: usize, buffer: &mut Vec<u8>) -> (r: Unescaped)
    requires
        at <= bytes@.len(),
    ensures
        match escape(bytes@.skip(at as int)) {
            Escape::Bytes { bytes: more, len } => r == Unescaped::Done(len as usize) && at + len
                <= bytes@.len() && final(buffer)@ == old(buffer)@ + more,
            Escape::Invalid(kind) => r == Unescaped::Invalid(kind),
            Escape::Eof => r == Unescaped::Eof,
        },
{
    let ghost s = bytes@.skip(at as int);
    if at >= bytes.len() {
        return Unescaped::Eof;
    }
    let b = bytes[at];
    assert(s[0] == b);
    if b == QUOTE || b == BACKSLASH || b == SLASH {
        buffer.push(b);
        return Unescaped::Done(1);
    }
    if b == 0x62 {
        buffer.push(0x08);
        return Unescaped::Done(1);
    }
    if b == 0x66 {
        buffer.push(0x0c);
        return Unescaped::Done(1);
    }
    if b == 0x6e {
        buffer.push(0x0a);
        return Unescaped::Done(1);
    }
    if b == 0x72 {
        buffer.push(0x0d);
        return Unescaped::Done(1);
    }
    if b == 0x74 {
        buffer.push(0x09);
        return Unescaped::Done(1);
    }
    if b != 0x75 {
        return Unescaped::Invalid(ParseErrorKind::InvalidEscape);
    }
    if bytes.len() - at < 5 {
        return Unescaped::Eof;
    }
    assert(s.skip(1) =~= bytes@.skip(at + 1));
    let code = match decode_hex4(bytes, at + 1) {
        Some(code) => code,
        None => {
            return Unescaped::Invalid(ParseErrorKind::InvalidEscape);
        },
    };
    if 0xdc00 <= code && code <= 0xdfff {
        return Unescaped::Invalid(ParseErrorKind::InvalidUnicode);
    }
    if 0xd800 <= code && code <= 0xdbff {
        if bytes.len() - at < 11 {
            return Unescaped::Eof;
        }
        assert(s[5] == bytes@[at + 5] && s[6] == bytes@[at + 6]);
        assert(s.skip(7) =~= bytes@.skip(at + 7));
        if bytes[at + 5] != BACKSLASH || bytes[at + 6] != 0x75 {
            return Unescaped::Invalid(ParseErrorKind::InvalidEscape);
        }
        let low = match decode_hex4(bytes, at + 7) {
            Some(low) => low,
            None => {
                return Unescaped::Invalid(ParseErrorKind::InvalidEscape);
            },
        };
        if !(0xdc00 <= low && low <= 0xdfff) {
            return Unescaped::Invalid(ParseErrorKind::InvalidUnicode);
        }
        let scalar = 0x10000 + (code - 0xd800) * 0x400 + (low - 0xdc00);
        return match char::from_u32(scalar) {
            Some(c) => {
                push_char(buffer, c);
                Unescaped::Done(11)
            },
            None => Unescaped::Invalid(ParseErrorKind::InvalidUnicode),
        };
    }
    match char::from_u32(code) {
        Some(c) => {
            push_char(buffer, c);
            Unescaped::Done(5)
        },
        None => Unescaped::Invalid(ParseErrorKind::InvalidUnicode),
    }
}

/// Prepending twice is prepending what is prepended, as one.
pub proof fn lemma_prepend_twice(
    a: Seq<u8>,
    n: nat,
    e1: bool,
    b: Seq<u8>,
    m: nat,
    e2: bool,
    rest: Scan,
)
    ensures
        prepend(a, n, e1, prepend(b, m, e2, rest)) == prepend(a + b, n + m, e1 || e2, rest),
{
    match rest {
        Scan::Text { bytes, len, escaped } => {
            assert(a + (b + bytes) =~= (a + b) + bytes);
        },
        Scan::Failure { kind, at } => {},
        Scan::Eof => {},
    }
}

/// What reading the body of a string comes to, for a text `s` that starts
/// at the place `index` behind the opening quote: the bytes that the string
/// stands for.
pub open spec fn body_parsed(s: Seq<u8>, index: usize) -> Parsed<Seq<u8>> {
    match scan_string(s) {
        Scan::Text { bytes, len, escaped } => Parsed { result: Ok(bytes), len },
        Scan::Failure { kind, at } => Parsed {
            result: Err(failure(kind, index + at, index + at)),
            len: 0,
        },
        Scan::Eof => Parsed {
            result: Err(
                failure(ParseErrorKind::BufferUnderflow, index + s.len(), index + s.len()),
            ),
            len: 0,
        },
    }
}

/// Parse the body of a string, behind its opening quote. Where the string
/// holds an escape, what it stands for is put into the scratch buffer.
#[verifier::rlimit(60)]
pub fn parse_string<'de, P: Parser<'de>>(p: &mut P, scratch: &mut Vec<u8>) -> (r: Result<
    StringReference<'de>,
    ParseError,
>)
    ensures
        parsed(
            *old(p),
            *final(p),
            r,
            body_parsed(old(p).rest(), old(p).index()),
            |v: StringReference<'de>, m: Seq<u8>|
                match v {
                    StringReference::Borrowed(bytes) => bytes@ == m,
                    StringReference::Scratch => final(scratch)@ == m,
                },
        ),
        r matches Ok(v) ==> (v is Scratch <==> scan_string(old(p).rest())->Text_escaped),
{
    let bytes = p.as_slice();
    let ghost s = bytes@;
    proof {
        p.lemma_fits();
        lemma_scan_len(s);
        assert(s.skip(0) =~= s);
    }
    let mut i: usize = 0;
    loop
        invariant
            s == old(p).rest(),
            s == bytes@,
            *p == *old(p),
            i <= s.len(),
            p.index() + s.len() <= usize::MAX,
            forall|k: int|
                0 <= k < i ==> #[trigger] s[k] != QUOTE && s[k] != BACKSLASH && s[k] >= 0x20,
        ensures
            i < s.len() && s[i as int] == BACKSLASH,
        decreases s.len() - i,
    {
        proof {
            lemma_scan_plain(s, i as nat);
            lemma_scan_len(s);
            assert(s.skip(0) =~= s);
        }
        if i >= bytes.len() {
            return Err(ParseError::at(p.pos_at(i), ParseErrorKind::BufferUnderflow));
        }
        let b = bytes[i];
        assert(s.skip(i as int)[0] == b);
        if b == QUOTE {
            assert(s.take(i as int) + Seq::<u8>::empty() =~= s.take(i as int));
            let out = p.read_bytes(i)?;
            p.skip(1)?;
            assert(p.rest() =~= s.skip(i + 1));
            return Ok(StringReference::Borrowed(out));
        }
        if b == BACKSLASH {
            break ;
        }
        if b < 0x20 {
            return Err(ParseError::at(p.pos_at(i), ParseErrorKind::ControlCharacterInString));
        }
        i = i + 1;
    }
    scratch.clear();
    scratch.extend_from_slice(&bytes[0..i]);
    let ghost mut escaped = false;
    proof {
        lemma_scan_plain(s, i as nat);
        assert(scratch@ =~= s.take(i as int));
    }
    loop
        invariant
            s == old(p).rest(),
            s == bytes@,
            *p == *old(p),
            i <= s.len(),
            p.index() + s.len() <= usize::MAX,
            scan_string(s) == prepend(scratch@, i as nat, escaped, scan_string(s.skip(i as int))),
            escaped || (i < s.len() && s[i as int] == BACKSLASH),
        decreases s.len() - i,
    {
        let ghost rest = s.skip(i as int);
        proof {
            lemma_scan_len(s);
            lemma_scan_len(rest);
            assert(s.skip(0) =~= s);
        }
        if i >= bytes.len() {
            return Err(ParseError::at(p.pos_at(i), ParseErrorKind::BufferUnderflow));
        }
        let b = bytes[i];
        assert(rest[0] == b);
        if b == QUOTE {
            assert(scratch@ + Seq::<u8>::empty() =~= scratch@);
            p.skip(i + 1)?;
            return Ok(StringReference::Scratch);
        }
        if b == BACKSLASH {
            let ghost before = scratch@;
            assert(rest.skip(1) =~= s.skip(i + 1));
            match decode_escape(bytes, i + 1, scratch) {
                Unescaped::Done(len) => {
                    proof {
                        let more = escape(rest.skip(1))->Bytes_bytes;
                        assert(rest.skip(1 + len as int) =~= s.skip(i + 1 + len));
                        lemma_prepend_twice(
                            before,
                            i as nat,
                            escaped,
                            more,
                            (1 + len) as nat,
                            true,
                            scan_string(s.skip(i + 1 + len)),
                        );
                        escaped = true;
                    }
                    i = i + 1 + len;
                },
                Unescaped::Invalid(kind) => {
                    return Err(ParseError::at(p.pos_at(i), kind));
                },
                Unescaped::Eof => {
                    return Err(
                        ParseError::at(p.pos_at(bytes.len()), ParseErrorKind::BufferUnderflow),
                    );
                },
            }
        } else if b < 0x20 {
            return Err(ParseError::at(p.pos_at(i), ParseErrorKind::ControlCharacterInString));
        } else {
            let ghost before = scratch@;
            scratch.push(b);
            proof {
                assert(rest.skip(1) =~= s.skip(i + 1));
                assert(before.push(b) =~= before + seq![b]);
                lemma_prepend_twice(
                    before,
                    i as nat,
                    escaped,
                    seq![b],
                    1,
                    false,
                    scan_string(s.skip(i + 1)),
                );
            }
            i = i + 1;
        }
    }
}

} // verus!
