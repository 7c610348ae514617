//! Text as bytes and numbers as characters: what the standard library does
//! of it, and copies of bytes.

use vstd::prelude::*;
use vstd::string::StringSliceAdditionalSpecFns;
use vstd::utf8::{encode_scalar, is_scalar, valid_utf8};

verus! {

/// `core::str::from_utf8`: the string that the bytes hold, where they are
/// well-formed UTF-8, and nothing else. The string is made of the same bytes.
#[verifier::external_body]
pub(crate) fn str_from_utf8<'a>(bytes: &'a [u8]) -> (r: Option<&'a str>)
    ensures
        r is Some <==> valid_utf8(bytes@),
        r matches Some(s) ==> s.spec_bytes() == bytes@,
{
    match core::str::from_utf8(bytes) {
        Ok(s) => Some(s),
        Err(_) => None,
    }
}

/// `char::from_u32`: the character with the given number, where the number
/// is a Unicode scalar value, and nothing else.
pub assume_specification[ char::from_u32 ](i: u32) -> (r: Option<char>)
    ensures
        r is Some <==> is_scalar(i),
        r matches Some(c) ==> c as u32 == i,
;

/// The array that holds the bytes of a slice of its length.
pub(crate) fn array_from_slice<const N: usize>(bytes: &[u8]) -> (r: [u8; N])
    requires
        bytes@.len() == N,
    ensures
        r@ == bytes@,
{
    let mut out = [0u8;N];
    let mut i: usize = 0;
    while i < N
        invariant
            i <= N,
            bytes@.len() == N,
            out@.len() == N,
            out@.take(i as int) == bytes@.take(i as int),
        decreases N - i,
    {
        out[i] = bytes[i];
        i = i + 1;
        assert(out@.take(i as int) =~= bytes@.take(i as int));
    }
    assert(out@.take(N as int) =~= out@);
    assert(bytes@.take(N as int) =~= bytes@);
    out
}

/// Copy the bytes of a slice into a buffer of its length.
pub(crate) fn copy_into(buf: &mut [u8], source: &[u8])
    requires
        old(buf)@.len() == source@.len(),
    ensures
        final(buf)@ == source@,
{
    let mut i: usize = 0;
    while i < buf.len()
        invariant
            i <= buf@.len(),
            source@.len() == buf@.len(),
            buf@.take(i as int) == source@.take(i as int),
        decreases buf@.len() - i,
    {
        buf[i] = source[i];
        i = i + 1;
        assert(buf@.take(i as int) =~= source@.take(i as int));
    }
    assert(buf@.take(buf@.len() as int) =~= buf@);
    assert(source@.take(source@.len() as int) =~= source@);
}

/// `char::encode_utf8`: the string of the one character, written into the
/// given buffer. Its bytes are those that the character is written as in
/// UTF-8.
#[verifier::external_body]
fn encode_utf8<'a>(c: char, buffer: &'a mut [u8; 4]) -> (r: &'a str)
    ensures
        r.spec_bytes() == encode_scalar(c as u32),
{
    c.encode_utf8(buffer)
}

/// Append the bytes that a character is written as in UTF-8 to a buffer.
pub(crate) fn push_char(buffer: &mut Vec<u8>, c: char)
    ensures
        final(buffer)@ == old(buffer)@ + encode_scalar(c as u32),
{
    let mut bytes = [0u8;4];
    let text = encode_utf8(c, &mut bytes);
    buffer.extend_from_slice(text.as_bytes());
}

} // verus!
