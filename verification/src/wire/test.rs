//! Helpers for looking at what the wire format holds.

use crate::de::Decode;
use crate::reader::PositionedReader;
use crate::wire::de::WireDecoder;
use crate::wire::integer_encoding::{TypedIntegerEncoding, TypedUsizeEncoding};
use crate::wire::types::TypeTag;
use vstd::prelude::*;

verus! {

/// A typed field, which is prefixed with a type tag.
#[derive(Debug, Clone, Copy, PartialEq, Eq)]
pub struct Typed<T> {
    /// The tag.
    pub tag: TypeTag,
    /// The value behind the tag.
    pub value: T,
}

impl<T> Typed<T> {
    /// Construct a new typed field.
    #[inline]
    pub fn new(tag: TypeTag, value: T) -> (typed: Self)
        ensures
            typed.tag == tag,
            typed.value == value,
    {
        Self { tag, value }
    }

    /// The value that was decoded, with its tag, and the error otherwise.
    #[inline]
    pub fn tagged<E>(tag: TypeTag, r: Result<T, E>) -> (out: Result<Self, E>)
        ensures
            out == (match r {
                Ok(value) => Ok::<Self, E>(Typed { tag, value }),
                Err(e) => Err::<Self, E>(e),
            }),
    {
        match r {
            Ok(value) => Ok(Typed { tag, value }),
            Err(e) => Err(e),
        }
    }
}

/// Decode a typed field: the tag that the next byte stands for, and behind
/// it what the type `T` decodes out of the wire decoder.
///
/// Fails where the reader has no byte left, and where decoding the value
/// fails. Where it succeeds, the tag is the one of the byte that the
/// reader started with.
pub fn decode_typed<
    'de,
    R: PositionedReader<'de>,
    I: TypedIntegerEncoding,
    L: TypedUsizeEncoding,
    T: Decode<'de>,
>(reader: &mut R) -> (r: Result<Typed<T>, R::Error>)
    ensures
        old(reader).remaining().len() == 0 ==> r is Err && final(reader).remaining().len() == 0,
        r matches Ok(typed) ==> old(reader).remaining().len() > 0 && typed.tag
            == TypeTag::spec_from_byte(old(reader).remaining()[0]),
{
    let tag = TypeTag::from_byte(reader.read_byte()?);
    Typed::tagged(tag, T::decode(WireDecoder::<R, I, L>::new(reader)))
}

} // verus!
