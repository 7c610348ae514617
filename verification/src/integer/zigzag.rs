//! Generic zigzag encoding for integers.
//!
//! Zig-zag maps a signed number to an unsigned one so that numbers of a small
//! magnitude stay small: 0, -1, 1, -2, 2 become 0, 1, 2, 3, 4.

use crate::integer::{Signed, Unsigned};
use vstd::prelude::*;

verus! {

/// The zig-zag form of a number.
pub open spec fn encoded(x: int) -> nat {
    if x >= 0 {
        (2 * x) as nat
    } else {
        (-2 * x - 1) as nat
    }
}

/// The number that has the given zig-zag form.
pub open spec fn decoded(u: nat) -> int {
    if u % 2 == 0 {
        (u / 2) as int
    } else {
        -((u / 2) as int) - 1
    }
}

/// Encode an integer into zig-zag encoding.
#[inline]
pub fn encode<T: Signed>(x: T) -> (r: T::Unsigned)
    ensures
        r.value() == encoded(x.value()),
{
    x.zigzag()
}

/// Decode an integer from zig-zag encoding.
#[inline]
pub fn decode<T: Signed>(u: T::Unsigned) -> (r: T)
    ensures
        r.value() == decoded(u.value()),
{
    T::from_zigzag(u)
}

/// Decoding the zig-zag form of a number gives the number back, and the forms
/// of 0, -1 and 1 are 0, 1 and 2.
pub proof fn lemma_zigzag_round_trip(x: int)
    ensures
        decoded(encoded(x)) == x,
        encoded(0) == 0,
        encoded(-1) == 1,
        encoded(1) == 2,
{
}

/// Encoding the number that a zig-zag form stands for gives the form back.
pub proof fn lemma_zigzag_onto(u: nat)
    ensures
        encoded(decoded(u)) == u,
{
}

/// A signed value that is encoded and decoded again is the value it was.
pub proof fn lemma_zigzag_value_round_trip<T: Signed>(x: T, u: T::Unsigned, y: T)
    requires
        u.value() == encoded(x.value()),
        y.value() == decoded(u.value()),
    ensures
        y == x,
{
    lemma_zigzag_round_trip(x.value());
    y.lemma_injective(x);
}

} // verus!
