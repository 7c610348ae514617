//! Markers that say how integers and lengths are encoded.

use crate::integer::byteorder::NetworkEndian;
use std::marker::PhantomData;
use vstd::prelude::*;

verus! {

/// Type that indicates that the given numerical type should use variable-length
/// encoding: groups of seven bits, and zig-zag for the signed types.
#[derive(Debug, Clone, Copy, PartialEq, Eq, Structural)]
pub struct Variable;

/// A fixed-length integer encoding which encodes something to a little-endian
/// or a big-endian encoding of the width of the type.
pub struct Fixed<B = NetworkEndian> {
    marker: PhantomData<B>,
}

/// A fixed-length encoding which encodes lengths as a number of the type `L`,
/// in the byte order `B`.
pub struct FixedLength<L = u32, B = NetworkEndian> {
    marker: PhantomData<(L, B)>,
}

} // verus!
