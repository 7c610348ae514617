//! The tags of the integers of fixed width.

use crate::wire::types::{TypeKind, TypeTag};
use vstd::prelude::*;

verus! {

/// Trait that encodes common behaviors of unsigned numbers.
pub trait Typed {
    /// The number of bytes that the type takes.
    spec fn width() -> u8;

    /// The type flag used.
    fn type_flag() -> (tag: TypeTag)
        ensures
            tag == (TypeTag { kind: TypeKind::Fixed, len: Self::width() }),
            tag.wf(),
    ;
}

impl Typed for u16 {
    open spec fn width() -> u8 {
        2
    }

    #[inline]
    fn type_flag() -> (tag: TypeTag) {
        TypeTag::new(TypeKind::Fixed, 2)
    }
}

impl Typed for u32 {
    open spec fn width() -> u8 {
        4
    }

    #[inline]
    fn type_flag() -> (tag: TypeTag) {
        TypeTag::new(TypeKind::Fixed, 4)
    }
}

impl Typed for u64 {
    open spec fn width() -> u8 {
        8
    }

    #[inline]
    fn type_flag() -> (tag: TypeTag) {
        TypeTag::new(TypeKind::Fixed, 8)
    }
}

impl Typed for u128 {
    open spec fn width() -> u8 {
        16
    }

    #[inline]
    fn type_flag() -> (tag: TypeTag) {
        TypeTag::new(TypeKind::Fixed, 16)
    }
}

impl Typed for usize {
    open spec fn width() -> u8 {
        8
    }

    #[inline]
    fn type_flag() -> (tag: TypeTag) {
        TypeTag::new(TypeKind::Fixed, 8)
    }
}

} // verus!
