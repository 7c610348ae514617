//! Type tags of the binary-tagged format.
//!
//! Every value of the format starts with one tag byte. Its upper three bits
//! name a [`TypeKind`], its lower five bits hold a small length or value, or
//! [`SEE_NEXT`] when the length follows the tag.

use vstd::prelude::*;

verus! {

/// Data masked into the data type.
pub const LEN_MASK: u8 = 0b000_11111;

/// The subsequent byte is the byte to read.
pub const SEE_NEXT: u8 = 0b000_11111;

/// The structure of a type tag.
#[derive(Debug, Clone, Copy, PartialEq, Eq, Structural)]
pub enum TypeKind {
    /// A marker without a payload. Also tells an absent option from a present one.
    Mark,
    /// A single byte.
    Byte,
    /// A fixed element, where the length says how many bytes it consists of.
    Fixed,
    /// The next integer is using continuation integer encoding.
    Continuation,
    /// A length-prefixed byte sequence. The length bits indicate the length of
    /// the sequence unless they are all set to 1s.
    Prefixed,
    /// A length-prefixed sequence of typed values. The length bits indicate the
    /// length of the sequence unless they are all set to 1s.
    Sequence,
    /// A length-prefixed sequence of typed pairs of values.
    PairSequence,
    /// Unknown type tag.
    Unknown,
}

impl TypeKind {
    /// Position of the kind among the eight kinds, which is also the number
    /// held by the upper three bits of a tag byte.
    pub open spec fn index(self) -> nat {
        match self {
            TypeKind::Mark => 0,
            TypeKind::Byte => 1,
            TypeKind::Fixed => 2,
            TypeKind::Continuation => 3,
            TypeKind::Prefixed => 4,
            TypeKind::Sequence => 5,
            TypeKind::PairSequence => 6,
            TypeKind::Unknown => 7,
        }
    }

    /// The kind at the given position.
    pub open spec fn from_index(index: nat) -> TypeKind {
        if index == 0 {
            TypeKind::Mark
        } else if index == 1 {
            TypeKind::Byte
        } else if index == 2 {
            TypeKind::Fixed
        } else if index == 3 {
            TypeKind::Continuation
        } else if index == 4 {
            TypeKind::Prefixed
        } else if index == 5 {
            TypeKind::Sequence
        } else if index == 6 {
            TypeKind::PairSequence
        } else {
            TypeKind::Unknown
        }
    }

    /// The kind as the upper three bits of a tag byte, the lower five being zero.
    pub fn bits(self) -> (b: u8)
        ensures
            b == 32 * self.index(),
    {
        match self {
            TypeKind::Mark => 0b000_00000,
            TypeKind::Byte => 0b001_00000,
            TypeKind::Fixed => 0b010_00000,
            TypeKind::Continuation => 0b011_00000,
            TypeKind::Prefixed => 0b100_00000,
            TypeKind::Sequence => 0b101_00000,
            TypeKind::PairSequence => 0b110_00000,
            TypeKind::Unknown => 0b111_00000,
        }
    }
}

/// A decoded type tag.
#[derive(Debug, Clone, Copy, PartialEq, Eq, Structural)]
pub struct TypeTag {
    /// The kind of the type flag.
    pub kind: TypeKind,
    /// The length of the type flag.
    pub len: u8,
}

impl TypeTag {
    /// A tag is well formed when its length fits the five length bits.
    pub open spec fn wf(self) -> bool {
        self.len <= LEN_MASK
    }

    /// The tag that a byte stands for.
    pub open spec fn spec_from_byte(b: u8) -> TypeTag {
        TypeTag { kind: TypeKind::from_index((b / 32) as nat), len: b % 32 }
    }

    /// The byte that stands for a well-formed tag.
    pub open spec fn spec_byte(self) -> u8 {
        (32 * self.kind.index() + self.len) as u8
    }

    /// The embedded length, unless the length bits are all set.
    pub open spec fn spec_len(self) -> Option<u8> {
        if self.len == LEN_MASK {
            None
        } else {
            Some(self.len)
        }
    }

    /// Construct a new type tag. A length that does not fit is replaced by
    /// the marker for "the length follows".
    #[inline]
    pub fn new(kind: TypeKind, len: u8) -> (tag: Self)
        ensures
            tag.kind == kind,
            tag.len == if len < LEN_MASK { len } else { LEN_MASK },
            tag.wf(),
    {
        Self { kind, len: if len < LEN_MASK { len } else { LEN_MASK } }
    }

    /// Attempt to construct a type tag with the given length embedded.
    ///
    /// Returns a tuple where the boolean indicates if the value was embedded or
    /// not.
    #[inline]
    pub fn with_len(kind: TypeKind, len: usize) -> (r: (Self, bool))
        ensures
            r.1 == (len < LEN_MASK),
            r.0.kind == kind,
            r.0.len == if len < LEN_MASK { len as u8 } else { LEN_MASK },
            r.0.wf(),
    {
        if len < LEN_MASK as usize {
            (Self::new(kind, len as u8), true)
        } else {
            (Self::new(kind, LEN_MASK), false)
        }
    }

    /// Attempt to construct a type tag with the given byte embedded.
    ///
    /// Returns a tuple where the boolean indicates if the value was embedded or
    /// not.
    #[inline]
    pub fn with_byte(kind: TypeKind, len: u8) -> (r: (Self, bool))
        ensures
            r.1 == (len < LEN_MASK),
            r.0.kind == kind,
            r.0.len == if len < LEN_MASK { len } else { LEN_MASK },
            r.0.wf(),
    {
        if len < LEN_MASK {
            (Self::new(kind, len), true)
        } else {
            (Self::new(kind, LEN_MASK), false)
        }
    }

    /// Construct from a byte.
    #[inline]
    pub fn from_byte(b: u8) -> (tag: Self)
        ensures
            tag == Self::spec_from_byte(b),
            tag.wf(),
    {
        let len = b & LEN_MASK;
        let upper = b & !LEN_MASK;
        assert(len == b % 32 && upper == 32 * (b / 32) && b / 32 < 8) by (bit_vector)
            requires
                len == b & 0b000_11111u8,
                upper == b & !0b000_11111u8,
        ;
        let kind = if upper == 0b000_00000 {
            TypeKind::Mark
        } else if upper == 0b001_00000 {
            TypeKind::Byte
        } else if upper == 0b010_00000 {
            TypeKind::Fixed
        } else if upper == 0b011_00000 {
            TypeKind::Continuation
        } else if upper == 0b100_00000 {
            TypeKind::Prefixed
        } else if upper == 0b101_00000 {
            TypeKind::Sequence
        } else if upper == 0b110_00000 {
            TypeKind::PairSequence
        } else {
            TypeKind::Unknown
        };
        Self { kind, len }
    }

    /// Coerce type flag into a byte.
    #[inline]
    pub fn byte(self) -> (b: u8)
        ensures
            self.wf() ==> b == self.spec_byte(),
            self.wf() ==> Self::spec_from_byte(b) == self,
    {
        let upper = self.kind.bits();
        let len = self.len;
        let b = upper | len;
        assert(len <= 31 && upper % 32 == 0 ==> b == upper + len) by (bit_vector)
            requires
                b == upper | len,
        ;
        b
    }

    /// Get the embedded length as a byte.
    #[inline]
    pub fn len(self) -> (r: Option<u8>)
        ensures
            r == self.spec_len(),
    {
        if self.len == LEN_MASK {
            None
        } else {
            Some(self.len)
        }
    }

    /// A well-formed tag and its byte stand for each other.
    pub proof fn lemma_byte_round_trip(self)
        requires
            self.wf(),
        ensures
            Self::spec_from_byte(self.spec_byte()) == self,
    {
    }

    /// Every byte is the byte of the tag it stands for, so that a tag of a
    /// kind this library does not know is kept as it is.
    pub proof fn lemma_tag_round_trip(b: u8)
        ensures
            Self::spec_from_byte(b).wf(),
            Self::spec_from_byte(b).spec_byte() == b,
    {
    }
}

} // verus!
