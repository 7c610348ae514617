//! The signed integer types as [`Signed`] numbers.

use crate::integer::Signed;
use vstd::prelude::*;

verus! {

impl Signed for i8 {
    type Unsigned = u8;

    open spec fn value(self) -> int {
        self as int
    }

    proof fn lemma_bounded(self) {
    }

    proof fn lemma_injective(self, other: Self) {
    }

    #[inline]
    fn zigzag(self) -> (r: u8) {
        let r = ((self << 1) ^ (self >> 7)) as u8;
        assert(r == (if self >= 0 {
            2 * self
        } else {
            -2 * self - 1
        })) by (bit_vector)
            requires
                r == ((self << 1) ^ (self >> 7)) as u8,
        ;
        r
    }

    #[inline]
    fn from_zigzag(u: u8) -> (r: Self) {
        let half = u >> 1;
        let low = u & 1;
        assert(half == u / 2 && low == u % 2) by (bit_vector)
            requires
                half == u >> 1,
                low == u & 1,
        ;
        let half = half as i8;
        let mask = -(low as i8);
        let r = half ^ mask;
        assert(r == (if mask == 0 {
            half as int
        } else {
            -half - 1
        })) by (bit_vector)
            requires
                r == half ^ mask,
                mask == 0 || mask == -1,
        ;
        r
    }

    #[inline]
    fn negate(self) -> (r: Option<u8>) {
        if self > 0 {
            None
        } else if self == i8::MIN {
            Some(i8::MAX as u8 + 1)
        } else {
            Some((-self) as u8)
        }
    }

    #[inline]
    fn negated(u: u8) -> (r: Option<Self>) {
        if u > i8::MAX as u8 + 1 {
            None
        } else if u == i8::MAX as u8 + 1 {
            Some(i8::MIN)
        } else {
            Some(-(u as i8))
        }
    }

    #[inline]
    fn positive(u: u8) -> (r: Option<Self>) {
        if u <= i8::MAX as u8 {
            Some(u as i8)
        } else {
            None
        }
    }

    #[inline]
    fn unsigned(self) -> (r: u8) {
        let r = self as u8;
        assert(r == (if self >= 0 {
            self as int
        } else {
            self + u8::MAX + 1
        })) by (bit_vector)
            requires
                r == self as u8,
        ;
        r
    }

    #[inline]
    fn from_unsigned(u: u8) -> (r: Self) {
        let r = u as i8;
        assert(r == (if 2 * u <= u8::MAX {
            u as int
        } else {
            u - u8::MAX - 1
        })) by (bit_vector)
            requires
                r == u as i8,
        ;
        r
    }
}

impl Signed for i16 {
    type Unsigned = u16;

    open spec fn value(self) -> int {
        self as int
    }

    proof fn lemma_bounded(self) {
    }

    proof fn lemma_injective(self, other: Self) {
    }

    #[inline]
    fn zigzag(self) -> (r: u16) {
        let r = ((self << 1) ^ (self >> 15)) as u16;
        assert(r == (if self >= 0 {
            2 * self
        } else {
            -2 * self - 1
        })) by (bit_vector)
            requires
                r == ((self << 1) ^ (self >> 15)) as u16,
        ;
        r
    }

    #[inline]
    fn from_zigzag(u: u16) -> (r: Self) {
        let half = u >> 1;
        let low = u & 1;
        assert(half == u / 2 && low == u % 2) by (bit_vector)
            requires
                half == u >> 1,
                low == u & 1,
        ;
        let half = half as i16;
        let mask = -(low as i16);
        let r = half ^ mask;
        assert(r == (if mask == 0 {
            half as int
        } else {
            -half - 1
        })) by (bit_vector)
            requires
                r == half ^ mask,
                mask == 0 || mask == -1,
        ;
        r
    }

    #[inline]
    fn negate(self) -> (r: Option<u16>) {
        if self > 0 {
            None
        } else if self == i16::MIN {
            Some(i16::MAX as u16 + 1)
        } else {
            Some((-self) as u16)
        }
    }

    #[inline]
    fn negated(u: u16) -> (r: Option<Self>) {
        if u > i16::MAX as u16 + 1 {
            None
        } else if u == i16::MAX as u16 + 1 {
            Some(i16::MIN)
        } else {
            Some(-(u as i16))
        }
    }

    #[inline]
    fn positive(u: u16) -> (r: Option<Self>) {
        if u <= i16::MAX as u16 {
            Some(u as i16)
        } else {
            None
        }
    }

    #[inline]
    fn unsigned(self) -> (r: u16) {
        let r = self as u16;
        assert(r == (if self >= 0 {
            self as int
        } else {
            self + u16::MAX + 1
        })) by (bit_vector)
            requires
                r == self as u16,
        ;
        r
    }

    #[inline]
    fn from_unsigned(u: u16) -> (r: Self) {
        let r = u as i16;
        assert(r == (if 2 * u <= u16::MAX {
            u as int
        } else {
            u - u16::MAX - 1
        })) by (bit_vector)
            requires
                r == u as i16,
        ;
        r
    }
}

impl Signed for i32 {
    type Unsigned = u32;

    open spec fn value(self) -> int {
        self as int
    }

    proof fn lemma_bounded(self) {
    }

    proof fn lemma_injective(self, other: Self) {
    }

    #[inline]
    fn zigzag(self) -> (r: u32) {
        let r = ((self << 1) ^ (self >> 31)) as u32;
        assert(r == (if self >= 0 {
            2 * self
        } else {
            -2 * self - 1
        })) by (bit_vector)
            requires
                r == ((self << 1) ^ (self >> 31)) as u32,
        ;
        r
    }

    #[inline]
    fn from_zigzag(u: u32) -> (r: Self) {
        let half = u >> 1;
        let low = u & 1;
        assert(half == u / 2 && low == u % 2) by (bit_vector)
            requires
                half == u >> 1,
                low == u & 1,
        ;
        let half = half as i32;
        let mask = -(low as i32);
        let r = half ^ mask;
        assert(r == (if mask == 0 {
            half as int
        } else {
            -half - 1
        })) by (bit_vector)
            requires
                r == half ^ mask,
                mask == 0 || mask == -1,
        ;
        r
    }

    #[inline]
    fn negate(self) -> (r: Option<u32>) {
        if self > 0 {
            None
        } else if self == i32::MIN {
            Some(i32::MAX as u32 + 1)
        } else {
            Some((-self) as u32)
        }
    }

    #[inline]
    fn negated(u: u32) -> (r: Option<Self>) {
        if u > i32::MAX as u32 + 1 {
            None
        } else if u == i32::MAX as u32 + 1 {
            Some(i32::MIN)
        } else {
            Some(-(u as i32))
        }
    }

    #[inline]
    fn positive(u: u32) -> (r: Option<Self>) {
        if u <= i32::MAX as u32 {
            Some(u as i32)
        } else {
            None
        }
    }

    #[inline]
    fn unsigned(self) -> (r: u32) {
        let r = self as u32;
        assert(r == (if self >= 0 {
            self as int
        } else {
            self + u32::MAX + 1
        })) by (bit_vector)
            requires
                r == self as u32,
        ;
        r
    }

    #[inline]
    fn from_unsigned(u: u32) -> (r: Self) {
        let r = u as i32;
        assert(r == (if 2 * u <= u32::MAX {
            u as int
        } else {
            u - u32::MAX - 1
        })) by (bit_vector)
            requires
                r == u as i32,
        ;
        r
    }
}

impl Signed for i64 {
    type Unsigned = u64;

    open spec fn value(self) -> int {
        self as int
    }

    proof fn lemma_bounded(self) {
    }

    proof fn lemma_injective(self, other: Self) {
    }

    #[inline]
    fn zigzag(self) -> (r: u64) {
        let r = ((self << 1) ^ (self >> 63)) as u64;
        assert(r == (if self >= 0 {
            2 * self
        } else {
            -2 * self - 1
        })) by (bit_vector)
            requires
                r == ((self << 1) ^ (self >> 63)) as u64,
        ;
        r
    }

    #[inline]
    fn from_zigzag(u: u64) -> (r: Self) {
        let half = u >> 1;
        let low = u & 1;
        assert(half == u / 2 && low == u % 2) by (bit_vector)
            requires
                half == u >> 1,
                low == u & 1,
        ;
        let half = half as i64;
        let mask = -(low as i64);
        let r = half ^ mask;
        assert(r == (if mask == 0 {
            half as int
        } else {
            -half - 1
        })) by (bit_vector)
            requires
                r == half ^ mask,
                mask == 0 || mask == -1,
        ;
        r
    }

    #[inline]
    fn negate(self) -> (r: Option<u64>) {
        if self > 0 {
            None
        } else if self == i64::MIN {
            Some(i64::MAX as u64 + 1)
        } else {
            Some((-self) as u64)
        }
    }

    #[inline]
    fn negated(u: u64) -> (r: Option<Self>) {
        if u > i64::MAX as u64 + 1 {
            None
        } else if u == i64::MAX as u64 + 1 {
            Some(i64::MIN)
        } else {
            Some(-(u as i64))
        }
    }

    #[inline]
    fn positive(u: u64) -> (r: Option<Self>) {
        if u <= i64::MAX as u64 {
            Some(u as i64)
        } else {
            None
        }
    }

    #[inline]
    fn unsigned(self) -> (r: u64) {
        let r = self as u64;
        assert(r == (if self >= 0 {
            self as int
        } else {
            self + u64::MAX + 1
        })) by (bit_vector)
            requires
                r == self as u64,
        ;
        r
    }

    #[inline]
    fn from_unsigned(u: u64) -> (r: Self) {
        let r = u as i64;
        assert(r == (if 2 * u <= u64::MAX {
            u as int
        } else {
            u - u64::MAX - 1
        })) by (bit_vector)
            requires
                r == u as i64,
        ;
        r
    }
}

impl Signed for i128 {
    type Unsigned = u128;

    open spec fn value(self) -> int {
        self as int
    }

    proof fn lemma_bounded(self) {
    }

    proof fn lemma_injective(self, other: Self) {
    }

    #[inline]
    fn zigzag(self) -> (r: u128) {
        let r = ((self << 1) ^ (self >> 127)) as u128;
        assert(r == (if self >= 0 {
            2 * self
        } else {
            -2 * self - 1
        })) by (bit_vector)
            requires
                r == ((self << 1) ^ (self >> 127)) as u128,
        ;
        r
    }

    #[inline]
    fn from_zigzag(u: u128) -> (r: Self) {
        let half = u >> 1;
        let low = u & 1;
        assert(half == u / 2 && low == u % 2) by (bit_vector)
            requires
                half == u >> 1,
                low == u & 1,
        ;
        let half = half as i128;
        let mask = -(low as i128);
        let r = half ^ mask;
        assert(r == (if mask == 0 {
            half as int
        } else {
            -half - 1
        })) by (bit_vector)
            requires
                r == half ^ mask,
                mask == 0 || mask == -1,
        ;
        r
    }

    #[inline]
    fn negate(self) -> (r: Option<u128>) {
        if self > 0 {
            None
        } else if self == i128::MIN {
            Some(i128::MAX as u128 + 1)
        } else {
            Some((-self) as u128)
        }
    }

    #[inline]
    fn negated(u: u128) -> (r: Option<Self>) {
        if u > i128::MAX as u128 + 1 {
            None
        } else if u == i128::MAX as u128 + 1 {
            Some(i128::MIN)
        } else {
            Some(-(u as i128))
        }
    }

    #[inline]
    fn positive(u: u128) -> (r: Option<Self>) {
        if u <= i128::MAX as u128 {
            Some(u as i128)
        } else {
            None
        }
    }

    #[inline]
    fn unsigned(self) -> (r: u128) {
        let r = self as u128;
        assert(r == (if self >= 0 {
            self as int
        } else {
            self + u128::MAX + 1
        })) by (bit_vector)
            requires
                r == self as u128,
        ;
        r
    }

    #[inline]
    fn from_unsigned(u: u128) -> (r: Self) {
        let r = u as i128;
        assert(r == (if 2 * u <= u128::MAX {
            u as int
        } else {
            u - u128::MAX - 1
        })) by (bit_vector)
            requires
                r == u as i128,
        ;
        r
    }
}

impl Signed for isize {
    type Unsigned = usize;

    open spec fn value(self) -> int {
        self as int
    }

    proof fn lemma_bounded(self) {
    }

    proof fn lemma_injective(self, other: Self) {
    }

    #[inline]
    fn zigzag(self) -> (r: usize) {
        (self as i64).zigzag() as usize
    }

    #[inline]
    fn from_zigzag(u: usize) -> (r: Self) {
        i64::from_zigzag(u as u64) as isize
    }

    #[inline]
    fn negate(self) -> (r: Option<usize>) {
        if self > 0 {
            None
        } else if self == isize::MIN {
            Some(isize::MAX as usize + 1)
        } else {
            Some((-self) as usize)
        }
    }

    #[inline]
    fn negated(u: usize) -> (r: Option<Self>) {
        if u > isize::MAX as usize + 1 {
            None
        } else if u == isize::MAX as usize + 1 {
            Some(isize::MIN)
        } else {
            Some(-(u as isize))
        }
    }

    #[inline]
    fn positive(u: usize) -> (r: Option<Self>) {
        if u <= isize::MAX as usize {
            Some(u as isize)
        } else {
            None
        }
    }

    #[inline]
    fn unsigned(self) -> (r: usize) {
        if self >= 0 {
            self as usize
        } else {
            (self - isize::MIN) as usize + (usize::MAX / 2 + 1)
        }
    }

    #[inline]
    fn from_unsigned(u: usize) -> (r: Self) {
        if u <= usize::MAX / 2 {
            u as isize
        } else {
            (u - (usize::MAX / 2 + 1)) as isize + isize::MIN
        }
    }
}

} // verus!
