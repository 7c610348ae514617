//! The unsigned integer types as [`Unsigned`] numbers.

use crate::integer::{power, Unsigned};
use vstd::prelude::*;

verus! {

/// The powers of ten that are looked up.
pub const POWS_U8: [u8; 3] = [
    1,
    10,
    100,
];

/// The table holds the powers of ten, and the next power is too large for
/// the table.
pub proof fn lemma_pows_u8()
    ensures
        forall|i: int| 0 <= i < 3 ==> POWS_U8[i] == power(10, i as nat),
        power(10, 3) == 1000,
{
    assert(power(10, 0) == 1);
    assert(power(10, 1) == 10);
    assert(power(10, 2) == 100);
    assert(power(10, 3) == 1000);
}

impl Unsigned for u8 {
    open spec fn value(self) -> nat {
        self as nat
    }

    open spec fn max_value() -> nat {
        u8::MAX as nat
    }

    open spec fn spec_groups() -> nat {
        2
    }

    open spec fn at_hand(exp: nat) -> bool {
        exp < 3
    }

    open spec fn spec_bytes() -> nat {
        1
    }

    proof fn lemma_bounded(self) {
    }

    proof fn lemma_injective(self, other: Self) {
    }

    proof fn lemma_shape() {
        reveal_with_fuel(power, 20);
    }

    #[inline]
    fn groups() -> (n: usize) {
        2
    }

    #[inline]
    fn bytes() -> (n: usize) {
        1
    }

    #[inline]
    fn from_byte(b: u8) -> (r: Self) {
        b as u8
    }

    #[inline]
    fn is_zero(self) -> (r: bool) {
        self == 0
    }

    #[inline]
    fn low_group(self) -> (b: u8) {
        (self % 128) as u8
    }

    #[inline]
    fn drop_group(self) -> (r: Self) {
        self / 128
    }

    #[inline]
    fn low_byte(self) -> (b: u8) {
        self
    }

    #[inline]
    fn drop_byte(self) -> (r: Self) {
        0
    }

    #[inline]
    fn append_byte(self, b: u8) -> (r: Option<Self>) {
        if self == 0 {
            Some(b)
        } else {
            None
        }
    }

    #[inline]
    fn checked_add(self, other: Self) -> (r: Option<Self>) {
        u8::checked_add(self, other)
    }

    #[inline]
    fn checked_mul(self, other: Self) -> (r: Option<Self>) {
        u8::checked_mul(self, other)
    }

    #[inline]
    fn checked_mul10(self) -> (r: Option<Self>) {
        u8::checked_mul(self, 10)
    }

    #[inline]
    fn pow10(exp: u32) -> (r: Option<Self>) {
        proof {
            lemma_pows_u8();
        }
        if exp < 3 {
            Some(POWS_U8[exp as usize])
        } else {
            None
        }
    }

    #[inline]
    fn low_digit(self) -> (d: u8) {
        (self % 10) as u8
    }

    #[inline]
    fn drop_digit(self) -> (r: Self) {
        self / 10
    }

    #[inline]
    fn div_mod_ten(self) -> (r: Option<Self>) {
        if self % 10 == 0 {
            Some(self / 10)
        } else {
            None
        }
    }

    #[inline]
    fn from_usize(n: usize) -> (r: Option<Self>) {
        if n <= u8::MAX as usize {
            Some(n as u8)
        } else {
            None
        }
    }

    #[inline]
    fn to_usize(self) -> (r: Option<usize>) {
        Some(self as usize)
    }
}

/// The powers of ten that are looked up.
pub const POWS_U16: [u16; 5] = [
    1,
    10,
    100,
    1000,
    10000,
];

/// The table holds the powers of ten, and the next power is too large for
/// the table.
pub proof fn lemma_pows_u16()
    ensures
        forall|i: int| 0 <= i < 5 ==> POWS_U16[i] == power(10, i as nat),
        power(10, 5) == 100000,
{
    assert(power(10, 0) == 1);
    assert(power(10, 1) == 10);
    assert(power(10, 2) == 100);
    assert(power(10, 3) == 1000);
    assert(power(10, 4) == 10000);
    assert(power(10, 5) == 100000);
}

impl Unsigned for u16 {
    open spec fn value(self) -> nat {
        self as nat
    }

    open spec fn max_value() -> nat {
        u16::MAX as nat
    }

    open spec fn spec_groups() -> nat {
        3
    }

    open spec fn at_hand(exp: nat) -> bool {
        exp < 5
    }

    open spec fn spec_bytes() -> nat {
        2
    }

    proof fn lemma_bounded(self) {
    }

    proof fn lemma_injective(self, other: Self) {
    }

    proof fn lemma_shape() {
        reveal_with_fuel(power, 20);
    }

    #[inline]
    fn groups() -> (n: usize) {
        3
    }

    #[inline]
    fn bytes() -> (n: usize) {
        2
    }

    #[inline]
    fn from_byte(b: u8) -> (r: Self) {
        b as u16
    }

    #[inline]
    fn is_zero(self) -> (r: bool) {
        self == 0
    }

    #[inline]
    fn low_group(self) -> (b: u8) {
        (self % 128) as u8
    }

    #[inline]
    fn drop_group(self) -> (r: Self) {
        self / 128
    }

    #[inline]
    fn low_byte(self) -> (b: u8) {
        (self % 256) as u8
    }

    #[inline]
    fn drop_byte(self) -> (r: Self) {
        self / 256
    }

    #[inline]
    fn append_byte(self, b: u8) -> (r: Option<Self>) {
        match u16::checked_mul(self, 256) {
            Some(shifted) => u16::checked_add(shifted, b as u16),
            None => None,
        }
    }

    #[inline]
    fn checked_add(self, other: Self) -> (r: Option<Self>) {
        u16::checked_add(self, other)
    }

    #[inline]
    fn checked_mul(self, other: Self) -> (r: Option<Self>) {
        u16::checked_mul(self, other)
    }

    #[inline]
    fn checked_mul10(self) -> (r: Option<Self>) {
        u16::checked_mul(self, 10)
    }

    #[inline]
    fn pow10(exp: u32) -> (r: Option<Self>) {
        proof {
            lemma_pows_u16();
        }
        if exp < 5 {
            Some(POWS_U16[exp as usize])
        } else {
            None
        }
    }

    #[inline]
    fn low_digit(self) -> (d: u8) {
        (self % 10) as u8
    }

    #[inline]
    fn drop_digit(self) -> (r: Self) {
        self / 10
    }

    #[inline]
    fn div_mod_ten(self) -> (r: Option<Self>) {
        if self % 10 == 0 {
            Some(self / 10)
        } else {
            None
        }
    }

    #[inline]
    fn from_usize(n: usize) -> (r: Option<Self>) {
        if n <= u16::MAX as usize {
            Some(n as u16)
        } else {
            None
        }
    }

    #[inline]
    fn to_usize(self) -> (r: Option<usize>) {
        Some(self as usize)
    }
}

/// The powers of ten that are looked up.
pub const POWS_U32: [u32; 10] = [
    1,
    10,
    100,
    1000,
    10000,
    100000,
    1000000,
    10000000,
    100000000,
    1000000000,
];

/// The table holds the powers of ten, and the next power is too large for
/// the table.
pub proof fn lemma_pows_u32()
    ensures
        forall|i: int| 0 <= i < 10 ==> POWS_U32[i] == power(10, i as nat),
        power(10, 10) == 10000000000,
{
    assert(power(10, 0) == 1);
    assert(power(10, 1) == 10);
    assert(power(10, 2) == 100);
    assert(power(10, 3) == 1000);
    assert(power(10, 4) == 10000);
    assert(power(10, 5) == 100000);
    assert(power(10, 6) == 1000000);
    assert(power(10, 7) == 10000000);
    assert(power(10, 8) == 100000000);
    assert(power(10, 9) == 1000000000);
    assert(power(10, 10) == 10000000000);
}

impl Unsigned for u32 {
    open spec fn value(self) -> nat {
        self as nat
    }

    open spec fn max_value() -> nat {
        u32::MAX as nat
    }

    open spec fn spec_groups() -> nat {
        5
    }

    open spec fn at_hand(exp: nat) -> bool {
        exp < 10
    }

    open spec fn spec_bytes() -> nat {
        4
    }

    proof fn lemma_bounded(self) {
    }

    proof fn lemma_injective(self, other: Self) {
    }

    proof fn lemma_shape() {
        reveal_with_fuel(power, 20);
    }

    #[inline]
    fn groups() -> (n: usize) {
        5
    }

    #[inline]
    fn bytes() -> (n: usize) {
        4
    }

    #[inline]
    fn from_byte(b: u8) -> (r: Self) {
        b as u32
    }

    #[inline]
    fn is_zero(self) -> (r: bool) {
        self == 0
    }

    #[inline]
    fn low_group(self) -> (b: u8) {
        (self % 128) as u8
    }

    #[inline]
    fn drop_group(self) -> (r: Self) {
        self / 128
    }

    #[inline]
    fn low_byte(self) -> (b: u8) {
        (self % 256) as u8
    }

    #[inline]
    fn drop_byte(self) -> (r: Self) {
        self / 256
    }

    #[inline]
    fn append_byte(self, b: u8) -> (r: Option<Self>) {
        match u32::checked_mul(self, 256) {
            Some(shifted) => u32::checked_add(shifted, b as u32),
            None => None,
        }
    }

    #[inline]
    fn checked_add(self, other: Self) -> (r: Option<Self>) {
        u32::checked_add(self, other)
    }

    #[inline]
    fn checked_mul(self, other: Self) -> (r: Option<Self>) {
        u32::checked_mul(self, other)
    }

    #[inline]
    fn checked_mul10(self) -> (r: Option<Self>) {
        u32::checked_mul(self, 10)
    }

    #[inline]
    fn pow10(exp: u32) -> (r: Option<Self>) {
        proof {
            lemma_pows_u32();
        }
        if exp < 10 {
            Some(POWS_U32[exp as usize])
        } else {
            None
        }
    }

    #[inline]
    fn low_digit(self) -> (d: u8) {
        (self % 10) as u8
    }

    #[inline]
    fn drop_digit(self) -> (r: Self) {
        self / 10
    }

    #[inline]
    fn div_mod_ten(self) -> (r: Option<Self>) {
        if self % 10 == 0 {
            Some(self / 10)
        } else {
            None
        }
    }

    #[inline]
    fn from_usize(n: usize) -> (r: Option<Self>) {
        if n <= u32::MAX as usize {
            Some(n as u32)
        } else {
            None
        }
    }

    #[inline]
    fn to_usize(self) -> (r: Option<usize>) {
        Some(self as usize)
    }
}

/// The powers of ten that are looked up.
pub const POWS_U64: [u64; 20] = [
    1,
    10,
    100,
    1000,
    10000,
    100000,
    1000000,
    10000000,
    100000000,
    1000000000,
    10000000000,
    100000000000,
    1000000000000,
    10000000000000,
    100000000000000,
    1000000000000000,
    10000000000000000,
    100000000000000000,
    1000000000000000000,
    10000000000000000000,
];

/// The table holds the powers of ten, and the next power is too large for
/// the table.
pub proof fn lemma_pows_u64()
    ensures
        forall|i: int| 0 <= i < 20 ==> POWS_U64[i] == power(10, i as nat),
        power(10, 20) == 100000000000000000000,
{
    assert(power(10, 0) == 1);
    assert(power(10, 1) == 10);
    assert(power(10, 2) == 100);
    assert(power(10, 3) == 1000);
    assert(power(10, 4) == 10000);
    assert(power(10, 5) == 100000);
    assert(power(10, 6) == 1000000);
    assert(power(10, 7) == 10000000);
    assert(power(10, 8) == 100000000);
    assert(power(10, 9) == 1000000000);
    assert(power(10, 10) == 10000000000);
    assert(power(10, 11) == 100000000000);
    assert(power(10, 12) == 1000000000000);
    assert(power(10, 13) == 10000000000000);
    assert(power(10, 14) == 100000000000000);
    assert(power(10, 15) == 1000000000000000);
    assert(power(10, 16) == 10000000000000000);
    assert(power(10, 17) == 100000000000000000);
    assert(power(10, 18) == 1000000000000000000);
    assert(power(10, 19) == 10000000000000000000);
    assert(power(10, 20) == 100000000000000000000);
}

impl Unsigned for u64 {
    open spec fn value(self) -> nat {
        self as nat
    }

    open spec fn max_value() -> nat {
        u64::MAX as nat
    }

    open spec fn spec_groups() -> nat {
        10
    }

    open spec fn at_hand(exp: nat) -> bool {
        exp < 20
    }

    open spec fn spec_bytes() -> nat {
        8
    }

    proof fn lemma_bounded(self) {
    }

    proof fn lemma_injective(self, other: Self) {
    }

    proof fn lemma_shape() {
        reveal_with_fuel(power, 20);
    }

    #[inline]
    fn groups() -> (n: usize) {
        10
    }

    #[inline]
    fn bytes() -> (n: usize) {
        8
    }

    #[inline]
    fn from_byte(b: u8) -> (r: Self) {
        b as u64
    }

    #[inline]
    fn is_zero(self) -> (r: bool) {
        self == 0
    }

    #[inline]
    fn low_group(self) -> (b: u8) {
        (self % 128) as u8
    }

    #[inline]
    fn drop_group(self) -> (r: Self) {
        self / 128
    }

    #[inline]
    fn low_byte(self) -> (b: u8) {
        (self % 256) as u8
    }

    #[inline]
    fn drop_byte(self) -> (r: Self) {
        self / 256
    }

    #[inline]
    fn append_byte(self, b: u8) -> (r: Option<Self>) {
        match u64::checked_mul(self, 256) {
            Some(shifted) => u64::checked_add(shifted, b as u64),
            None => None,
        }
    }

    #[inline]
    fn checked_add(self, other: Self) -> (r: Option<Self>) {
        u64::checked_add(self, other)
    }

    #[inline]
    fn checked_mul(self, other: Self) -> (r: Option<Self>) {
        u64::checked_mul(self, other)
    }

    #[inline]
    fn checked_mul10(self) -> (r: Option<Self>) {
        u64::checked_mul(self, 10)
    }

    #[inline]
    fn pow10(exp: u32) -> (r: Option<Self>) {
        proof {
            lemma_pows_u64();
        }
        if exp < 20 {
            Some(POWS_U64[exp as usize])
        } else {
            None
        }
    }

    #[inline]
    fn low_digit(self) -> (d: u8) {
        (self % 10) as u8
    }

    #[inline]
    fn drop_digit(self) -> (r: Self) {
        self / 10
    }

    #[inline]
    fn div_mod_ten(self) -> (r: Option<Self>) {
        if self % 10 == 0 {
            Some(self / 10)
        } else {
            None
        }
    }

    #[inline]
    fn from_usize(n: usize) -> (r: Option<Self>) {
        Some(n as u64)
    }

    #[inline]
    fn to_usize(self) -> (r: Option<usize>) {
        if self <= usize::MAX as u64 {
            Some(self as usize)
        } else {
            None
        }
    }
}

/// The powers of ten that are looked up.
pub const POWS_U128: [u128; 32] = [
    1,
    10,
    100,
    1000,
    10000,
    100000,
    1000000,
    10000000,
    100000000,
    1000000000,
    10000000000,
    100000000000,
    1000000000000,
    10000000000000,
    100000000000000,
    1000000000000000,
    10000000000000000,
    100000000000000000,
    1000000000000000000,
    10000000000000000000,
    100000000000000000000,
    1000000000000000000000,
    10000000000000000000000,
    100000000000000000000000,
    1000000000000000000000000,
    10000000000000000000000000,
    100000000000000000000000000,
    1000000000000000000000000000,
    10000000000000000000000000000,
    100000000000000000000000000000,
    1000000000000000000000000000000,
    10000000000000000000000000000000,
];

/// The table holds the powers of ten, and the next power is too large for
/// the table.
pub proof fn lemma_pows_u128()
    ensures
        forall|i: int| 0 <= i < 32 ==> POWS_U128[i] == power(10, i as nat),
        power(10, 32) == 100000000000000000000000000000000,
{
    assert(power(10, 0) == 1);
    assert(power(10, 1) == 10);
    assert(power(10, 2) == 100);
    assert(power(10, 3) == 1000);
    assert(power(10, 4) == 10000);
    assert(power(10, 5) == 100000);
    assert(power(10, 6) == 1000000);
    assert(power(10, 7) == 10000000);
    assert(power(10, 8) == 100000000);
    assert(power(10, 9) == 1000000000);
    assert(power(10, 10) == 10000000000);
    assert(power(10, 11) == 100000000000);
    assert(power(10, 12) == 1000000000000);
    assert(power(10, 13) == 10000000000000);
    assert(power(10, 14) == 100000000000000);
    assert(power(10, 15) == 1000000000000000);
    assert(power(10, 16) == 10000000000000000);
    assert(power(10, 17) == 100000000000000000);
    assert(power(10, 18) == 1000000000000000000);
    assert(power(10, 19) == 10000000000000000000);
    assert(power(10, 20) == 100000000000000000000);
    assert(power(10, 21) == 1000000000000000000000);
    assert(power(10, 22) == 10000000000000000000000);
    assert(power(10, 23) == 100000000000000000000000);
    assert(power(10, 24) == 1000000000000000000000000);
    assert(power(10, 25) == 10000000000000000000000000);
    assert(power(10, 26) == 100000000000000000000000000);
    assert(power(10, 27) == 1000000000000000000000000000);
    assert(power(10, 28) == 10000000000000000000000000000);
    assert(power(10, 29) == 100000000000000000000000000000);
    assert(power(10, 30) == 1000000000000000000000000000000);
    assert(power(10, 31) == 10000000000000000000000000000000);
    assert(power(10, 32) == 100000000000000000000000000000000);
}

impl Unsigned for u128 {
    open spec fn value(self) -> nat {
        self as nat
    }

    open spec fn max_value() -> nat {
        u128::MAX as nat
    }

    open spec fn spec_groups() -> nat {
        19
    }

    open spec fn at_hand(exp: nat) -> bool {
        exp < 32
    }

    open spec fn spec_bytes() -> nat {
        16
    }

    proof fn lemma_bounded(self) {
    }

    proof fn lemma_injective(self, other: Self) {
    }

    proof fn lemma_shape() {
        reveal_with_fuel(power, 20);
    }

    #[inline]
    fn groups() -> (n: usize) {
        19
    }

    #[inline]
    fn bytes() -> (n: usize) {
        16
    }

    #[inline]
    fn from_byte(b: u8) -> (r: Self) {
        b as u128
    }

    #[inline]
    fn is_zero(self) -> (r: bool) {
        self == 0
    }

    #[inline]
    fn low_group(self) -> (b: u8) {
        (self % 128) as u8
    }

    #[inline]
    fn drop_group(self) -> (r: Self) {
        self / 128
    }

    #[inline]
    fn low_byte(self) -> (b: u8) {
        (self % 256) as u8
    }

    #[inline]
    fn drop_byte(self) -> (r: Self) {
        self / 256
    }

    #[inline]
    fn append_byte(self, b: u8) -> (r: Option<Self>) {
        match u128::checked_mul(self, 256) {
            Some(shifted) => u128::checked_add(shifted, b as u128),
            None => None,
        }
    }

    #[inline]
    fn checked_add(self, other: Self) -> (r: Option<Self>) {
        u128::checked_add(self, other)
    }

    #[inline]
    fn checked_mul(self, other: Self) -> (r: Option<Self>) {
        u128::checked_mul(self, other)
    }

    #[inline]
    fn checked_mul10(self) -> (r: Option<Self>) {
        u128::checked_mul(self, 10)
    }

    #[inline]
    fn pow10(exp: u32) -> (r: Option<Self>) {
        proof {
            lemma_pows_u128();
        }
        if exp < 32 {
            Some(POWS_U128[exp as usize])
        } else {
            None
        }
    }

    #[inline]
    fn low_digit(self) -> (d: u8) {
        (self % 10) as u8
    }

    #[inline]
    fn drop_digit(self) -> (r: Self) {
        self / 10
    }

    #[inline]
    fn div_mod_ten(self) -> (r: Option<Self>) {
        if self % 10 == 0 {
            Some(self / 10)
        } else {
            None
        }
    }

    #[inline]
    fn from_usize(n: usize) -> (r: Option<Self>) {
        Some(n as u128)
    }

    #[inline]
    fn to_usize(self) -> (r: Option<usize>) {
        if self <= usize::MAX as u128 {
            Some(self as usize)
        } else {
            None
        }
    }
}

impl Unsigned for usize {
    open spec fn value(self) -> nat {
        self as nat
    }

    open spec fn max_value() -> nat {
        usize::MAX as nat
    }

    open spec fn spec_groups() -> nat {
        if usize::BITS == 32 {
            5
        } else {
            10
        }
    }

    open spec fn at_hand(exp: nat) -> bool {
        exp < 20 && power(10, exp) <= usize::MAX
    }

    open spec fn spec_bytes() -> nat {
        if usize::BITS == 32 {
            4
        } else {
            8
        }
    }

    proof fn lemma_bounded(self) {
    }

    proof fn lemma_injective(self, other: Self) {
    }

    proof fn lemma_shape() {
        reveal_with_fuel(power, 20);
    }

    #[inline]
    fn groups() -> (n: usize) {
        if usize::BITS == 32 {
            5
        } else {
            10
        }
    }

    #[inline]
    fn bytes() -> (n: usize) {
        if usize::BITS == 32 {
            4
        } else {
            8
        }
    }

    #[inline]
    fn from_byte(b: u8) -> (r: Self) {
        b as usize
    }

    #[inline]
    fn is_zero(self) -> (r: bool) {
        self == 0
    }

    #[inline]
    fn low_group(self) -> (b: u8) {
        (self % 128) as u8
    }

    #[inline]
    fn drop_group(self) -> (r: Self) {
        self / 128
    }

    #[inline]
    fn low_byte(self) -> (b: u8) {
        (self % 256) as u8
    }

    #[inline]
    fn drop_byte(self) -> (r: Self) {
        self / 256
    }

    #[inline]
    fn append_byte(self, b: u8) -> (r: Option<Self>) {
        match usize::checked_mul(self, 256) {
            Some(shifted) => usize::checked_add(shifted, b as usize),
            None => None,
        }
    }

    #[inline]
    fn checked_add(self, other: Self) -> (r: Option<Self>) {
        usize::checked_add(self, other)
    }

    #[inline]
    fn checked_mul(self, other: Self) -> (r: Option<Self>) {
        usize::checked_mul(self, other)
    }

    #[inline]
    fn checked_mul10(self) -> (r: Option<Self>) {
        usize::checked_mul(self, 10)
    }

    #[inline]
    fn pow10(exp: u32) -> (r: Option<Self>) {
        proof {
            lemma_pows_u64();
        }
        if exp < 20 && POWS_U64[exp as usize] <= usize::MAX as u64 {
            Some(POWS_U64[exp as usize] as usize)
        } else {
            None
        }
    }

    #[inline]
    fn low_digit(self) -> (d: u8) {
        (self % 10) as u8
    }

    #[inline]
    fn drop_digit(self) -> (r: Self) {
        self / 10
    }

    #[inline]
    fn div_mod_ten(self) -> (r: Option<Self>) {
        if self % 10 == 0 {
            Some(self / 10)
        } else {
            None
        }
    }

    #[inline]
    fn from_usize(n: usize) -> (r: Option<Self>) {
        Some(n)
    }

    #[inline]
    fn to_usize(self) -> (r: Option<usize>) {
        Some(self)
    }
}

} // verus!
