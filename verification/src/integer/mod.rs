//! Traits and utilities for dealing with integers.
//!
//! The integer codecs of the library are written once, over the traits
//! [`Unsigned`] and [`Signed`], and speak of an integer through the number it
//! stands for.

pub mod byteorder;
pub mod continuation;
pub mod signed;
pub mod unsigned;
pub mod zigzag;

use vstd::prelude::*;

verus! {

/// `base` multiplied with itself `n` times.
pub open spec fn power(base: nat, n: nat) -> nat
    decreases n,
{
    if n == 0 {
        1
    } else {
        base * power(base, (n - 1) as nat)
    }
}

/// A power of a positive base is positive and does not shrink as the exponent grows.
pub proof fn lemma_power_grows(base: nat, n: nat, m: nat)
    requires
        base >= 1,
        n <= m,
    ensures
        1 <= power(base, n) <= power(base, m),
    decreases m,
{
    if m == 0 {
    } else if n == m {
        lemma_power_grows(base, (n - 1) as nat, (m - 1) as nat);
        assert(power(base, (m - 1) as nat) >= 1);
        assert(base * power(base, (m - 1) as nat) >= 1) by (nonlinear_arith)
            requires
                base >= 1,
                power(base, (m - 1) as nat) >= 1,
        ;
    } else {
        lemma_power_grows(base, n, (m - 1) as nat);
        assert(base * power(base, (m - 1) as nat) >= power(base, (m - 1) as nat))
            by (nonlinear_arith)
            requires
                base >= 1,
                power(base, (m - 1) as nat) >= 1,
        ;
    }
}

/// A power of a positive base does not shrink as the exponent grows by one.
pub proof fn lemma_power_step(base: nat, n: nat)
    requires
        base >= 1,
    ensures
        power(base, n + 1) == base * power(base, n),
        power(base, n) <= power(base, n + 1),
        power(base, n) >= 1,
{
    lemma_power_grows(base, n, n + 1);
}

/// Trait that encodes common behaviors of unsigned numbers.
pub trait Unsigned: Copy + Sized {
    /// The number that the value stands for.
    spec fn value(self) -> nat;

    /// The largest number that the type holds.
    spec fn max_value() -> nat;

    /// The number of groups of seven bits that a value of the type is spread over at most.
    spec fn spec_groups() -> nat;

    /// Whether the type has the given power of ten at hand: in the table
    /// of powers that it looks up.
    spec fn at_hand(exp: nat) -> bool;

    /// The number of bytes that a value of the type takes.
    spec fn spec_bytes() -> nat;

    /// No value exceeds the largest number of the type.
    proof fn lemma_bounded(self)
        ensures
            self.value() <= Self::max_value(),
    ;

    /// Two values that stand for the same number are the same value.
    proof fn lemma_injective(self, other: Self)
        requires
            self.value() == other.value(),
        ensures
            self == other,
    ;

    /// The largest number of the type needs all the groups and fills all the bytes.
    proof fn lemma_shape()
        ensures
            Self::spec_groups() >= 1,
            power(128, (Self::spec_groups() - 1) as nat) <= Self::max_value(),
            Self::max_value() < power(128, Self::spec_groups()),
            Self::spec_bytes() >= 1,
            Self::max_value() + 1 == power(256, Self::spec_bytes()),
            Self::spec_bytes() <= 16,
            Self::spec_groups() <= 19,
    ;

    /// The number of groups of seven bits.
    fn groups() -> (n: usize)
        ensures
            n == Self::spec_groups(),
    ;

    /// The number of bytes.
    fn bytes() -> (n: usize)
        ensures
            n == Self::spec_bytes(),
    ;

    /// Coerce a byte into this number.
    fn from_byte(b: u8) -> (r: Self)
        ensures
            r.value() == b,
    ;

    /// Test if this value is zero.
    fn is_zero(self) -> (r: bool)
        ensures
            r == (self.value() == 0),
    ;

    /// The lowest seven bits.
    fn low_group(self) -> (b: u8)
        ensures
            b == self.value() % 128,
    ;

    /// The value without its lowest seven bits.
    fn drop_group(self) -> (r: Self)
        ensures
            r.value() == self.value() / 128,
    ;

    /// The lowest byte.
    fn low_byte(self) -> (b: u8)
        ensures
            b == self.value() % 256,
    ;

    /// The value without its lowest byte.
    fn drop_byte(self) -> (r: Self)
        ensures
            r.value() == self.value() / 256,
    ;

    /// The value with a byte appended below its lowest byte, unless the type
    /// does not hold it.
    fn append_byte(self, b: u8) -> (r: Option<Self>)
        ensures
            r is Some <==> self.value() * 256 + b <= Self::max_value(),
            r matches Some(x) ==> x.value() == self.value() * 256 + b,
    ;

    /// The sum of two values, unless the type does not hold it.
    fn checked_add(self, other: Self) -> (r: Option<Self>)
        ensures
            r is Some <==> self.value() + other.value() <= Self::max_value(),
            r matches Some(sum) ==> sum.value() == self.value() + other.value(),
    ;

    /// The product of two values, unless the type does not hold it.
    fn checked_mul(self, other: Self) -> (r: Option<Self>)
        ensures
            r is Some <==> self.value() * other.value() <= Self::max_value(),
            r matches Some(product) ==> product.value() == self.value() * other.value(),
    ;

    /// Ten times the value, unless the type does not hold it.
    fn checked_mul10(self) -> (r: Option<Self>)
        ensures
            r is Some <==> self.value() * 10 <= Self::max_value(),
            r matches Some(product) ==> product.value() == self.value() * 10,
    ;

    /// The given power of ten, where the type has it at hand.
    fn pow10(exp: u32) -> (r: Option<Self>)
        ensures
            r is Some <==> Self::at_hand(exp as nat),
            r matches Some(p) ==> p.value() == power(10, exp as nat),
    ;

    /// The lowest decimal digit.
    fn low_digit(self) -> (d: u8)
        ensures
            d == self.value() % 10,
    ;

    /// The value without its lowest decimal digit.
    fn drop_digit(self) -> (r: Self)
        ensures
            r.value() == self.value() / 10,
    ;

    /// A tenth of the value, if the value is a multiple of ten.
    fn div_mod_ten(self) -> (r: Option<Self>)
        ensures
            r is Some <==> self.value() % 10 == 0,
            r matches Some(tenth) ==> tenth.value() == self.value() / 10,
    ;

    /// The value for a length, unless the type does not hold it.
    fn from_usize(n: usize) -> (r: Option<Self>)
        ensures
            r is Some <==> n <= Self::max_value(),
            r matches Some(x) ==> x.value() == n,
    ;

    /// The value as a length, unless it is too large for one.
    fn to_usize(self) -> (r: Option<usize>)
        ensures
            r is Some <==> self.value() <= usize::MAX,
            r matches Some(n) ==> n == self.value(),
    ;
}

/// Trait that encodes common behaviors of signed numbers.
pub trait Signed: Copy + Sized {
    /// The unsigned representation of this number.
    type Unsigned: Unsigned;

    /// The number that the value stands for.
    spec fn value(self) -> int;

    /// The numbers of the type are those whose zig-zag form the unsigned type holds.
    proof fn lemma_bounded(self)
        ensures
            zigzag::encoded(self.value()) <= Self::Unsigned::max_value(),
    ;

    /// Two values that stand for the same number are the same value.
    proof fn lemma_injective(self, other: Self)
        requires
            self.value() == other.value(),
        ensures
            self == other,
    ;

    /// The zig-zag form of the number: `(x << 1) ^ (x >> (width - 1))`.
    fn zigzag(self) -> (r: Self::Unsigned)
        ensures
            r.value() == zigzag::encoded(self.value()),
    ;

    /// The number with the given zig-zag form: `(u >> 1) ^ -(u & 1)`.
    fn from_zigzag(u: Self::Unsigned) -> (r: Self)
        ensures
            r.value() == zigzag::decoded(u.value()),
    ;

    /// The magnitude of a number that is not positive, unless the number is positive.
    fn negate(self) -> (r: Option<Self::Unsigned>)
        ensures
            r is Some <==> self.value() <= 0,
            r matches Some(u) ==> u.value() == -self.value(),
    ;

    /// The number of the given magnitude below zero, unless the type does not hold it.
    fn negated(u: Self::Unsigned) -> (r: Option<Self>)
        ensures
            r is Some <==> zigzag::encoded(-(u.value() as int)) <= Self::Unsigned::max_value(),
            r matches Some(x) ==> x.value() == -(u.value() as int),
    ;

    /// The number of the given magnitude above zero, unless the type does not hold it.
    fn positive(u: Self::Unsigned) -> (r: Option<Self>)
        ensures
            r is Some <==> zigzag::encoded(u.value() as int) <= Self::Unsigned::max_value(),
            r matches Some(x) ==> x.value() == u.value(),
    ;

    /// Coerce this number into its unsigned equivalent of the same size: the
    /// number itself where it is not negative, and else the number that has
    /// the same bits.
    fn unsigned(self) -> (r: Self::Unsigned)
        ensures
            r.value() == byteorder::wrapped(self.value(), Self::Unsigned::max_value()),
    ;

    /// Coerce an unsigned number into the signed one that has the same bits.
    fn from_unsigned(u: Self::Unsigned) -> (r: Self)
        ensures
            r.value() == byteorder::unwrapped(u.value(), Self::Unsigned::max_value()),
    ;
}

/// The given power of `base`, unless the type does not hold it.
pub fn checked_pow<T: Unsigned>(base: T, exp: u32) -> (r: Option<T>)
    ensures
        r is Some <==> power(base.value(), exp as nat) <= T::max_value(),
        r matches Some(p) ==> p.value() == power(base.value(), exp as nat),
{
    proof {
        T::lemma_shape();
        lemma_power_grows(128, 0, (T::spec_groups() - 1) as nat);
        base.lemma_bounded();
    }
    let one = T::from_byte(1);
    if exp == 0 {
        return Some(one);
    }
    if base.is_zero() {
        assert(power(0, exp as nat) == 0);
        return Some(base);
    }
    // Powers of one do not grow, so that no loop is needed, nor would it end soon.
    match base.checked_mul(base) {
        Some(square) => {
            if square.to_usize() == Some(1) {
                proof {
                    assert(base.value() * base.value() == 1);
                    assert(base.value() == 1) by (nonlinear_arith)
                        requires
                            base.value() * base.value() == 1,
                    ;
                    lemma_power_one(exp as nat);
                }
                return Some(base);
            }
        },
        None => {},
    }
    assert(base.value() >= 2) by (nonlinear_arith)
        requires
            base.value() != 0,
            base.value() * base.value() != 1,
    ;
    let mut result = one;
    let mut done: u32 = 0;
    while done < exp
        invariant
            done <= exp,
            base.value() >= 2,
            result.value() == power(base.value(), done as nat),
        decreases exp - done,
    {
        proof {
            lemma_power_grows(base.value(), (done + 1) as nat, exp as nat);
        }
        result = match result.checked_mul(base) {
            Some(next) => next,
            None => {
                assert(power(base.value(), (done + 1) as nat) == base.value() * power(
                    base.value(),
                    done as nat,
                ));
                assert(result.value() * base.value() == base.value() * result.value())
                    by (nonlinear_arith);
                return None;
            },
        };
        assert(result.value() == base.value() * power(base.value(), done as nat))
            by (nonlinear_arith)
            requires
                result.value() == power(base.value(), done as nat) * base.value(),
        ;
        done = done + 1;
    }
    proof {
        result.lemma_bounded();
    }
    Some(result)
}

/// The value multiplied by the given power of ten, unless the type holds
/// neither that power nor the product. A power that the type has at hand is
/// looked up, another one is computed.
pub fn checked_pow10<T: Unsigned>(value: T, exp: u32) -> (r: Option<T>)
    ensures
        r is Some <==> power(10, exp as nat) <= T::max_value() && value.value() * power(
            10,
            exp as nat,
        ) <= T::max_value(),
        r matches Some(product) ==> product.value() == value.value() * power(10, exp as nat),
{
    let p = match T::pow10(exp) {
        Some(p) => Some(p),
        None => checked_pow(T::from_byte(10), exp),
    };
    match p {
        Some(p) => {
            proof {
                p.lemma_bounded();
                assert(value.value() * p.value() == p.value() * value.value())
                    by (nonlinear_arith);
            }
            value.checked_mul(p)
        },
        None => None,
    }
}

/// Every power of one is one.
pub proof fn lemma_power_one(n: nat)
    ensures
        power(1, n) == 1,
    decreases n,
{
    if n > 0 {
        lemma_power_one((n - 1) as nat);
    }
}

} // verus!
