//! Numbers of a JSON text, read into integers.
//!
//! A number is read by the grammar
//! `['-']? ('0' | [1-9][0-9]*) ('.' [0-9]+)? ([eE] [+-]? [0-9]+)?`.
//! It comes apart into a base (what stands before the point), a mantissa
//! (what stands behind it) and an exponent, and the integer it stands for is
//! computed from the three in the type that was asked for.

pub use crate::integer::{Signed, Unsigned};

use super::{
    behind, failure, parsed, ParseError, ParseErrorKind, Parsed, Parser, LOWER_E, MINUS, NINE, ONE,
    PLUS, POINT, UPPER_E, ZERO,
};
use crate::integer::{checked_pow10, lemma_power_grows, lemma_power_step, power};
use vstd::prelude::*;

verus! {

/// Error when computing integer.
#[derive(Debug, Clone, Copy, PartialEq, Eq, Structural)]
pub enum Error {
    /// Arithmetic overflow.
    Overflow,
    /// Decimal number encountered.
    Decimal,
}

/// Whether the byte is a digit.
pub open spec fn spec_is_digit(b: u8) -> bool {
    ZERO <= b && b <= NINE
}

/// The number of digits that `s` starts with.
pub open spec fn digits(s: Seq<u8>) -> nat
    decreases s.len(),
{
    if s.len() > 0 && spec_is_digit(s[0]) {
        1 + digits(s.skip(1))
    } else {
        0
    }
}

/// The number of zeros that `s` starts with.
pub open spec fn zeros(s: Seq<u8>) -> nat
    decreases s.len(),
{
    if s.len() > 0 && s[0] == ZERO {
        1 + zeros(s.skip(1))
    } else {
        0
    }
}

/// The number that comes of writing the first `n` digits of `s` behind the number `front`.
pub open spec fn accumulate(front: nat, s: Seq<u8>, n: nat) -> nat
    decreases n,
{
    if n == 0 {
        front
    } else {
        10 * accumulate(front, s, (n - 1) as nat) + (s[n - 1] - ZERO) as nat
    }
}

/// The first `n` bytes of `s` without the zeros that they end with, as a length.
pub open spec fn trimmed(s: Seq<u8>, n: nat) -> nat
    decreases n,
{
    if n == 0 {
        0
    } else if s[n - 1] != ZERO {
        n
    } else {
        trimmed(s, (n - 1) as nat)
    }
}

/// A text starts with exactly `n` digits if its first `n` bytes are digits
/// and the byte after them, if there is one, is none.
pub proof fn lemma_digits(s: Seq<u8>, n: nat)
    requires
        n <= s.len(),
        forall|i: int| 0 <= i < n ==> spec_is_digit(#[trigger] s[i]),
        n == s.len() || !spec_is_digit(s[n as int]),
    ensures
        digits(s) == n,
    decreases n,
{
    if n > 0 {
        assert(spec_is_digit(s[0]));
        assert forall|i: int| 0 <= i < n - 1 implies spec_is_digit(#[trigger] s.skip(1)[i]) by {
            assert(s.skip(1)[i] == s[i + 1]);
        }
        if n < s.len() {
            assert(s.skip(1)[n - 1] == s[n as int]);
        }
        lemma_digits(s.skip(1), (n - 1) as nat);
    }
}

/// The digits that a text starts with lie within the text and are digits.
pub proof fn lemma_digits_are_digits(s: Seq<u8>)
    ensures
        digits(s) <= s.len(),
        forall|i: int| 0 <= i < digits(s) ==> spec_is_digit(#[trigger] s[i]),
        digits(s) == s.len() || !spec_is_digit(s[digits(s) as int]),
    decreases s.len(),
{
    if s.len() > 0 && spec_is_digit(s[0]) {
        lemma_digits_are_digits(s.skip(1));
        assert forall|i: int| 0 <= i < digits(s) implies spec_is_digit(#[trigger] s[i]) by {
            if i > 0 {
                assert(s[i] == s.skip(1)[i - 1]);
            }
        }
        if digits(s) < s.len() {
            assert(s[digits(s) as int] == s.skip(1)[digits(s.skip(1)) as int]);
        }
    }
}

/// A text starts with exactly `n` zeros if its first `n` bytes are zeros and
/// the byte after them, if there is one, is none.
pub proof fn lemma_zeros(s: Seq<u8>, n: nat)
    requires
        n <= s.len(),
        forall|i: int| 0 <= i < n ==> #[trigger] s[i] == ZERO,
        n == s.len() || s[n as int] != ZERO,
    ensures
        zeros(s) == n,
    decreases n,
{
    if n > 0 {
        assert(s[0] == ZERO);
        assert forall|i: int| 0 <= i < n - 1 implies #[trigger] s.skip(1)[i] == ZERO by {
            assert(s.skip(1)[i] == s[i + 1]);
        }
        if n < s.len() {
            assert(s.skip(1)[n - 1] == s[n as int]);
        }
        lemma_zeros(s.skip(1), (n - 1) as nat);
    }
}

/// The zeros that a text starts with lie within the text and are zeros.
pub proof fn lemma_zeros_are_zeros(s: Seq<u8>)
    ensures
        zeros(s) <= s.len(),
        forall|i: int| 0 <= i < zeros(s) ==> #[trigger] s[i] == ZERO,
        zeros(s) == s.len() || s[zeros(s) as int] != ZERO,
    decreases s.len(),
{
    if s.len() > 0 && s[0] == ZERO {
        lemma_zeros_are_zeros(s.skip(1));
        assert forall|i: int| 0 <= i < zeros(s) implies #[trigger] s[i] == ZERO by {
            if i > 0 {
                assert(s[i] == s.skip(1)[i - 1]);
            }
        }
        if zeros(s) < s.len() {
            assert(s[zeros(s) as int] == s.skip(1)[zeros(s.skip(1)) as int]);
        }
    }
}

/// What digits are written behind a number depends on those digits alone.
pub proof fn lemma_accumulate_prefix(front: nat, a: Seq<u8>, b: Seq<u8>, n: nat)
    requires
        n <= a.len(),
        n <= b.len(),
        forall|i: int| 0 <= i < n ==> a[i] == b[i],
    ensures
        accumulate(front, a, n) == accumulate(front, b, n),
    decreases n,
{
    if n > 0 {
        lemma_accumulate_prefix(front, a, b, (n - 1) as nat);
    }
}

/// Writing digits behind a number does not make it smaller.
pub proof fn lemma_accumulate_grows(front: nat, s: Seq<u8>, n: nat, m: nat)
    requires
        n <= m,
        m <= s.len(),
        forall|i: int| 0 <= i < m ==> spec_is_digit(#[trigger] s[i]),
    ensures
        accumulate(front, s, n) <= accumulate(front, s, m),
    decreases m,
{
    if n < m {
        lemma_accumulate_grows(front, s, n, (m - 1) as nat);
        assert(spec_is_digit(s[m - 1]));
    }
}

/// Writing `z` zeros behind a number multiplies it by the `z`-th power of ten.
pub proof fn lemma_accumulate_zeros(front: nat, s: Seq<u8>, n: nat, z: nat)
    requires
        n + z <= s.len(),
        forall|i: int| n <= i < n + z ==> #[trigger] s[i] == ZERO,
    ensures
        accumulate(front, s, n + z) == accumulate(front, s, n) * power(10, z),
    decreases z,
{
    if z == 0 {
        assert(power(10, 0) == 1);
    } else {
        lemma_accumulate_zeros(front, s, n, (z - 1) as nat);
        assert(s[n + z - 1] == ZERO);
        let a = accumulate(front, s, n);
        let p = power(10, (z - 1) as nat);
        assert(power(10, z) == 10 * p);
        assert(10 * (a * p) == a * (10 * p)) by (nonlinear_arith);
    }
}

/// What is left of digits without the zeros at their end is no longer than
/// they are, ends with a digit that is no zero, and has only zeros behind it.
pub proof fn lemma_trimmed(s: Seq<u8>, n: nat)
    requires
        n <= s.len(),
    ensures
        trimmed(s, n) <= n,
        trimmed(s, n) > 0 ==> s[trimmed(s, n) - 1] != ZERO,
        forall|i: int| trimmed(s, n) <= i < n ==> #[trigger] s[i] == ZERO,
    decreases n,
{
    if n > 0 && s[n - 1] == ZERO {
        lemma_trimmed(s, (n - 1) as nat);
    }
}

/// Digits that hold a digit other than zero at the place before `t`, and
/// only zeros from there to `n`, are `t` long without the zeros at their end.
pub proof fn lemma_trimmed_is(s: Seq<u8>, n: nat, t: nat)
    requires
        t <= n <= s.len(),
        t > 0 ==> s[t - 1] != ZERO,
        forall|i: int| t <= i < n ==> #[trigger] s[i] == ZERO,
    ensures
        trimmed(s, n) == t,
    decreases n,
{
    if n > t {
        assert(s[n - 1] == ZERO);
        lemma_trimmed_is(s, (n - 1) as nat, t);
    } else if n > 0 {
    }
}

// Test if b is numeric.
#[inline]
pub fn is_digit(b: u8) -> (r: bool)
    ensures
        r == spec_is_digit(b),
{
    ZERO <= b && b <= NINE
}

// Test if b is numeric and no zero.
#[inline]
pub fn is_digit_nonzero(b: u8) -> (r: bool)
    ensures
        r == (spec_is_digit(b) && b != ZERO),
{
    ONE <= b && b <= NINE
}

/// Decode sequence of zeros.
pub fn decode_zeros<'de, P: Parser<'de>>(p: &mut P) -> (r: Result<usize, ParseError>)
    ensures
        r matches Ok(count) && count == zeros(old(p).rest()),
        final(p).rest() == old(p).rest().skip(zeros(old(p).rest()) as int),
        final(p).index() == old(p).index() + zeros(old(p).rest()),
{
    let ghost s = p.rest();
    let mut count: usize = 0;
    proof {
        p.lemma_fits();
        assert(s.skip(0) =~= s);
    }
    loop
        invariant
            s == old(p).rest(),
            count <= s.len(),
            s.len() <= usize::MAX,
            p.rest() == s.skip(count as int),
            p.index() == old(p).index() + count,
            forall|i: int| 0 <= i < count ==> #[trigger] s[i] == ZERO,
        decreases s.len() - count,
    {
        let next = p.peek_byte()?;
        let more = match next {
            Some(b) => b == ZERO,
            None => false,
        };
        if !more {
            proof {
                if count < s.len() {
                    assert(s[count as int] == p.rest()[0]);
                }
                lemma_zeros(s, count as nat);
            }
            return Ok(count);
        }
        assert(s[count as int] == p.rest()[0]);
        p.skip(1)?;
        assert(p.rest() =~= s.skip(count + 1));
        count = count + 1;
    }
}

/// Decode a single digit into `out`: the number that comes of writing the
/// digit behind `out`.
///
/// Fails with an overflow, behind the digit, where the type does not hold
/// that number, and with an underflow where the text has come to its end.
#[inline]
pub fn digit<'de, T: Unsigned, P: Parser<'de>>(out: T, p: &mut P, start: u32) -> (r: Result<
    T,
    ParseError,
>)
    requires
        old(p).rest().len() > 0 ==> spec_is_digit(old(p).rest()[0]),
    ensures
        old(p).rest().len() == 0 ==> r == Err::<T, _>(
            ParseError {
                kind: ParseErrorKind::BufferUnderflow,
                start: old(p).index() as u32,
                end: old(p).index() as u32,
            },
        ) && *final(p) == *old(p),
        old(p).rest().len() > 0 ==> final(p).rest() == old(p).rest().skip(1) && final(p).index()
            == old(p).index() + 1,
        old(p).rest().len() > 0 && accumulate(out.value(), old(p).rest(), 1) <= T::max_value()
            ==> (r matches Ok(next) && next.value() == accumulate(out.value(), old(p).rest(), 1)),
        old(p).rest().len() > 0 && accumulate(out.value(), old(p).rest(), 1) > T::max_value()
            ==> r == Err::<T, _>(
            ParseError {
                kind: ParseErrorKind::IntegerError(Error::Overflow),
                start,
                end: (old(p).index() + 1) as u32,
            },
        ),
{
    let b = p.read_byte()?;
    let end = p.pos();
    assert(accumulate(out.value(), old(p).rest(), 1) == 10 * accumulate(
        out.value(),
        old(p).rest(),
        0,
    ) + (b - ZERO));
    let next = match out.checked_mul10() {
        Some(tens) => tens.checked_add(T::from_byte(b - ZERO)),
        None => None,
    };
    match next {
        Some(next) => Ok(next),
        None => Err(
            ParseError::spanned(start, end, ParseErrorKind::IntegerError(Error::Overflow)),
        ),
    }
}

/// Read a single digit and write it behind the number so far, where there
/// is one: a number that the type does not hold is no number any more, and
/// the digits behind it are read all the same.
#[inline]
fn next_digit<'de, T: Unsigned, P: Parser<'de>>(out: Option<T>, p: &mut P) -> (r: Result<
    Option<T>,
    ParseError,
>)
    requires
        old(p).rest().len() > 0,
        spec_is_digit(old(p).rest()[0]),
    ensures
        final(p).rest() == old(p).rest().skip(1),
        final(p).index() == old(p).index() + 1,
        r is Ok,
        r matches Ok(next) && out matches Some(front) ==> (next is Some <==> accumulate(
            front.value(),
            old(p).rest(),
            1,
        ) <= T::max_value()),
        r matches Ok(Some(next)) ==> out matches Some(front) && next.value() == accumulate(
            front.value(),
            old(p).rest(),
            1,
        ),
{
    match out {
        Some(front) => {
            let start = p.pos();
            match digit(front, p, start) {
                Ok(next) => Ok(Some(next)),
                Err(_) => Ok(None),
            }
        },
        None => {
            p.skip(1)?;
            Ok(None)
        },
    }
}

/// Decode the digits that follow, written behind `out`, unless the type does
/// not hold the number that comes of it.
pub fn decode_digits<'de, T: Unsigned, P: Parser<'de>>(out: Option<T>, p: &mut P) -> (r: Result<
    Option<T>,
    ParseError,
>)
    ensures
        final(p).rest() == old(p).rest().skip(digits(old(p).rest()) as int),
        final(p).index() == old(p).index() + digits(old(p).rest()),
        r is Ok,
        r matches Ok(next) && out matches Some(front) ==> (next is Some <==> accumulate(
            front.value(),
            old(p).rest(),
            digits(old(p).rest()),
        ) <= T::max_value()),
        r matches Ok(Some(next)) ==> out matches Some(front) && next.value() == accumulate(
            front.value(),
            old(p).rest(),
            digits(old(p).rest()),
        ),
{
    let ghost s = p.rest();
    let ghost front: nat = match out {
        Some(front) => front.value(),
        None => 0,
    };
    let ghost mut count: nat = 0;
    let mut value = out;
    proof {
        assert(s.skip(0) =~= s);
        lemma_digits_are_digits(s);
        if let Some(o) = out {
            o.lemma_bounded();
        }
    }
    loop
        invariant
            s == old(p).rest(),
            count <= digits(s) <= s.len(),
            forall|i: int| 0 <= i < digits(s) ==> spec_is_digit(#[trigger] s[i]),
            digits(s) == s.len() || !spec_is_digit(s[digits(s) as int]),
            p.rest() == s.skip(count as int),
            p.index() == old(p).index() + count,
            out matches Some(o) ==> front == o.value(),
            out is None ==> value is None,
            out is Some ==> (value is Some <==> accumulate(front, s, count) <= T::max_value()),
            value matches Some(v) ==> v.value() == accumulate(front, s, count),
        decreases s.len() - count,
    {
        let next = p.peek_byte()?;
        let more = match next {
            Some(b) => is_digit(b),
            None => false,
        };
        if !more {
            assert(count == digits(s));
            return Ok(value);
        }
        assert(s[count as int] == p.rest()[0]);
        assert(count < digits(s));
        proof {
            lemma_accumulate_grows(front, s, count, count + 1);
            if let Some(v) = value {
                lemma_accumulate_prefix(v.value(), p.rest(), seq![s[count as int]], 1);
            }
        }
        let ghost before = p.rest();
        let ghost previous = value;
        value = next_digit(value, p)?;
        proof {
            assert(p.rest() =~= s.skip(count as int + 1));
            assert(accumulate(front, s, count + 1) == 10 * accumulate(front, s, count) + (s[count as int]
                - ZERO));
            if let Some(v) = previous {
                assert(accumulate(v.value(), before, 1) == 10 * accumulate(v.value(), before, 0)
                    + (before[0] - ZERO));
            }
            count = count + 1;
        }
    }
}

/// What stands behind the point of a number.
pub struct Fraction {
    /// The number of bytes of the fraction, the point among them.
    pub len: nat,
    /// The number that the digits behind the point stand for, without the
    /// zeros at their end.
    pub value: nat,
    /// The number of the digits that `value` is made of; the number of all
    /// digits, where they are all zeros.
    pub exp: nat,
}

/// The fraction that `s` starts with, which may be none at all; or the
/// number of bytes after which it shows that a point is followed by no digit.
pub open spec fn fraction(s: Seq<u8>) -> Result<Fraction, nat> {
    if s.len() > 0 && s[0] == POINT {
        let behind = s.skip(1);
        let n = digits(behind);
        let t = trimmed(behind, n);
        if n == 0 {
            Err(1)
        } else {
            Ok(
                Fraction {
                    len: 1 + n,
                    value: accumulate(0, behind, t),
                    exp: if t == 0 {
                        n
                    } else {
                        t
                    },
                },
            )
        }
    } else {
        Ok(Fraction { len: 0, value: 0, exp: 0 })
    }
}

/// What stands behind the `e` of a number, the `e` left out.
pub struct Exponential {
    /// The number of bytes of the sign and the digits.
    pub len: nat,
    /// Whether the sign is `-`.
    pub negative: bool,
    /// The number that the digits stand for.
    pub value: nat,
}

/// The sign and the digits that `s` starts with; or the number of bytes
/// after which it shows that there is no digit.
pub open spec fn exponential(s: Seq<u8>) -> Result<Exponential, nat> {
    let sign: nat = if s.len() > 0 && (s[0] == MINUS || s[0] == PLUS) {
        1
    } else {
        0
    };
    let behind = s.skip(sign as int);
    let n = digits(behind);
    if n == 0 {
        Err(sign)
    } else {
        Ok(
            Exponential {
                len: sign + n,
                negative: s.len() > 0 && s[0] == MINUS,
                value: accumulate(0, behind, n),
            },
        )
    }
}

/// The parts of an unsigned number as the text gives them.
pub struct Number {
    /// The number of bytes of the number.
    pub len: nat,
    /// The number that stands before the point.
    pub base: nat,
    /// The number that stands behind the point, without the zeros at its end.
    pub m_value: nat,
    /// The number of the digits that `m_value` is made of.
    pub m_exp: nat,
    /// Whether the exponent has the sign `-`.
    pub e_negative: bool,
    /// The exponent without its sign.
    pub e_value: nat,
}

/// What reading an unsigned number out of a text comes to.
pub enum Scanned {
    /// The text is empty.
    Empty,
    /// The text starts with no number, which shows after `len` bytes.
    Invalid { len: nat },
    /// The text starts with a number.
    Number(Number),
}

/// What reading an unsigned number out of the text `s` comes to.
pub open spec fn scan(s: Seq<u8>) -> Scanned {
    if s.len() == 0 {
        Scanned::Empty
    } else if !spec_is_digit(s[0]) {
        Scanned::Invalid { len: 1 }
    } else {
        let int_len: nat = if s[0] == ZERO {
            1
        } else {
            digits(s)
        };
        match fraction(s.skip(int_len as int)) {
            Err(len) => Scanned::Invalid { len: int_len + len },
            Ok(f) => {
                let behind = s.skip((int_len + f.len) as int);
                if behind.len() > 0 && (behind[0] == LOWER_E || behind[0] == UPPER_E) {
                    match exponential(behind.skip(1)) {
                        Err(len) => Scanned::Invalid { len: int_len + f.len + 1 + len },
                        Ok(e) => Scanned::Number(
                            Number {
                                len: int_len + f.len + 1 + e.len,
                                base: accumulate(0, s, int_len),
                                m_value: f.value,
                                m_exp: f.exp,
                                e_negative: e.negative,
                                e_value: e.value,
                            },
                        ),
                    }
                } else {
                    Scanned::Number(
                        Number {
                            len: int_len + f.len,
                            base: accumulate(0, s, int_len),
                            m_value: f.value,
                            m_exp: f.exp,
                            e_negative: false,
                            e_value: 0,
                        },
                    )
                }
            },
        }
    }
}

/// The number `x` multiplied by the given power of ten, where both the power
/// and the product are at most `max`.
pub open spec fn scaled(x: nat, exp: nat, max: nat) -> Option<nat> {
    if power(10, exp) <= max && x * power(10, exp) <= max {
        Some(x * power(10, exp))
    } else {
        None
    }
}

/// The number `x` divided by ten `exp` times, where no division leaves a remainder.
pub open spec fn divided(x: nat, exp: nat) -> Option<nat>
    decreases exp,
{
    if exp == 0 {
        Some(x)
    } else if x % 10 != 0 {
        None
    } else {
        divided(x / 10, (exp - 1) as nat)
    }
}

/// The integer that the parts of a number stand for, in a type that holds
/// the numbers up to `max`.
pub open spec fn computed(
    base: nat,
    m_value: nat,
    m_exp: nat,
    e_negative: bool,
    e_value: nat,
    max: nat,
) -> Result<nat, Error> {
    if e_value == 0 {
        if m_value != 0 {
            Err(Error::Decimal)
        } else {
            Ok(base)
        }
    } else if !e_negative {
        if e_value < m_exp {
            Err(Error::Decimal)
        } else {
            let front = if base == 0 {
                Some(0nat)
            } else {
                scaled(base, e_value, max)
            };
            let back = scaled(m_value, (e_value - m_exp) as nat, max);
            match (front, back) {
                (Some(front), Some(back)) => if front + back <= max {
                    Ok(front + back)
                } else {
                    Err(Error::Overflow)
                },
                _ => Err(Error::Overflow),
            }
        }
    } else if m_value != 0 {
        Err(Error::Decimal)
    } else {
        match divided(base, e_value) {
            Some(quotient) => Ok(quotient),
            None => Err(Error::Decimal),
        }
    }
}

/// Zero is divided by ten without a remainder as often as one likes.
pub proof fn lemma_divided_zero(exp: nat)
    ensures
        divided(0, exp) == Some(0nat),
    decreases exp,
{
    if exp > 0 {
        lemma_divided_zero((exp - 1) as nat);
    }
}

/// A number that is divided by ten `exp` times without a remainder is the
/// quotient multiplied by the `exp`-th power of ten.
pub proof fn lemma_divided_exact(x: nat, exp: nat)
    ensures
        divided(x, exp) matches Some(quotient) ==> x == quotient * power(10, exp),
    decreases exp,
{
    if exp == 0 {
        assert(power(10, 0) == 1);
    } else if x % 10 == 0 {
        lemma_divided_exact(x / 10, (exp - 1) as nat);
        if let Some(quotient) = divided(x, exp) {
            let p = power(10, (exp - 1) as nat);
            assert(power(10, exp) == 10 * p);
            assert(quotient * (10 * p) == 10 * (quotient * p)) by (nonlinear_arith);
        }
    }
}

/// Dividing by ten `k` times and then `exp - k` times is dividing `exp` times.
pub proof fn lemma_divided_steps(x: nat, k: nat, exp: nat)
    requires
        k <= exp,
    ensures
        divided(x, exp) == match divided(x, k) {
            Some(quotient) => divided(quotient, (exp - k) as nat),
            None => None,
        },
    decreases k,
{
    if k == 0 {
    } else if x % 10 == 0 {
        lemma_divided_steps(x / 10, (k - 1) as nat, (exp - 1) as nat);
    }
}

/// The exponent of a number.
#[derive(Debug, Clone, Copy)]
pub struct Exponent {
    /// Indicates if the exponent is negative.
    pub is_negative: bool,
    /// The exponent without its sign.
    pub value: u32,
}

impl Default for Exponent {
    fn default() -> (e: Self)
        ensures
            e.is_negative == false,
            e.value == 0,
    {
        Self { is_negative: false, value: 0 }
    }
}

/// The mantissa, or anything after a decimal point.
pub struct Mantissa<T> {
    /// The value of the mantissa.
    pub value: T,
    /// The exponent of the mantissa.
    pub exp: u32,
}

impl<T: Unsigned> Default for Mantissa<T> {
    fn default() -> (m: Self)
        ensures
            m.value.value() == 0,
            m.exp == 0,
    {
        Self { value: T::from_byte(0), exp: 0u32 }
    }
}

/// Fully deconstructed parts of an unsigned number.
pub struct Parts<T> {
    /// The base, or everything before a decimal point.
    pub base: T,
    /// The mantissa, or anything after a decimal point.
    pub m: Mantissa<T>,
    /// The exponent of the number.
    pub e: Exponent,
}

impl<T: Unsigned> Parts<T> {
    /// The integer that the parts stand for.
    pub open spec fn spec_compute(self) -> Result<nat, Error> {
        computed(
            self.base.value(),
            self.m.value.value(),
            self.m.exp as nat,
            self.e.is_negative,
            self.e.value as nat,
            T::max_value(),
        )
    }

    /// Whether the parts are those of the number `n`.
    pub open spec fn holds(self, n: Number) -> bool {
        &&& self.base.value() == n.base
        &&& self.m.value.value() == n.m_value
        &&& self.m.exp == n.m_exp
        &&& self.e.is_negative == n.e_negative
        &&& self.e.value == n.e_value
    }

    /// Compute the integer that the parts stand for.
    pub fn compute(self) -> (r: Result<T, Error>)
        ensures
            match self.spec_compute() {
                Ok(value) => r matches Ok(v) && v.value() == value,
                Err(error) => r == Err::<T, _>(error),
            },
    {
        let Self { base, m, e } = self;

        if e.value == 0 {
            if !m.value.is_zero() {
                return Err(Error::Decimal);
            }
            return Ok(base);
        }
        if !e.is_negative {
            // Decoding the specified mantissa would result in a fractional number.
            let mantissa_exp = match e.value.checked_sub(m.exp) {
                Some(mantissa_exp) => mantissa_exp,
                None => {
                    return Err(Error::Decimal);
                },
            };
            let mut front = base;
            if !base.is_zero() {
                front = match checked_pow10(base, e.value) {
                    Some(front) => front,
                    None => {
                        return Err(Error::Overflow);
                    },
                };
            } else {
                assert(base.value() * power(10, e.value as nat) == 0) by (nonlinear_arith)
                    requires
                        base.value() == 0,
                ;
            }
            let sum = match checked_pow10(m.value, mantissa_exp) {
                Some(back) => front.checked_add(back),
                None => None,
            };
            return match sum {
                Some(sum) => Ok(sum),
                None => Err(Error::Overflow),
            };
        }
        if !m.value.is_zero() {
            return Err(Error::Decimal);
        }
        let mut quotient = base;
        let mut done: u32 = 0;
        while done < e.value
            invariant
                self.base == base,
                self.m == m,
                self.e == e,
                e.is_negative,
                e.value != 0,
                m.value.value() == 0,
                done <= e.value,
                divided(base.value(), done as nat) == Some(quotient.value()),
            decreases e.value - done,
        {
            proof {
                lemma_divided_steps(base.value(), done as nat, e.value as nat);
                lemma_divided_steps(base.value(), done as nat, (done + 1) as nat);
                assert(divided(quotient.value(), 1) == if quotient.value() % 10 != 0 {
                    None
                } else {
                    divided(quotient.value() / 10, 0)
                });
            }
            if quotient.is_zero() {
                proof {
                    lemma_divided_zero((e.value - done) as nat);
                }
                return Ok(quotient);
            }
            quotient = match quotient.div_mod_ten() {
                Some(quotient) => quotient,
                None => {
                    return Err(Error::Decimal);
                },
            };
            done = done + 1;
        }
        Ok(quotient)
    }
}

/// Fully deconstructed parts of a signed number.
pub struct SignedParts<T: Signed> {
    /// Indicates if the number is negative.
    pub is_negative: bool,
    /// Parts of the unsigned component of the number.
    pub parts: Parts<T::Unsigned>,
}

/// The integer of the given magnitude and sign, in a signed type whose
/// unsigned counterpart holds the numbers up to `max`.
pub open spec fn signed(magnitude: Result<nat, Error>, is_negative: bool, max: nat) -> Result<
    int,
    Error,
> {
    match magnitude {
        Err(error) => Err(error),
        Ok(magnitude) => {
            let value = if is_negative {
                -(magnitude as int)
            } else {
                magnitude as int
            };
            if crate::integer::zigzag::encoded(value) <= max {
                Ok(value)
            } else {
                Err(Error::Overflow)
            }
        },
    }
}

impl<T: Signed> SignedParts<T> {
    /// The integer that the parts stand for.
    pub open spec fn spec_compute(self) -> Result<int, Error> {
        signed(self.parts.spec_compute(), self.is_negative, T::Unsigned::max_value())
    }

    /// Compute the integer that the parts stand for.
    pub fn compute(self) -> (r: Result<T, Error>)
        ensures
            match self.spec_compute() {
                Ok(value) => r matches Ok(v) && v.value() == value,
                Err(error) => r == Err::<T, _>(error),
            },
    {
        let Self { is_negative, parts } = self;

        let value = match parts.compute() {
            Ok(value) => value,
            Err(error) => {
                return Err(error);
            },
        };
        let signed = if is_negative {
            T::negated(value)
        } else {
            T::positive(value)
        };
        match signed {
            Some(value) => Ok(value),
            None => Err(Error::Overflow),
        }
    }
}

impl Number {
    /// Whether a type that holds the numbers up to `max` holds the parts of the number.
    pub open spec fn fits(self, max: nat) -> bool {
        self.base <= max && self.m_value <= max && self.m_exp <= u32::MAX && self.e_value
            <= u32::MAX
    }

    /// The integer that the number stands for, in a type that holds the
    /// numbers up to `max`.
    pub open spec fn value(self, max: nat) -> Result<nat, Error> {
        if self.fits(max) {
            computed(self.base, self.m_value, self.m_exp, self.e_negative, self.e_value, max)
        } else {
            Err(Error::Overflow)
        }
    }
}

/// The digits behind a first digit are written behind that digit.
pub proof fn lemma_accumulate_head(s: Seq<u8>, n: nat)
    requires
        n < s.len(),
        spec_is_digit(s[0]),
    ensures
        accumulate(0, s, n + 1) == accumulate((s[0] - ZERO) as nat, s.skip(1), n),
    decreases n,
{
    if n == 0 {
        assert(accumulate(0, s, 1) == 10 * accumulate(0, s, 0) + (s[0] - ZERO));
    } else {
        lemma_accumulate_head(s, (n - 1) as nat);
        assert(s.skip(1)[n - 1] == s[n as int]);
    }
}

/// Digits that are all zeros stand for zero.
pub proof fn lemma_accumulate_all_zeros(s: Seq<u8>, n: nat)
    requires
        n <= s.len(),
        forall|i: int| 0 <= i < n ==> #[trigger] s[i] == ZERO,
    ensures
        accumulate(0, s, n) == 0,
        trimmed(s, n) == 0,
    decreases n,
{
    if n > 0 {
        lemma_accumulate_all_zeros(s, (n - 1) as nat);
    }
}

/// A fraction, and the bytes that show that there is none, lie within the text.
pub proof fn lemma_fraction_len(s: Seq<u8>)
    ensures
        match fraction(s) {
            Ok(f) => f.len <= s.len(),
            Err(len) => len <= s.len(),
        },
{
    if s.len() > 0 {
        lemma_digits_are_digits(s.skip(1));
    }
}

/// A sign with its digits, and the bytes that show that there are none, lie
/// within the text.
pub proof fn lemma_exponential_len(s: Seq<u8>)
    ensures
        match exponential(s) {
            Ok(e) => e.len <= s.len(),
            Err(len) => len <= s.len(),
        },
{
    if s.len() > 0 {
        lemma_digits_are_digits(s.skip(1));
    }
    lemma_digits_are_digits(s.skip(0));
}

/// Write `zeros` zeros behind a number that is no zero, unless the type does
/// not hold the number that comes of it.
pub fn shift_zeros<T: Unsigned>(value: Option<T>, zeros: usize) -> (r: Option<T>)
    requires
        zeros > 0 ==> (value matches Some(v) ==> v.value() >= 1),
    ensures
        value is None ==> r is None,
        value matches Some(v) ==> (r is Some <==> v.value() * power(10, zeros as nat)
            <= T::max_value()),
        value matches Some(v) ==> (r matches Some(x) ==> x.value() == v.value() * power(
            10,
            zeros as nat,
        )),
{
    let v = match value {
        Some(v) => v,
        None => {
            return None;
        },
    };
    proof {
        v.lemma_bounded();
        lemma_power_grows(10, 0, zeros as nat);
        assert(power(10, 0) == 1);
    }
    if zeros == 0 {
        assert(v.value() * power(10, 0) == v.value()) by (nonlinear_arith)
            requires
                power(10, 0) == 1,
        ;
        return Some(v);
    }
    if zeros <= u32::MAX as usize {
        assert(power(10, zeros as nat) <= v.value() * power(10, zeros as nat))
            by (nonlinear_arith)
            requires
                v.value() >= 1,
                power(10, zeros as nat) >= 1,
        ;
        return checked_pow10(v, zeros as u32);
    }
    let mut current = v;
    let mut done: usize = 0;
    assert(v.value() * power(10, 0) == v.value()) by (nonlinear_arith)
        requires
            power(10, 0) == 1,
    ;
    while done < zeros
        invariant
            value == Some(v),
            done <= zeros,
            v.value() >= 1,
            current.value() == v.value() * power(10, done as nat),
        decreases zeros - done,
    {
        proof {
            lemma_power_grows(10, (done + 1) as nat, zeros as nat);
            lemma_power_step(10, done as nat);
            let p = power(10, done as nat);
            assert(v.value() * (10 * p) == (v.value() * p) * 10) by (nonlinear_arith);
            assert(v.value() * power(10, (done + 1) as nat) <= v.value() * power(
                10,
                zeros as nat,
            )) by (nonlinear_arith)
                requires
                    power(10, (done + 1) as nat) <= power(10, zeros as nat),
            ;
        }
        current = match current.checked_mul10() {
            Some(current) => current,
            None => {
                return None;
            },
        };
        done = done + 1;
    }
    proof {
        current.lemma_bounded();
    }
    Some(current)
}

/// Decode what stands behind the point of a number, if there is a point.
/// The result is `None` where the type does not hold the mantissa.
pub fn decode_mantissa<'de, T: Unsigned, P: Parser<'de>>(p: &mut P, start: u32) -> (r: Result<
    Option<Mantissa<T>>,
    ParseError,
>)
    ensures
        match fraction(old(p).rest()) {
            Err(len) => final(p).rest() == old(p).rest().skip(len as int) && final(p).index()
                == old(p).index() + len && r == Err::<Option<Mantissa<T>>, _>(
                ParseError {
                    kind: ParseErrorKind::InvalidNumeric,
                    start,
                    end: final(p).index() as u32,
                },
            ),
            Ok(f) => final(p).rest() == old(p).rest().skip(f.len as int) && final(p).index()
                == old(p).index() + f.len && (r matches Ok(m) && (m is Some <==> f.value
                <= T::max_value() && f.exp <= u32::MAX) && (m matches Some(m)
                ==> m.value.value() == f.value && m.exp == f.exp)),
        },
{
    let first = p.peek_byte()?;
    let point = match first {
        Some(b) => b == POINT,
        None => false,
    };
    if !point {
        assert(old(p).rest().skip(0) =~= old(p).rest());
        return Ok(Some(Mantissa::default()));
    }
    p.skip(1)?;
    let ghost behind = p.rest();
    let ghost n = digits(behind);
    proof {
        p.lemma_fits();
        lemma_digits_are_digits(behind);
        lemma_zeros_are_zeros(behind);
        assert(behind.skip(0) =~= behind);
    }
    let lead = decode_zeros(p)?;
    proof {
        lemma_accumulate_all_zeros(behind, lead as nat);
        if lead > n {
            assert(behind[n as int] == ZERO);
        }
    }
    let mut exp: usize = lead;
    let mut pending: usize = 0;
    let mut value: Option<T> = Some(T::from_byte(0));
    let ghost mut i: nat = lead as nat;
    loop
        invariant
            behind == old(p).rest().skip(1),
            old(p).rest().len() > 0,
            old(p).rest()[0] == POINT,
            n == digits(behind),
            n <= behind.len(),
            behind.len() < usize::MAX,
            forall|k: int| 0 <= k < n ==> spec_is_digit(#[trigger] behind[k]),
            n == behind.len() || !spec_is_digit(behind[n as int]),
            i <= n,
            i < behind.len() ==> behind[i as int] != ZERO,
            p.rest() == behind.skip(i as int),
            p.index() == old(p).index() + 1 + i,
            exp + pending == i,
            exp == if trimmed(behind, i) == 0 {
                i
            } else {
                trimmed(behind, i)
            },
            value is Some <==> accumulate(0, behind, trimmed(behind, i)) <= T::max_value(),
            value matches Some(v) ==> v.value() == accumulate(0, behind, trimmed(behind, i)),
        decreases behind.len() - i,
    {
        let next = p.peek_byte()?;
        let more = match next {
            Some(b) => is_digit(b),
            None => false,
        };
        proof {
            if i < behind.len() {
                assert(p.rest()[0] == behind[i as int]);
            }
        }
        if !more {
            assert(i == n);
            if exp == 0 && pending == 0 {
                assert(old(p).rest().skip(1).skip(0) =~= old(p).rest().skip(1));
                return Err(ParseError::spanned(start, p.pos(), ParseErrorKind::InvalidNumeric));
            }
            assert(behind.skip(n as int) =~= old(p).rest().skip(1 + n as int));
            return Ok(
                match value {
                    Some(value) => {
                        if exp <= u32::MAX as usize {
                            Some(Mantissa { value, exp: exp as u32 })
                        } else {
                            None
                        }
                    },
                    None => None,
                },
            );
        }
        assert(i < n);
        let ghost t = trimmed(behind, i);
        proof {
            lemma_trimmed(behind, i);
            if t > 0 {
                assert(spec_is_digit(behind[t - 1]));
                assert(accumulate(0, behind, t) == 10 * accumulate(0, behind, (t - 1) as nat)
                    + (behind[t - 1] - ZERO));
                lemma_accumulate_zeros(0, behind, t, (i - t) as nat);
                lemma_accumulate_grows(0, behind, t, i);
            } else {
                lemma_accumulate_all_zeros(behind, i);
                assert(accumulate(0, behind, 0) * power(10, 0) == 0) by (nonlinear_arith)
                    requires
                        accumulate(0, behind, 0) == 0,
                ;
            }
        }
        value = shift_zeros(value, pending);
        assert(value is Some <==> accumulate(0, behind, i) <= T::max_value());
        assert(value matches Some(v) ==> v.value() == accumulate(0, behind, i));
        exp = exp + pending + 1;
        let ghost before = p.rest();
        let ghost previous = value;
        value = next_digit(value, p)?;
        proof {
            assert(p.rest() =~= behind.skip(i as int + 1));
            assert(accumulate(0, behind, i + 1) == 10 * accumulate(0, behind, i) + (behind[i as int]
                - ZERO));
            if let Some(v) = previous {
                assert(accumulate(v.value(), before, 1) == 10 * accumulate(v.value(), before, 0)
                    + (before[0] - ZERO));
            }
            lemma_zeros_are_zeros(p.rest());
        }
        let ghost rest = p.rest();
        pending = decode_zeros(p)?;
        proof {
            let next_i: nat = (i + 1 + pending) as nat;
            assert forall|k: int| i + 1 <= k < next_i implies #[trigger] behind[k] == ZERO by {
                assert(behind[k] == rest[k - (i + 1)]);
            }
            if next_i > n {
                assert(behind[n as int] == ZERO);
            }
            if next_i < behind.len() {
                assert(behind[next_i as int] == rest[pending as int]);
            }
            assert(p.rest() =~= behind.skip(next_i as int));
            lemma_trimmed_is(behind, next_i, i + 1);
            i = next_i;
        }
    }
}

/// Decode an exponent: a sign, if there is one, and digits.
/// The result is `None` where the exponent is too large.
pub fn decode_exponent<'de, P: Parser<'de>>(p: &mut P, start: u32) -> (r: Result<
    Option<Exponent>,
    ParseError,
>)
    ensures
        match exponential(old(p).rest()) {
            Err(len) => final(p).rest() == old(p).rest().skip(len as int) && final(p).index()
                == old(p).index() + len && r == Err::<Option<Exponent>, _>(
                ParseError {
                    kind: ParseErrorKind::InvalidNumeric,
                    start,
                    end: final(p).index() as u32,
                },
            ),
            Ok(e) => final(p).rest() == old(p).rest().skip(e.len as int) && final(p).index()
                == old(p).index() + e.len && (r matches Ok(x) && (x is Some <==> e.value
                <= u32::MAX) && (x matches Some(x) ==> x.is_negative == e.negative && x.value
                == e.value)),
        },
{
    let mut is_negative = false;
    let first = p.peek_byte()?;
    let sign = match first {
        Some(b) => b == MINUS || b == PLUS,
        None => false,
    };
    if sign {
        is_negative = first == Some(MINUS);
        p.skip(1)?;
    } else {
        assert(old(p).rest().skip(0) =~= old(p).rest());
    }
    let ghost behind = p.rest();
    proof {
        lemma_digits_are_digits(behind);
    }
    let next = p.peek_byte()?;
    let more = match next {
        Some(b) => is_digit(b),
        None => false,
    };
    if !more {
        return Err(ParseError::spanned(start, p.pos(), ParseErrorKind::InvalidNumeric));
    }
    let value = decode_digits::<u32, P>(Some(0u32), p)?;
    proof {
        let sign_len: int = if sign {
            1
        } else {
            0
        };
        assert(behind.skip(digits(behind) as int) =~= old(p).rest().skip(sign_len + digits(behind)));
    }
    Ok(
        match value {
            Some(value) => Some(Exponent { is_negative, value }),
            None => None,
        },
    )
}

/// Generically decode a single (whole) integer from a stream of bytes abiding
/// by JSON convention for format.
#[verifier::rlimit(50)]
pub fn decode_unsigned_inner<'de, T: Unsigned, P: Parser<'de>>(p: &mut P, start: u32) -> (r:
    Result<Parts<T>, ParseError>)
    ensures
        match scan(old(p).rest()) {
            Scanned::Empty => r == Err::<Parts<T>, _>(
                ParseError {
                    kind: ParseErrorKind::BufferUnderflow,
                    start: old(p).index() as u32,
                    end: old(p).index() as u32,
                },
            ) && *final(p) == *old(p),
            Scanned::Invalid { len } => final(p).rest() == old(p).rest().skip(len as int)
                && final(p).index() == old(p).index() + len && r == Err::<Parts<T>, _>(
                ParseError {
                    kind: ParseErrorKind::InvalidNumeric,
                    start,
                    end: final(p).index() as u32,
                },
            ),
            Scanned::Number(n) => final(p).rest() == old(p).rest().skip(n.len as int)
                && final(p).index() == old(p).index() + n.len && if n.fits(T::max_value()) {
                r matches Ok(parts) && parts.holds(n)
            } else {
                r == Err::<Parts<T>, _>(
                    ParseError {
                        kind: ParseErrorKind::IntegerError(Error::Overflow),
                        start,
                        end: final(p).index() as u32,
                    },
                )
            },
        },
{
    let ghost s = p.rest();
    let first = p.read_byte()?;
    let base: Option<T> = if first == ZERO {
        assert(accumulate(0, s, 1) == 10 * accumulate(0, s, 0) + (s[0] - ZERO));
        Some(T::from_byte(0))
    } else if is_digit_nonzero(first) {
        proof {
            lemma_digits_are_digits(s.skip(1));
            lemma_accumulate_head(s, digits(s.skip(1)));
            assert(s.skip(1).skip(digits(s.skip(1)) as int) =~= s.skip(digits(s) as int));
        }
        decode_digits(Some(T::from_byte(first - ZERO)), p)?
    } else {
        return Err(ParseError::spanned(start, p.pos(), ParseErrorKind::InvalidNumeric));
    };
    let ghost int_len: nat = if s[0] == ZERO {
        1
    } else {
        digits(s)
    };
    proof {
        lemma_digits_are_digits(s);
        lemma_fraction_len(s.skip(int_len as int));
    }
    assert(p.rest() == s.skip(int_len as int));
    assert(p.index() == old(p).index() + int_len);
    let m = match decode_mantissa::<T, P>(p, start) {
        Ok(m) => m,
        Err(e) => {
            let ghost len = fraction(s.skip(int_len as int))->Err_0;
            assert(p.rest() =~= s.skip((int_len + len) as int));
            return Err(e);
        },
    };
    let ghost f = fraction(s.skip(int_len as int))->Ok_0;
    assert(p.rest() =~= s.skip((int_len + f.len) as int));
    let ghost behind = p.rest();
    proof {
        if behind.len() > 0 {
            lemma_exponential_len(behind.skip(1));
        }
    }
    let next = p.peek_byte()?;
    let has_exponent = match next {
        Some(b) => b == LOWER_E || b == UPPER_E,
        None => false,
    };
    let e = if has_exponent {
        p.skip(1)?;
        let e = match decode_exponent(p, start) {
            Ok(e) => e,
            Err(e) => {
                let ghost len = exponential(behind.skip(1))->Err_0;
                assert(p.rest() =~= s.skip((int_len + f.len + 1 + len) as int));
                return Err(e);
            },
        };
        proof {
            let e_len = exponential(behind.skip(1))->Ok_0.len;
            assert(p.rest() =~= s.skip((int_len + f.len + 1 + e_len) as int));
        }
        e
    } else {
        Some(Exponent::default())
    };
    match (base, m, e) {
        (Some(base), Some(m), Some(e)) => Ok(Parts { base, m, e }),
        _ => Err(
            ParseError::spanned(start, p.pos(), ParseErrorKind::IntegerError(Error::Overflow)),
        ),
    }
}

/// The number of bytes of the sign `-` that `s` starts with: one or none.
pub open spec fn sign_len(s: Seq<u8>) -> nat {
    if s.len() > 0 && s[0] == MINUS {
        1
    } else {
        0
    }
}

/// What reading an unsigned number comes to, for a text `s` that starts at
/// the place `index` and a type that holds the numbers up to `max`.
pub open spec fn unsigned_parsed(s: Seq<u8>, index: usize, max: nat) -> Parsed<nat> {
    match scan(s) {
        Scanned::Empty => Parsed {
            result: Err(failure(ParseErrorKind::BufferUnderflow, index as int, index as int)),
            len: 0,
        },
        Scanned::Invalid { len } => Parsed {
            result: Err(failure(ParseErrorKind::InvalidNumeric, index as int, index + len)),
            len,
        },
        Scanned::Number(n) => Parsed {
            result: match n.value(max) {
                Ok(value) => Ok(value),
                Err(error) => Err(
                    failure(ParseErrorKind::IntegerError(error), index as int, index + n.len),
                ),
            },
            len: n.len,
        },
    }
}

/// What reading a signed number comes to, for a text `s` that starts at the
/// place `index` and a type whose unsigned counterpart holds the numbers up
/// to `max`.
pub open spec fn signed_parsed(s: Seq<u8>, index: usize, max: nat) -> Parsed<int> {
    match scan(s.skip(sign_len(s) as int)) {
        Scanned::Empty => Parsed {
            result: Err(
                failure(
                    ParseErrorKind::BufferUnderflow,
                    index + sign_len(s),
                    index + sign_len(s),
                ),
            ),
            len: sign_len(s),
        },
        Scanned::Invalid { len } => Parsed {
            result: Err(
                failure(ParseErrorKind::InvalidNumeric, index as int, index + sign_len(s) + len),
            ),
            len: sign_len(s) + len,
        },
        Scanned::Number(n) => Parsed {
            result: match signed(n.value(max), sign_len(s) == 1, max) {
                Ok(value) => Ok(value),
                Err(error) => Err(
                    failure(
                        ParseErrorKind::IntegerError(error),
                        index as int,
                        index + sign_len(s) + n.len,
                    ),
                ),
            },
            len: sign_len(s) + n.len,
        },
    }
}

/// What reading over a number comes to, for a text `s` that starts at the
/// place `index`.
pub open spec fn number_skipped(s: Seq<u8>, index: usize) -> Parsed<()> {
    match scan(s.skip(sign_len(s) as int)) {
        Scanned::Empty => Parsed {
            result: Err(
                failure(
                    ParseErrorKind::BufferUnderflow,
                    index + sign_len(s),
                    index + sign_len(s),
                ),
            ),
            len: sign_len(s),
        },
        Scanned::Invalid { len } => Parsed {
            result: Err(
                failure(ParseErrorKind::InvalidNumeric, index as int, index + sign_len(s) + len),
            ),
            len: sign_len(s) + len,
        },
        Scanned::Number(n) => Parsed { result: Ok(()), len: sign_len(s) + n.len },
    }
}

/// Read over the digits that follow and count them.
pub fn consume_digits<'de, P: Parser<'de>>(p: &mut P) -> (r: Result<usize, ParseError>)
    ensures
        r matches Ok(count) && count == digits(old(p).rest()),
        final(p).rest() == old(p).rest().skip(digits(old(p).rest()) as int),
        final(p).index() == old(p).index() + digits(old(p).rest()),
{
    let ghost s = p.rest();
    let mut count: usize = 0;
    proof {
        p.lemma_fits();
        assert(s.skip(0) =~= s);
    }
    loop
        invariant
            s == old(p).rest(),
            count <= s.len(),
            s.len() <= usize::MAX,
            p.rest() == s.skip(count as int),
            p.index() == old(p).index() + count,
            forall|i: int| 0 <= i < count ==> spec_is_digit(#[trigger] s[i]),
        decreases s.len() - count,
    {
        let next = p.peek_byte()?;
        let more = match next {
            Some(b) => is_digit(b),
            None => false,
        };
        if !more {
            proof {
                if count < s.len() {
                    assert(s[count as int] == p.rest()[0]);
                }
                lemma_digits(s, count as nat);
            }
            return Ok(count);
        }
        assert(s[count as int] == p.rest()[0]);
        p.skip(1)?;
        assert(p.rest() =~= s.skip(count + 1));
        count = count + 1;
    }
}

/// Read over the sign `-`, if the text starts with one, and tell whether it does.
pub fn skip_sign<'de, P: Parser<'de>>(p: &mut P) -> (r: Result<bool, ParseError>)
    ensures
        r matches Ok(is_negative) && is_negative == (sign_len(old(p).rest()) == 1),
        final(p).rest() == old(p).rest().skip(sign_len(old(p).rest()) as int),
        final(p).index() == old(p).index() + sign_len(old(p).rest()),
{
    let first = p.peek_byte()?;
    let is_negative = match first {
        Some(b) => b == MINUS,
        None => false,
    };
    if is_negative {
        p.skip(1)?;
    } else {
        assert(old(p).rest().skip(0) =~= old(p).rest());
    }
    Ok(is_negative)
}

/// Read over what stands behind the point of a number, if there is a point.
pub fn skip_fraction<'de, P: Parser<'de>>(p: &mut P, start: u32) -> (r: Result<(), ParseError>)
    ensures
        match fraction(old(p).rest()) {
            Err(len) => final(p).rest() == old(p).rest().skip(len as int) && final(p).index()
                == old(p).index() + len && r == Err::<(), _>(
                ParseError {
                    kind: ParseErrorKind::InvalidNumeric,
                    start,
                    end: final(p).index() as u32,
                },
            ),
            Ok(f) => final(p).rest() == old(p).rest().skip(f.len as int) && final(p).index()
                == old(p).index() + f.len && r is Ok,
        },
{
    let first = p.peek_byte()?;
    let point = match first {
        Some(b) => b == POINT,
        None => false,
    };
    if !point {
        assert(old(p).rest().skip(0) =~= old(p).rest());
        return Ok(());
    }
    p.skip(1)?;
    proof {
        lemma_digits_are_digits(p.rest());
    }
    let count = consume_digits(p)?;
    if count == 0 {
        assert(old(p).rest().skip(1).skip(0) =~= old(p).rest().skip(1));
        return Err(ParseError::spanned(start, p.pos(), ParseErrorKind::InvalidNumeric));
    }
    assert(p.rest() =~= old(p).rest().skip(1 + count));
    Ok(())
}

/// Read over what stands behind the `e` of a number: a sign, if there is
/// one, and digits.
pub fn skip_exponent<'de, P: Parser<'de>>(p: &mut P, start: u32) -> (r: Result<(), ParseError>)
    ensures
        match exponential(old(p).rest()) {
            Err(len) => final(p).rest() == old(p).rest().skip(len as int) && final(p).index()
                == old(p).index() + len && r == Err::<(), _>(
                ParseError {
                    kind: ParseErrorKind::InvalidNumeric,
                    start,
                    end: final(p).index() as u32,
                },
            ),
            Ok(e) => final(p).rest() == old(p).rest().skip(e.len as int) && final(p).index()
                == old(p).index() + e.len && r is Ok,
        },
{
    let first = p.peek_byte()?;
    let sign = match first {
        Some(b) => b == MINUS || b == PLUS,
        None => false,
    };
    if sign {
        p.skip(1)?;
    } else {
        assert(old(p).rest().skip(0) =~= old(p).rest());
    }
    let ghost behind = p.rest();
    proof {
        lemma_digits_are_digits(behind);
    }
    let count = consume_digits(p)?;
    if count == 0 {
        assert(behind.skip(0) =~= behind);
        return Err(ParseError::spanned(start, p.pos(), ParseErrorKind::InvalidNumeric));
    }
    proof {
        let sign_len: int = if sign {
            1
        } else {
            0
        };
        assert(behind.skip(count as int) =~= old(p).rest().skip(sign_len + count));
    }
    Ok(())
}

/// Read over an unsigned number.
#[verifier::rlimit(50)]
pub fn skip_unsigned<'de, P: Parser<'de>>(p: &mut P, start: u32) -> (r: Result<(), ParseError>)
    ensures
        match scan(old(p).rest()) {
            Scanned::Empty => r == Err::<(), _>(
                ParseError {
                    kind: ParseErrorKind::BufferUnderflow,
                    start: old(p).index() as u32,
                    end: old(p).index() as u32,
                },
            ) && *final(p) == *old(p),
            Scanned::Invalid { len } => final(p).rest() == old(p).rest().skip(len as int)
                && final(p).index() == old(p).index() + len && r == Err::<(), _>(
                ParseError {
                    kind: ParseErrorKind::InvalidNumeric,
                    start,
                    end: final(p).index() as u32,
                },
            ),
            Scanned::Number(n) => final(p).rest() == old(p).rest().skip(n.len as int)
                && final(p).index() == old(p).index() + n.len && r is Ok,
        },
{
    let ghost s = p.rest();
    let first = p.read_byte()?;
    if first == ZERO {
    } else if is_digit_nonzero(first) {
        proof {
            lemma_digits_are_digits(s.skip(1));
            assert(s.skip(1).skip(digits(s.skip(1)) as int) =~= s.skip(digits(s) as int));
        }
        consume_digits(p)?;
    } else {
        return Err(ParseError::spanned(start, p.pos(), ParseErrorKind::InvalidNumeric));
    }
    let ghost int_len: nat = if s[0] == ZERO {
        1
    } else {
        digits(s)
    };
    proof {
        lemma_digits_are_digits(s);
        lemma_fraction_len(s.skip(int_len as int));
    }
    assert(p.rest() == s.skip(int_len as int));
    match skip_fraction(p, start) {
        Ok(()) => {},
        Err(e) => {
            let ghost len = fraction(s.skip(int_len as int))->Err_0;
            assert(p.rest() =~= s.skip((int_len + len) as int));
            return Err(e);
        },
    }
    let ghost f = fraction(s.skip(int_len as int))->Ok_0;
    assert(p.rest() =~= s.skip((int_len + f.len) as int));
    let ghost behind = p.rest();
    proof {
        if behind.len() > 0 {
            lemma_exponential_len(behind.skip(1));
        }
    }
    let next = p.peek_byte()?;
    let has_exponent = match next {
        Some(b) => b == LOWER_E || b == UPPER_E,
        None => false,
    };
    if has_exponent {
        p.skip(1)?;
        match skip_exponent(p, start) {
            Ok(()) => {},
            Err(e) => {
                let ghost len = exponential(behind.skip(1))->Err_0;
                assert(p.rest() =~= s.skip((int_len + f.len + 1 + len) as int));
                return Err(e);
            },
        }
        proof {
            let e_len = exponential(behind.skip(1))->Ok_0.len;
            assert(p.rest() =~= s.skip((int_len + f.len + 1 + e_len) as int));
        }
    }
    Ok(())
}

/// Implementation to skip over a well-formed JSON number.
pub fn skip_number<'de, P: Parser<'de>>(p: &mut P) -> (r: Result<(), ParseError>)
    ensures
        parsed(
            *old(p),
            *final(p),
            r,
            number_skipped(old(p).rest(), old(p).index()),
            |v: (), m: ()| true,
        ),
        match scan(old(p).rest().skip(sign_len(old(p).rest()) as int)) {
            Scanned::Empty => r == Err::<(), _>(
                ParseError {
                    kind: ParseErrorKind::BufferUnderflow,
                    start: final(p).index() as u32,
                    end: final(p).index() as u32,
                },
            ) && final(p).rest() == old(p).rest().skip(sign_len(old(p).rest()) as int)
                && final(p).index() == old(p).index() + sign_len(old(p).rest()),
            Scanned::Invalid { len } => final(p).rest() == old(p).rest().skip(
                (sign_len(old(p).rest()) + len) as int,
            ) && final(p).index() == old(p).index() + sign_len(old(p).rest()) + len && r
                == Err::<(), _>(
                ParseError {
                    kind: ParseErrorKind::InvalidNumeric,
                    start: old(p).index() as u32,
                    end: final(p).index() as u32,
                },
            ),
            Scanned::Number(n) => final(p).rest() == old(p).rest().skip(
                (sign_len(old(p).rest()) + n.len) as int,
            ) && final(p).index() == old(p).index() + sign_len(old(p).rest()) + n.len && r is Ok,
        },
{
    let start = p.pos();
    skip_sign(p)?;
    let ghost behind = p.rest();
    proof {
        lemma_scanned_len(behind);
    }
    let r = skip_unsigned(p, start);
    proof {
        let sign = sign_len(old(p).rest());
        match scan(behind) {
            Scanned::Empty => {},
            Scanned::Invalid { len } => {
                assert(behind.skip(len as int) =~= old(p).rest().skip((sign + len) as int));
            },
            Scanned::Number(n) => {
                assert(behind.skip(n.len as int) =~= old(p).rest().skip((sign + n.len) as int));
            },
        }
    }
    r
}

/// What is read of a text as a number lies within the text.
pub proof fn lemma_scanned_len(s: Seq<u8>)
    ensures
        match scan(s) {
            Scanned::Empty => true,
            Scanned::Invalid { len } => len <= s.len(),
            Scanned::Number(n) => 1 <= n.len <= s.len(),
        },
{
    if s.len() > 0 && spec_is_digit(s[0]) {
        lemma_digits_are_digits(s);
        let int_len: nat = if s[0] == ZERO {
            1
        } else {
            digits(s)
        };
        lemma_fraction_len(s.skip(int_len as int));
        if let Ok(f) = fraction(s.skip(int_len as int)) {
            let behind = s.skip((int_len + f.len) as int);
            if behind.len() > 0 {
                lemma_exponential_len(behind.skip(1));
            }
        }
    }
}

/// Decode an unsigned integer into its parts.
pub fn decode_unsigned<'de, T: Unsigned, P: Parser<'de>>(p: &mut P) -> (r: Result<
    Parts<T>,
    ParseError,
>)
    ensures
        match scan(old(p).rest()) {
            Scanned::Empty => r == Err::<Parts<T>, _>(
                ParseError {
                    kind: ParseErrorKind::BufferUnderflow,
                    start: old(p).index() as u32,
                    end: old(p).index() as u32,
                },
            ) && *final(p) == *old(p),
            Scanned::Invalid { len } => final(p).rest() == old(p).rest().skip(len as int)
                && final(p).index() == old(p).index() + len && r == Err::<Parts<T>, _>(
                ParseError {
                    kind: ParseErrorKind::InvalidNumeric,
                    start: old(p).index() as u32,
                    end: final(p).index() as u32,
                },
            ),
            Scanned::Number(n) => final(p).rest() == old(p).rest().skip(n.len as int)
                && final(p).index() == old(p).index() + n.len && if n.fits(T::max_value()) {
                r matches Ok(parts) && parts.holds(n)
            } else {
                r == Err::<Parts<T>, _>(
                    ParseError {
                        kind: ParseErrorKind::IntegerError(Error::Overflow),
                        start: old(p).index() as u32,
                        end: final(p).index() as u32,
                    },
                )
            },
        },
{
    let start = p.pos();
    decode_unsigned_inner(p, start)
}

/// Fully parse an unsigned value.
pub fn parse_unsigned<'de, T: Unsigned, P: Parser<'de>>(p: &mut P) -> (r: Result<T, ParseError>)
    ensures
        parsed(
            *old(p),
            *final(p),
            r,
            unsigned_parsed(old(p).rest(), old(p).index(), T::max_value()),
            |v: T, m: nat| v.value() == m,
        ),
        match scan(old(p).rest()) {
            Scanned::Empty => r == Err::<T, _>(
                ParseError {
                    kind: ParseErrorKind::BufferUnderflow,
                    start: old(p).index() as u32,
                    end: old(p).index() as u32,
                },
            ) && *final(p) == *old(p),
            Scanned::Invalid { len } => final(p).rest() == old(p).rest().skip(len as int)
                && final(p).index() == old(p).index() + len && r == Err::<T, _>(
                ParseError {
                    kind: ParseErrorKind::InvalidNumeric,
                    start: old(p).index() as u32,
                    end: final(p).index() as u32,
                },
            ),
            Scanned::Number(n) => final(p).rest() == old(p).rest().skip(n.len as int)
                && final(p).index() == old(p).index() + n.len && match n.value(T::max_value()) {
                Ok(value) => r matches Ok(v) && v.value() == value,
                Err(error) => r == Err::<T, _>(
                    ParseError {
                        kind: ParseErrorKind::IntegerError(error),
                        start: old(p).index() as u32,
                        end: final(p).index() as u32,
                    },
                ),
            },
        },
{
    let start = p.pos();
    proof {
        lemma_scanned_len(p.rest());
        assert(p.rest().skip(0) =~= p.rest());
    }

    match decode_unsigned::<T, P>(p)?.compute() {
        Ok(value) => Ok(value),
        Err(error) => Err(
            ParseError::spanned(start, p.pos(), ParseErrorKind::IntegerError(error)),
        ),
    }
}

/// Decode a signed integer into its parts.
pub fn decode_signed<'de, T: Signed, P: Parser<'de>>(p: &mut P) -> (r: Result<
    SignedParts<T>,
    ParseError,
>)
    ensures
        match scan(old(p).rest().skip(sign_len(old(p).rest()) as int)) {
            Scanned::Empty => r == Err::<SignedParts<T>, _>(
                ParseError {
                    kind: ParseErrorKind::BufferUnderflow,
                    start: final(p).index() as u32,
                    end: final(p).index() as u32,
                },
            ) && final(p).rest() == old(p).rest().skip(sign_len(old(p).rest()) as int)
                && final(p).index() == old(p).index() + sign_len(old(p).rest()),
            Scanned::Invalid { len } => final(p).rest() == old(p).rest().skip(
                (sign_len(old(p).rest()) + len) as int,
            ) && final(p).index() == old(p).index() + sign_len(old(p).rest()) + len && r
                == Err::<SignedParts<T>, _>(
                ParseError {
                    kind: ParseErrorKind::InvalidNumeric,
                    start: old(p).index() as u32,
                    end: final(p).index() as u32,
                },
            ),
            Scanned::Number(n) => final(p).rest() == old(p).rest().skip(
                (sign_len(old(p).rest()) + n.len) as int,
            ) && final(p).index() == old(p).index() + sign_len(old(p).rest()) + n.len && if n.fits(
                T::Unsigned::max_value(),
            ) {
                r matches Ok(parts) && parts.parts.holds(n) && parts.is_negative == (sign_len(
                    old(p).rest(),
                ) == 1)
            } else {
                r == Err::<SignedParts<T>, _>(
                    ParseError {
                        kind: ParseErrorKind::IntegerError(Error::Overflow),
                        start: old(p).index() as u32,
                        end: final(p).index() as u32,
                    },
                )
            },
        },
{
    let start = p.pos();
    let is_negative = skip_sign(p)?;
    let ghost behind = p.rest();
    proof {
        lemma_scanned_len(behind);
    }
    let r = decode_unsigned_inner::<T::Unsigned, P>(p, start);
    proof {
        let sign = sign_len(old(p).rest());
        match scan(behind) {
            Scanned::Empty => {},
            Scanned::Invalid { len } => {
                assert(behind.skip(len as int) =~= old(p).rest().skip((sign + len) as int));
            },
            Scanned::Number(n) => {
                assert(behind.skip(n.len as int) =~= old(p).rest().skip((sign + n.len) as int));
            },
        }
    }
    let parts = r?;
    Ok(SignedParts { is_negative, parts })
}

/// Fully parse a signed value.
pub fn parse_signed<'de, T: Signed, P: Parser<'de>>(p: &mut P) -> (r: Result<T, ParseError>)
    ensures
        parsed(
            *old(p),
            *final(p),
            r,
            signed_parsed(old(p).rest(), old(p).index(), T::Unsigned::max_value()),
            |v: T, m: int| v.value() == m,
        ),
        match scan(old(p).rest().skip(sign_len(old(p).rest()) as int)) {
            Scanned::Empty => r == Err::<T, _>(
                ParseError {
                    kind: ParseErrorKind::BufferUnderflow,
                    start: final(p).index() as u32,
                    end: final(p).index() as u32,
                },
            ) && final(p).rest() == old(p).rest().skip(sign_len(old(p).rest()) as int)
                && final(p).index() == old(p).index() + sign_len(old(p).rest()),
            Scanned::Invalid { len } => final(p).rest() == old(p).rest().skip(
                (sign_len(old(p).rest()) + len) as int,
            ) && final(p).index() == old(p).index() + sign_len(old(p).rest()) + len && r
                == Err::<T, _>(
                ParseError {
                    kind: ParseErrorKind::InvalidNumeric,
                    start: old(p).index() as u32,
                    end: final(p).index() as u32,
                },
            ),
            Scanned::Number(n) => final(p).rest() == old(p).rest().skip(
                (sign_len(old(p).rest()) + n.len) as int,
            ) && final(p).index() == old(p).index() + sign_len(old(p).rest()) + n.len && match signed(
                n.value(T::Unsigned::max_value()),
                sign_len(old(p).rest()) == 1,
                T::Unsigned::max_value(),
            ) {
                Ok(value) => r matches Ok(v) && v.value() == value,
                Err(error) => r == Err::<T, _>(
                    ParseError {
                        kind: ParseErrorKind::IntegerError(error),
                        start: old(p).index() as u32,
                        end: final(p).index() as u32,
                    },
                ),
            },
        },
{
    let start = p.pos();
    proof {
        lemma_scanned_len(p.rest().skip(sign_len(p.rest()) as int));
    }

    match decode_signed::<T, P>(p)?.compute() {
        Ok(value) => Ok(value),
        Err(error) => Err(
            ParseError::spanned(start, p.pos(), ParseErrorKind::IntegerError(error)),
        ),
    }
}

} // verus!
