//! Integers of fixed width, as the bytes that hold them in a given order.

use crate::error::Outcome;
use crate::integer::{power, Unsigned};
use crate::reader::Reader;
use crate::writer::{wrote, Writer};
use vstd::prelude::*;

verus! {

/// The unsigned number that has the bits of the signed number `x`, in a type
/// whose largest unsigned number is `max`.
pub open spec fn wrapped(x: int, max: nat) -> nat {
    if x >= 0 {
        x as nat
    } else {
        (x + max + 1) as nat
    }
}

/// The signed number that has the bits of the unsigned number `u`, in a type
/// whose largest unsigned number is `max`.
pub open spec fn unwrapped(u: nat, max: nat) -> int {
    if 2 * u <= max {
        u as int
    } else {
        u - max - 1
    }
}

/// A signed number that is taken for the unsigned number of the same bits,
/// and back, is the number it was.
pub proof fn lemma_wrapped_round_trip(x: int, max: nat)
    requires
        crate::integer::zigzag::encoded(x) <= max,
    ensures
        wrapped(x, max) <= max,
        unwrapped(wrapped(x, max), max) == x,
{
}

/// The `n` bytes of a number, the highest byte first.
pub open spec fn be_bytes(value: nat, n: nat) -> Seq<u8>
    decreases n,
{
    if n == 0 {
        Seq::empty()
    } else {
        be_bytes(value / 256, (n - 1) as nat).push((value % 256) as u8)
    }
}

/// The number that the first `n` of the given bytes hold, the highest byte first.
pub open spec fn be_value(bytes: Seq<u8>, n: nat) -> nat
    decreases n,
{
    if n == 0 {
        0
    } else {
        be_value(bytes, (n - 1) as nat) * 256 + bytes[n - 1] as nat
    }
}

/// The bytes of a number are as many as asked for, and hold the number
/// where it is below the `n`-th power of 256.
pub proof fn lemma_be_round_trip(value: nat, n: nat)
    ensures
        be_bytes(value, n).len() == n,
        value < power(256, n) ==> be_value(be_bytes(value, n), n) == value,
    decreases n,
{
    if n > 0 {
        let front = be_bytes(value / 256, (n - 1) as nat);
        let all = be_bytes(value, n);
        lemma_be_round_trip(value / 256, (n - 1) as nat);
        lemma_be_prefix(all, front, (n - 1) as nat);
        assert(all[n - 1] == (value % 256) as u8);
    }
}

/// The number that bytes hold depends on those bytes alone.
pub proof fn lemma_be_prefix(a: Seq<u8>, b: Seq<u8>, n: nat)
    requires
        n <= a.len(),
        n <= b.len(),
        forall|i: int| 0 <= i < n ==> a[i] == b[i],
    ensures
        be_value(a, n) == be_value(b, n),
    decreases n,
{
    if n > 0 {
        lemma_be_prefix(a, b, (n - 1) as nat);
    }
}

/// The number that `n` bytes hold is below the `n`-th power of 256.
pub proof fn lemma_be_bound(bytes: Seq<u8>, n: nat)
    ensures
        be_value(bytes, n) < power(256, n),
    decreases n,
{
    if n > 0 {
        lemma_be_bound(bytes, (n - 1) as nat);
    }
}

/// Defines the order in which the bytes of an integer are written.
pub trait ByteOrder: Sized {
    /// Whether the lowest byte comes first.
    spec fn spec_little() -> bool;

    /// Whether the lowest byte comes first.
    fn little() -> (b: bool)
        ensures
            b == Self::spec_little(),
    ;
}

/// Defines little-endian serialization.
#[derive(Debug, Clone, Copy)]
pub struct LittleEndian;

/// Defines big-endian serialization.
#[derive(Debug, Clone, Copy)]
pub struct BigEndian;

/// Defines network-endian serialization, which is big-endian.
pub type NetworkEndian = BigEndian;

impl ByteOrder for LittleEndian {
    open spec fn spec_little() -> bool {
        true
    }

    #[inline]
    fn little() -> (b: bool) {
        true
    }
}

impl ByteOrder for BigEndian {
    open spec fn spec_little() -> bool {
        false
    }

    #[inline]
    fn little() -> (b: bool) {
        false
    }
}

/// The bytes in the given order, for bytes that have the highest byte first.
pub open spec fn arranged<B: ByteOrder>(bytes: Seq<u8>) -> Seq<u8> {
    if B::spec_little() {
        bytes.reverse()
    } else {
        bytes
    }
}

/// The `n` bytes that a number is written as in the given order.
pub open spec fn fixed_form<B: ByteOrder>(value: nat, n: nat) -> Seq<u8> {
    arranged::<B>(be_bytes(value, n))
}

/// What reading a number of `n` bytes in the given order comes to.
pub open spec fn fixed_read<B: ByteOrder>(source: Seq<u8>, n: nat) -> Outcome<nat> {
    if source.len() < n {
        Outcome::Underflow
    } else {
        Outcome::Value { value: be_value(arranged::<B>(source.take(n as int)), n), len: n }
    }
}

/// A number that is written in `n` bytes and read again is the number it
/// was, and what follows it is left unread.
pub proof fn lemma_fixed_round_trip<B: ByteOrder>(value: nat, n: nat, rest: Seq<u8>)
    requires
        value < power(256, n),
    ensures
        fixed_form::<B>(value, n).len() == n,
        fixed_read::<B>(fixed_form::<B>(value, n) + rest, n) == (Outcome::Value {
            value,
            len: n,
        }),
{
    let bytes = be_bytes(value, n);
    let form = fixed_form::<B>(value, n);
    lemma_be_round_trip(value, n);
    assert((form + rest).take(n as int) =~= form);
    assert(bytes.reverse().reverse() =~= bytes);
}

/// Append the `n` bytes of a number to the buffer, the highest byte first.
pub fn push_be<T: Unsigned>(buffer: &mut Vec<u8>, value: T, n: usize)
    ensures
        final(buffer)@ == old(buffer)@ + be_bytes(value.value(), n as nat),
    decreases n,
{
    if n == 0 {
        assert(buffer@ =~= old(buffer)@ + be_bytes(value.value(), 0));
    } else {
        push_be(buffer, value.drop_byte(), n - 1);
        buffer.push(value.low_byte());
        assert(buffer@ =~= old(buffer)@ + be_bytes(value.value(), n as nat));
    }
}

/// The bytes in the opposite order.
pub fn reversed(bytes: &[u8]) -> (out: Vec<u8>)
    ensures
        out@ == bytes@.reverse(),
{
    let mut out = Vec::new();
    let mut i: usize = bytes.len();
    while i > 0
        invariant
            i <= bytes@.len(),
            out@.len() == bytes@.len() - i,
            forall|k: int| 0 <= k < out@.len() ==> out@[k] == bytes@[bytes@.len() - 1 - k],
        decreases i,
    {
        i = i - 1;
        out.push(bytes[i]);
    }
    assert(out@ =~= bytes@.reverse());
    out
}

/// Write a number in as many bytes as its type takes, in the given order.
pub fn write_fixed<W: Writer, T: Unsigned, B: ByteOrder>(writer: &mut W, value: T) -> (r: Result<
    (),
    W::Error,
>)
    ensures
        wrote(
            *old(writer),
            *final(writer),
            r is Ok,
            fixed_form::<B>(value.value(), T::spec_bytes()),
        ),
{
    let mut buffer = Vec::new();
    push_be(&mut buffer, value, T::bytes());
    assert(buffer@ =~= be_bytes(value.value(), T::spec_bytes()));
    if B::little() {
        let out = reversed(buffer.as_slice());
        writer.write_bytes(out.as_slice())
    } else {
        writer.write_bytes(buffer.as_slice())
    }
}

/// The number that the given bytes hold, the highest byte first.
pub fn value_of_be<T: Unsigned>(bytes: &[u8]) -> (r: Option<T>)
    requires
        bytes@.len() == T::spec_bytes(),
    ensures
        r matches Some(v) && v.value() == be_value(bytes@, bytes@.len()),
{
    let mut value = T::from_byte(0);
    let mut i: usize = 0;
    proof {
        T::lemma_shape();
    }
    while i < bytes.len()
        invariant
            i <= bytes@.len(),
            bytes@.len() == T::spec_bytes(),
            T::max_value() + 1 == power(256, T::spec_bytes()),
            value.value() == be_value(bytes@, i as nat),
        decreases bytes@.len() - i,
    {
        proof {
            lemma_be_bound(bytes@, (i + 1) as nat);
            crate::integer::lemma_power_grows(256, (i + 1) as nat, T::spec_bytes());
        }
        value = match value.append_byte(bytes[i]) {
            Some(value) => value,
            None => {
                return None;
            },
        };
        i = i + 1;
    }
    Some(value)
}

/// Read a number of as many bytes as its type takes, in the given order.
pub fn read_fixed<'de, R: Reader<'de>, T: Unsigned, B: ByteOrder>(reader: &mut R) -> (r: Result<
    T,
    R::Error,
>)
    ensures
        match fixed_read::<B>(old(reader).remaining(), T::spec_bytes()) {
            Outcome::Value { value, len } => (r matches Ok(v) && v.value() == value
                && final(reader).remaining() == old(reader).remaining().skip(len as int)
                && final(reader).end() == old(reader).end()),
            Outcome::Failure { message, len } => false,
            Outcome::Underflow => r is Err,
        },
        final(reader).remaining().len() <= old(reader).remaining().len(),
{
    let bytes = reader.read_bytes(T::bytes())?;
    let value = if B::little() {
        let ordered = reversed(bytes);
        value_of_be::<T>(ordered.as_slice())
    } else {
        value_of_be::<T>(bytes)
    };
    match value {
        Some(value) => Ok(value),
        None => Err(
            <R::Error as crate::error::Error>::message(crate::error::Message::IntegerOverflow),
        ),
    }
}

} // verus!
