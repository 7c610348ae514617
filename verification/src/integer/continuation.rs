//! A variable-length 7-bit encoder where each bit indicates if there is a
//! continuation of the sequence or not.
//!
//! A number is written seven bits at a time, the lowest group first. Every
//! byte but the last one has its highest bit set.

use crate::error::{Cause, Error, Message};
use crate::integer::{lemma_power_grows, power, Unsigned};
use crate::reader::Reader;
use crate::writer::{lemma_wrote_fail, lemma_wrote_nothing, lemma_wrote_then, wrote, Writer};
use vstd::prelude::*;

verus! {

/// The bit that says that another group follows.
pub const CONT_BYTE: u8 = 0b1000_0000;

/// The bytes that a number is written as.
pub open spec fn encoding(value: nat) -> Seq<u8>
    decreases value,
{
    if value < 128 {
        seq![value as u8]
    } else {
        seq![(value % 128 + 128) as u8] + encoding(value / 128)
    }
}

/// The number of bytes at the start of `bytes` that announce another group.
pub open spec fn run(bytes: Seq<u8>) -> nat
    decreases bytes.len(),
{
    if bytes.len() == 0 || bytes[0] < 128 {
        0
    } else {
        1 + run(bytes.skip(1))
    }
}

/// The number that the first `n` groups of `bytes` stand for.
pub open spec fn groups_value(bytes: Seq<u8>, n: nat) -> nat
    decreases n,
{
    if n == 0 {
        0
    } else {
        groups_value(bytes, (n - 1) as nat) + (bytes[n - 1] % 128) as nat * power(
            128,
            (n - 1) as nat,
        )
    }
}

/// What decoding a number out of a source comes to.
pub enum Decoded {
    /// The source starts with a number of the given value, written as `len` bytes.
    Number { value: nat, len: nat },
    /// The source starts with more groups, or with a larger number, than the type supports.
    Overflow,
    /// The source ends before the number does.
    Underflow,
}

/// What decoding a number comes to, for a source that holds `bytes` and a type
/// that supports `groups` groups and numbers up to `max`.
pub open spec fn decoded(bytes: Seq<u8>, max: nat, groups: nat) -> Decoded {
    let run = run(bytes);
    if run >= groups {
        Decoded::Overflow
    } else if run >= bytes.len() {
        Decoded::Underflow
    } else if groups_value(bytes, run + 1) <= max {
        Decoded::Number { value: groups_value(bytes, run + 1), len: run + 1 }
    } else {
        Decoded::Overflow
    }
}

/// The run of a source does not reach past its end, and the bytes of the run
/// announce another group, while the byte after it does not.
pub proof fn lemma_run(bytes: Seq<u8>)
    ensures
        run(bytes) <= bytes.len(),
        forall|i: int| 0 <= i < run(bytes) ==> bytes[i] >= 128,
        run(bytes) < bytes.len() ==> bytes[run(bytes) as int] < 128,
    decreases bytes.len(),
{
    if bytes.len() == 0 || bytes[0] < 128 {
    } else {
        lemma_run(bytes.skip(1));
        assert forall|i: int| 0 <= i < run(bytes) implies bytes[i] >= 128 by {
            if i > 0 {
                assert(bytes[i] == bytes.skip(1)[i - 1]);
            }
        }
        if run(bytes) < bytes.len() {
            assert(bytes[run(bytes) as int] == bytes.skip(1)[run(bytes.skip(1)) as int]);
        }
    }
}

/// A source whose first `n` bytes announce another group has a run of at
/// least `n`; if the byte after them ends the number, the run is `n`.
pub proof fn lemma_run_from_bytes(bytes: Seq<u8>, n: nat)
    requires
        n <= bytes.len(),
        forall|i: int| 0 <= i < n ==> bytes[i] >= 128,
    ensures
        run(bytes) >= n,
        n < bytes.len() && bytes[n as int] < 128 ==> run(bytes) == n,
    decreases n,
{
    if n == 0 {
    } else {
        assert(bytes[0] >= 128);
        assert forall|i: int| 0 <= i < n - 1 implies bytes.skip(1)[i] >= 128 by {
            assert(bytes.skip(1)[i] == bytes[i + 1]);
        }
        lemma_run_from_bytes(bytes.skip(1), (n - 1) as nat);
        if n < bytes.len() {
            assert(bytes.skip(1)[n - 1] == bytes[n as int]);
        }
    }
}

/// The first `n` groups stand for a number below the `n`-th power of 128.
pub proof fn lemma_groups_value_bound(bytes: Seq<u8>, n: nat)
    ensures
        groups_value(bytes, n) < power(128, n),
    decreases n,
{
    if n > 0 {
        lemma_groups_value_bound(bytes, (n - 1) as nat);
        let p = power(128, (n - 1) as nat);
        let g = (bytes[n - 1] % 128) as nat;
        assert(g * p <= 127 * p) by (nonlinear_arith)
            requires
                g <= 127,
        ;
    }
}

/// The number that groups stand for depends on those groups alone.
pub proof fn lemma_groups_value_prefix(a: Seq<u8>, b: Seq<u8>, n: nat)
    requires
        n <= a.len(),
        n <= b.len(),
        forall|i: int| 0 <= i < n ==> a[i] == b[i],
    ensures
        groups_value(a, n) == groups_value(b, n),
    decreases n,
{
    if n > 0 {
        lemma_groups_value_prefix(a, b, (n - 1) as nat);
    }
}

/// The groups behind a first byte count 128 times as much as they do alone.
pub proof fn lemma_groups_value_shift(bytes: Seq<u8>, n: nat)
    requires
        1 <= n <= bytes.len(),
    ensures
        groups_value(bytes, n) == (bytes[0] % 128) + 128 * groups_value(
            bytes.skip(1),
            (n - 1) as nat,
        ),
    decreases n,
{
    if n == 1 {
        assert(groups_value(bytes, 0) == 0);
        assert(power(128, 0) == 1);
    } else {
        lemma_groups_value_shift(bytes, (n - 1) as nat);
        let rest = bytes.skip(1);
        assert(rest[n - 2] == bytes[n - 1]);
        let g = (bytes[n - 1] % 128) as nat;
        let p = power(128, (n - 2) as nat);
        assert(power(128, (n - 1) as nat) == 128 * p);
        assert(g * (128 * p) == 128 * (g * p)) by (nonlinear_arith);
    }
}

/// The bytes of a number are at least one, all but the last announce another
/// group, and they stand for the number.
pub proof fn lemma_encoding(value: nat)
    ensures
        encoding(value).len() >= 1,
        run(encoding(value)) == encoding(value).len() - 1,
        groups_value(encoding(value), encoding(value).len()) == value,
        forall|n: nat| value < power(128, n) && n >= 1 ==> encoding(value).len() <= n,
    decreases value,
{
    let bytes = encoding(value);
    if value < 128 {
        assert(bytes.len() == 1);
        assert(bytes[0] == value);
        assert(groups_value(bytes, 0) == 0);
        assert(power(128, 0) == 1);
        assert(groups_value(bytes, 1) == value);
    } else {
        let rest = encoding(value / 128);
        lemma_encoding(value / 128);
        assert(bytes.skip(1) =~= rest);
        assert(bytes[0] == value % 128 + 128);
        lemma_groups_value_shift(bytes, bytes.len());
        assert forall|n: nat| value < power(128, n) && n >= 1 implies bytes.len() <= n by {
            if n == 1 {
                assert(power(128, 0) == 1);
                assert(power(128, 1) == 128 * power(128, 0));
            } else {
                assert(power(128, n) == 128 * power(128, (n - 1) as nat));
                assert(value / 128 < power(128, (n - 1) as nat));
            }
        }
    }
}

/// Decoding the bytes of a number, whatever follows them, gives the number
/// and stops behind its bytes: two numbers written one after the other are
/// read as two numbers.
pub proof fn lemma_round_trip(value: nat, rest: Seq<u8>, max: nat, groups: nat)
    requires
        value <= max,
        groups >= 1,
        max < power(128, groups),
    ensures
        decoded(encoding(value) + rest, max, groups) == (Decoded::Number {
            value,
            len: encoding(value).len(),
        }),
        (encoding(value) + rest).skip(encoding(value).len() as int) == rest,
{
    let bytes = encoding(value);
    let all = bytes + rest;
    lemma_encoding(value);
    lemma_run(bytes);
    let n = (bytes.len() - 1) as nat;
    assert forall|i: int| 0 <= i < n implies all[i] >= 128 by {
        assert(all[i] == bytes[i]);
    }
    assert(all[n as int] == bytes[n as int]);
    lemma_run_from_bytes(all, n);
    lemma_groups_value_prefix(all, bytes, bytes.len());
    assert(all.skip(bytes.len() as int) =~= rest);
}

/// Encode the given unsigned number into the given writer, seven bits at a
/// time, the lowest group first.
pub fn encode<W: Writer, T: Unsigned>(writer: &mut W, value: T) -> (r: Result<(), W::Error>)
    ensures
        wrote(*old(writer), *final(writer), r is Ok, encoding(value.value())),
{
    let mut current = value;
    let ghost done: Seq<u8> = Seq::empty();
    proof {
        lemma_wrote_nothing(*writer);
        assert(done + encoding(value.value()) =~= encoding(value.value()));
    }
    loop
        invariant
            done + encoding(current.value()) == encoding(value.value()),
            wrote(*old(writer), *writer, true, done),
        decreases current.value(),
    {
        let group = current.low_group();
        let rest = current.drop_group();
        let ghost before = *writer;
        if rest.is_zero() {
            assert(encoding(current.value()) == seq![group]);
            let r = writer.write_byte(group);
            proof {
                lemma_wrote_then(*old(writer), before, *writer, done, seq![group], r is Ok);
            }
            return r;
        }
        let r = writer.write_byte(group + CONT_BYTE);
        proof {
            let byte = (group + CONT_BYTE) as u8;
            lemma_wrote_then(*old(writer), before, *writer, done, seq![byte], r is Ok);
            assert(encoding(current.value()) =~= seq![byte] + encoding(rest.value()));
            assert((done + seq![byte]) + encoding(rest.value()) =~= done + encoding(
                current.value(),
            ));
            if r is Err {
                lemma_wrote_fail(
                    *old(writer),
                    *writer,
                    done + seq![byte],
                    encoding(rest.value()),
                );
            }
            done = done + seq![byte];
        }
        match r {
            Ok(()) => {},
            Err(e) => {
                return Err(e);
            },
        }
        current = rest;
    }
}

/// Decode the given length using variable int encoding: read groups of seven
/// bits until one comes without the continuation bit.
pub fn decode<'de, R: Reader<'de>, T: Unsigned>(reader: &mut R) -> (r: Result<T, R::Error>)
    ensures
        match decoded(old(reader).remaining(), T::max_value(), T::spec_groups()) {
            Decoded::Number { value, len } => (r matches Ok(v) && v.value() == value && len
                <= old(reader).remaining().len() && final(reader).remaining() == old(
                reader,
            ).remaining().skip(len as int) && final(reader).end() == old(reader).end()),
            Decoded::Overflow => (r matches Err(e) && e.cause() == Cause::Message(
                Message::IntegerOverflow,
            ) && T::spec_groups() <= old(reader).remaining().len()
                && final(reader).remaining() == old(reader).remaining().skip(
                T::spec_groups() as int,
            ) && final(reader).end() == old(reader).end()),
            Decoded::Underflow => r is Err && final(reader).remaining().len() == 0,
        },
        final(reader).remaining().len() <= old(reader).remaining().len(),
{
    let ghost bytes = reader.remaining();
    let groups = T::groups();
    let mut value = T::from_byte(0);
    let mut scale = T::from_byte(1);
    let mut index: usize = 0;
    proof {
        T::lemma_shape();
        assert(bytes.skip(0) =~= bytes);
    }
    loop
        invariant
            bytes == old(reader).remaining(),
            groups == T::spec_groups(),
            index < groups,
            index <= bytes.len(),
            value.value() == groups_value(bytes, index as nat),
            scale.value() == power(128, index as nat),
            reader.remaining() == bytes.skip(index as int),
            reader.end() == old(reader).end(),
            forall|i: int| 0 <= i < index ==> bytes[i] >= 128,
        decreases groups - index,
    {
        proof {
            T::lemma_shape();
            lemma_run(bytes);
            lemma_run_from_bytes(bytes, index as nat);
        }
        let b = match reader.read_byte() {
            Ok(b) => b,
            Err(e) => {
                return Err(e);
            },
        };
        assert(b == bytes[index as int]);
        assert(reader.remaining() =~= bytes.skip(index + 1));
        let group = b % CONT_BYTE;
        let sum = match T::from_byte(group).checked_mul(scale) {
            Some(term) => value.checked_add(term),
            None => None,
        };
        proof {
            lemma_groups_value_bound(bytes, (index + 1) as nat);
            if index + 1 < groups {
                lemma_power_grows(128, (index + 1) as nat, (groups - 1) as nat);
            }
            if b < 128 {
                lemma_run_from_bytes(bytes, index as nat);
            } else {
                assert forall|i: int| 0 <= i < index + 1 implies bytes[i] >= 128 by {}
                lemma_run_from_bytes(bytes, (index + 1) as nat);
            }
        }
        let sum = match sum {
            Some(sum) => sum,
            None => {
                return Err(R::Error::message(Message::IntegerOverflow));
            },
        };
        if b < CONT_BYTE {
            return Ok(sum);
        }
        index = index + 1;
        if index == groups {
            return Err(R::Error::message(Message::IntegerOverflow));
        }
        proof {
            lemma_power_grows(128, index as nat, (groups - 1) as nat);
        }
        scale = match scale.checked_mul(T::from_byte(CONT_BYTE)) {
            Some(scale) => scale,
            None => {
                return Err(R::Error::message(Message::IntegerOverflow));
            },
        };
        value = sum;
    }
}

} // verus!
