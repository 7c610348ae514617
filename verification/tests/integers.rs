use musli::integer::continuation as c;
use musli::integer::zigzag as zig;
use musli::integer::{Signed, Unsigned};
use musli::reader::Reader;
use rand::rngs::StdRng;
use rand::{Rng, SeedableRng};
use std::fmt;

fn continuation_rt<T>(expected: T)
where
    T: PartialEq<T> + fmt::Debug + Unsigned,
{
    let mut out = Vec::new();
    c::encode(&mut out, expected).unwrap();
    c::encode(&mut out, expected).unwrap();
    let mut data = out.as_slice();
    let a: T = c::decode(&mut data).unwrap();
    let b: T = c::decode(&mut data).unwrap();
    assert!(data.is_empty());
    assert_eq!(a, expected);
    assert_eq!(b, expected);
}

fn continuation_encode<T>(value: T) -> Vec<u8>
where
    T: Unsigned,
{
    let mut out = Vec::new();
    c::encode(&mut out, value).unwrap();
    out
}

#[test]
fn test_continuation_encoding() {
    continuation_rt::<usize>(0);
    continuation_rt::<usize>(1);
    continuation_rt::<usize>(42);
    continuation_rt::<usize>(127);
    continuation_rt::<usize>(128);
    continuation_rt::<usize>(128 << 8);
    continuation_rt::<usize>(usize::MAX);
    let mut rng = StdRng::seed_from_u64(0xfd80fd80fd80fd80);
    for _ in 0..10000 {
        let value = rng.gen::<usize>();
        continuation_rt(value);
    }

    continuation_rt::<u16>(0);
    continuation_rt::<u16>(1);
    continuation_rt::<u16>(42);
    continuation_rt::<u16>(127);
    continuation_rt::<u16>(128);
    continuation_rt::<u16>(128 << 8);
    continuation_rt::<u16>(u16::MAX);
    let mut rng = StdRng::seed_from_u64(0xfd80fd80fd80fd80);
    for _ in 0..10000 {
        let value = rng.gen::<usize>();
        continuation_rt(value);
    }

    continuation_rt::<u32>(0);
    continuation_rt::<u32>(1);
    continuation_rt::<u32>(42);
    continuation_rt::<u32>(127);
    continuation_rt::<u32>(128);
    continuation_rt::<u32>(128 << 8);
    continuation_rt::<u32>(u32::MAX);
    let mut rng = StdRng::seed_from_u64(0xfd80fd80fd80fd80);
    for _ in 0..10000 {
        let value = rng.gen::<usize>();
        continuation_rt(value);
    }

    continuation_rt::<u64>(0);
    continuation_rt::<u64>(1);
    continuation_rt::<u64>(42);
    continuation_rt::<u64>(127);
    continuation_rt::<u64>(128);
    continuation_rt::<u64>(128 << 8);
    continuation_rt::<u64>(u64::MAX);
    let mut rng = StdRng::seed_from_u64(0xfd80fd80fd80fd80);
    for _ in 0..10000 {
        let value = rng.gen::<usize>();
        continuation_rt(value);
    }

    continuation_rt::<u128>(0);
    continuation_rt::<u128>(1);
    continuation_rt::<u128>(42);
    continuation_rt::<u128>(127);
    continuation_rt::<u128>(128);
    continuation_rt::<u128>(128 << 8);
    continuation_rt::<u128>(u128::MAX);
    let mut rng = StdRng::seed_from_u64(0xfd80fd80fd80fd80);
    for _ in 0..10000 {
        let value = rng.gen::<usize>();
        continuation_rt(value);
    }

    assert_eq!(continuation_encode(1000u128), vec![232, 7]);
}

fn zigzag_rt<T>(value: T, expected: T::Unsigned)
where
    T: fmt::Debug + Signed + PartialEq,
    T::Unsigned: Unsigned + fmt::Debug + PartialEq,
{
    assert_eq!(zig::encode(value), expected);
    assert_eq!(zig::decode::<T>(expected), value);
}

#[test]
fn test_zigzag() {
    zigzag_rt::<isize>(0, 0);
    zigzag_rt::<isize>(-1, 1);
    zigzag_rt::<isize>(1, 2);
    zigzag_rt::<isize>(-2, 3);
    zigzag_rt::<isize>(2, 4);
    zigzag_rt::<isize>(isize::MAX, usize::MAX - 1);
    zigzag_rt::<isize>(isize::MIN, usize::MAX);

    zigzag_rt::<i16>(0, 0);
    zigzag_rt::<i16>(-1, 1);
    zigzag_rt::<i16>(1, 2);
    zigzag_rt::<i16>(-2, 3);
    zigzag_rt::<i16>(2, 4);
    zigzag_rt::<i16>(i16::MAX, u16::MAX - 1);
    zigzag_rt::<i16>(i16::MIN, u16::MAX);

    zigzag_rt::<i32>(0, 0);
    zigzag_rt::<i32>(-1, 1);
    zigzag_rt::<i32>(1, 2);
    zigzag_rt::<i32>(-2, 3);
    zigzag_rt::<i32>(2, 4);
    zigzag_rt::<i32>(i32::MAX, u32::MAX - 1);
    zigzag_rt::<i32>(i32::MIN, u32::MAX);

    zigzag_rt::<i64>(0, 0);
    zigzag_rt::<i64>(-1, 1);
    zigzag_rt::<i64>(1, 2);
    zigzag_rt::<i64>(-2, 3);
    zigzag_rt::<i64>(2, 4);
    zigzag_rt::<i64>(i64::MAX, u64::MAX - 1);
    zigzag_rt::<i64>(i64::MIN, u64::MAX);

    zigzag_rt::<i128>(0, 0);
    zigzag_rt::<i128>(-1, 1);
    zigzag_rt::<i128>(1, 2);
    zigzag_rt::<i128>(-2, 3);
    zigzag_rt::<i128>(2, 4);
    zigzag_rt::<i128>(i128::MAX, u128::MAX - 1);
    zigzag_rt::<i128>(i128::MIN, u128::MAX);
}
