use musli::encoding::{Fixed, FixedLength, Variable};
use musli::integer::byteorder::{BigEndian, LittleEndian};
use musli::storage::de::StorageDecoder;
use musli::storage::en::StorageEncoder;
use musli::storage::value::encode_value;
use musli::value::Value;
use musli::writer::{FixedBytes, Writer};

type Encoder<'a> = StorageEncoder<'a, Vec<u8>, Variable, Variable>;
type Decoder<'a, 'de> = StorageDecoder<'a, &'de [u8], Variable, Variable>;

#[test]
fn storage_scalars_round_trip() {
    let mut out = Vec::new();
    Encoder::new(&mut out).encode_bool(true).unwrap();
    Encoder::new(&mut out).encode_u8(200).unwrap();
    Encoder::new(&mut out).encode_i8(-2).unwrap();
    Encoder::new(&mut out).encode_u16(1000).unwrap();
    Encoder::new(&mut out).encode_i32(-1).unwrap();
    Encoder::new(&mut out).encode_u64(u64::MAX).unwrap();
    Encoder::new(&mut out).encode_i128(i128::MIN).unwrap();
    Encoder::new(&mut out).encode_usize(5).unwrap();
    Encoder::new(&mut out).encode_isize(-5).unwrap();
    Encoder::new(&mut out).encode_char('z').unwrap();
    Encoder::new(&mut out).encode_string("grüß").unwrap();
    Encoder::new(&mut out).encode_bytes(&[4, 5]).unwrap();
    Encoder::new(&mut out).encode_array([6, 7, 8]).unwrap();
    assert_eq!(&out[..6], &[1, 200, 254, 0xe8, 0x07, 1]);
    let mut data = &out[..];
    assert_eq!(Decoder::new(&mut data).decode_bool().unwrap(), true);
    assert_eq!(Decoder::new(&mut data).decode_u8().unwrap(), 200);
    assert_eq!(Decoder::new(&mut data).decode_i8().unwrap(), -2);
    assert_eq!(Decoder::new(&mut data).decode_u16().unwrap(), 1000);
    assert_eq!(Decoder::new(&mut data).decode_i32().unwrap(), -1);
    assert_eq!(Decoder::new(&mut data).decode_u64().unwrap(), u64::MAX);
    assert_eq!(Decoder::new(&mut data).decode_i128().unwrap(), i128::MIN);
    assert_eq!(Decoder::new(&mut data).decode_usize().unwrap(), 5);
    assert_eq!(Decoder::new(&mut data).decode_isize().unwrap(), -5);
    assert_eq!(Decoder::new(&mut data).decode_char().unwrap(), 'z');
    assert_eq!(Decoder::new(&mut data).decode_string().unwrap(), "grüß");
    assert_eq!(Decoder::new(&mut data).decode_bytes().unwrap(), &[4, 5]);
    assert_eq!(Decoder::new(&mut data).decode_array::<3>().unwrap(), [6, 7, 8]);
    assert!(data.is_empty());
}

#[test]
fn storage_option_and_sequence() {
    let mut out = Vec::new();
    Encoder::new(&mut out).encode_none().unwrap();
    Encoder::new(&mut out).encode_some().unwrap().encode_u8(9).unwrap();
    {
        let mut seq = Encoder::new(&mut out).encode_sequence(2).unwrap();
        seq.encode_next().unwrap().encode_u8(1).unwrap();
        seq.encode_next().unwrap().encode_u8(2).unwrap();
        seq.finish().unwrap();
    }
    {
        let mut variant = Encoder::new(&mut out).encode_variant().unwrap();
        variant.encode_variant_tag().unwrap().encode_usize(3).unwrap();
        variant.encode_variant_value().unwrap().encode_bool(false).unwrap();
    }
    assert_eq!(out, vec![0, 1, 9, 2, 1, 2, 3, 0]);
    let mut data = &out[..];
    assert!(Decoder::new(&mut data).decode_option().unwrap().is_none());
    assert_eq!(Decoder::new(&mut data).decode_option().unwrap().unwrap().decode_u8().unwrap(), 9);
    let mut seq = Decoder::new(&mut data).decode_sequence().unwrap();
    assert_eq!(seq.size_hint(), Some(2));
    let mut items = Vec::new();
    while let Some(item) = seq.next().unwrap() {
        items.push(item.decode_u8().unwrap());
    }
    assert_eq!(items, vec![1, 2]);
    let mut variant = Decoder::new(&mut data).decode_variant().unwrap();
    assert_eq!(variant.first().unwrap().decode_usize().unwrap(), 3);
    assert_eq!(variant.second().unwrap().decode_bool().unwrap(), false);
    assert!(data.is_empty());
}

#[test]
fn storage_rejects_malformed_values() {
    let mut data = &[2u8][..];
    assert!(Decoder::new(&mut data).decode_bool().is_err());
    let mut data = &[7u8][..];
    assert!(Decoder::new(&mut data).decode_option().is_err());
    let mut data = &[2u8, 0xc3, 0x28][..];
    assert!(Decoder::new(&mut data).decode_string().is_err());
    let mut data = &[5u8, 1][..];
    assert!(Decoder::new(&mut data).decode_bytes().is_err());
    let mut data = &[0xff, 0xff, 0xff][..];
    assert!(Decoder::new(&mut data).decode_u16().is_err());
    let mut data = &[0x80u8][..];
    assert!(Decoder::new(&mut data).decode_u16().is_err());
}

#[test]
fn fixed_bytes_writer_fills_up() {
    let mut bytes = FixedBytes::<4>::new();
    bytes.write_bytes(&[1, 2, 3]).unwrap();
    assert!(bytes.write_bytes(&[4, 5]).is_err());
    assert_eq!(bytes.as_slice(), &[1, 2, 3]);
    bytes.write_byte(4).unwrap();
    assert!(bytes.write_byte(5).is_err());
    assert_eq!(bytes.len(), 4);
    bytes.write_bytes(&[]).unwrap();
    let mut small = FixedBytes::<2>::new();
    assert!(StorageEncoder::<_, Variable, Variable>::new(&mut small).encode_string("abc").is_err());
}

#[test]
fn storage_fixed_integers_follow_the_byte_order() {
    let mut out = Vec::new();
    StorageEncoder::<Vec<u8>, Fixed<BigEndian>, FixedLength<u32, BigEndian>>::new(&mut out)
        .encode_u32(0x0102_0304)
        .unwrap();
    StorageEncoder::<Vec<u8>, Fixed<LittleEndian>, FixedLength<u16, LittleEndian>>::new(&mut out)
        .encode_u32(0x0102_0304)
        .unwrap();
    StorageEncoder::<Vec<u8>, Fixed<BigEndian>, FixedLength<u32, BigEndian>>::new(&mut out)
        .encode_i16(-2)
        .unwrap();
    StorageEncoder::<Vec<u8>, Fixed<BigEndian>, FixedLength<u32, BigEndian>>::new(&mut out)
        .encode_usize(7)
        .unwrap();
    StorageEncoder::<Vec<u8>, Fixed<LittleEndian>, FixedLength<u16, LittleEndian>>::new(&mut out)
        .encode_bytes(&[9, 8])
        .unwrap();
    assert_eq!(
        out,
        vec![1, 2, 3, 4, 4, 3, 2, 1, 0xff, 0xfe, 0, 0, 0, 7, 2, 0, 9, 8]
    );

    let mut data = &out[..];
    assert_eq!(
        StorageDecoder::<&[u8], Fixed<BigEndian>, FixedLength<u32, BigEndian>>::new(&mut data)
            .decode_u32()
            .unwrap(),
        0x0102_0304
    );
    assert_eq!(
        StorageDecoder::<&[u8], Fixed<LittleEndian>, FixedLength<u16, LittleEndian>>::new(
            &mut data
        )
        .decode_u32()
        .unwrap(),
        0x0102_0304
    );
    assert_eq!(
        StorageDecoder::<&[u8], Fixed<BigEndian>, FixedLength<u32, BigEndian>>::new(&mut data)
            .decode_i16()
            .unwrap(),
        -2
    );
    assert_eq!(
        StorageDecoder::<&[u8], Fixed<BigEndian>, FixedLength<u32, BigEndian>>::new(&mut data)
            .decode_usize()
            .unwrap(),
        7
    );
    assert_eq!(
        StorageDecoder::<&[u8], Fixed<LittleEndian>, FixedLength<u16, LittleEndian>>::new(
            &mut data
        )
        .decode_bytes()
        .unwrap(),
        &[9, 8]
    );
    assert!(data.is_empty());
}

#[test]
fn storage_fixed_length_rejects_what_it_cannot_hold() {
    let mut out = Vec::new();
    let failed = StorageEncoder::<Vec<u8>, Fixed<BigEndian>, FixedLength<u8, BigEndian>>::new(
        &mut out,
    )
    .encode_usize(256);
    assert!(failed.is_err());
    assert!(out.is_empty());

    let mut data: &[u8] = &[1, 2];
    let short = StorageDecoder::<&[u8], Fixed<BigEndian>, FixedLength<u32, BigEndian>>::new(
        &mut data,
    )
    .decode_u32();
    assert!(short.is_err());
}

#[test]
fn values_are_written_as_the_storage_encoder_writes_their_parts() {
    let value = Value::Sequence(vec![
        Value::Unit,
        Value::Bool(true),
        Value::Char('a'),
        Value::Unsigned(1000),
        Value::Signed(-1),
        Value::Bytes(vec![9, 8]),
        Value::String("ok".to_string()),
        Value::Option(None),
        Value::Option(Some(Box::new(Value::Unsigned(5)))),
        Value::Mapping(vec![(Value::Unsigned(1), Value::Bool(false))]),
        Value::Variant(Box::new((Value::Unsigned(3), Value::Unit))),
    ]);
    let mut out = Vec::new();
    encode_value::<_, Variable, Variable>(&mut out, &value).unwrap();
    assert_eq!(
        out,
        vec![
            11, 0, 1, 97, 0xe8, 0x07, 1, 2, 9, 8, 2, b'o', b'k', 0, 1, 5, 1, 1, 0, 3, 0
        ]
    );

    let mut out = Vec::new();
    encode_value::<_, Fixed<BigEndian>, FixedLength<u16, BigEndian>>(
        &mut out,
        &Value::Sequence(vec![Value::Char('a'), Value::Signed(-2)]),
    )
    .unwrap();
    let mut expected = vec![0, 2, 0, 0, 0, 97];
    expected.extend_from_slice(&[0xff; 15]);
    expected.push(0xfe);
    assert_eq!(out, expected);
}

#[test]
fn values_with_lengths_that_the_encoding_does_not_hold_fail() {
    let long = Value::Sequence(vec![Value::Unit, Value::Bytes(vec![0; 300])]);
    let mut out = Vec::new();
    let r = encode_value::<_, Variable, FixedLength<u8, BigEndian>>(&mut out, &long);
    assert!(r.is_err());
    assert_eq!(out, vec![2, 0]);
}
