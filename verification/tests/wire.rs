use musli::encoding::{Fixed, FixedLength, Variable};
use musli::value::Value;
use musli::wire::value::encode_value;
use musli::integer::byteorder::{BigEndian, LittleEndian};
use musli::error::{Cause, Error, Message};
use musli::reader::{limit, with_position, PositionedReader, Reader, SliceReader, WithPosition};
use musli::wire::de::{skip_any, WireDecoder};
use musli::wire::en::WireEncoder;
use musli::wire::types::{TypeKind, TypeTag, LEN_MASK, SEE_NEXT};

type Encoder<'a> = WireEncoder<'a, Vec<u8>, Variable, Variable>;
type Decoder<'a, 'de> = WireDecoder<'a, WithPosition<SliceReader<'de>>, Variable, Variable>;

fn reader(bytes: &[u8]) -> WithPosition<SliceReader<'_>> {
    with_position(SliceReader::new(bytes))
}

#[test]
fn type_tag_constants() {
    assert_eq!(LEN_MASK, 0b000_11111);
    assert_eq!(SEE_NEXT, 0b000_11111);
    assert_eq!(TypeKind::Mark.bits(), 0b000_00000);
    assert_eq!(TypeKind::Byte.bits(), 0b001_00000);
    assert_eq!(TypeKind::Fixed.bits(), 0b010_00000);
    assert_eq!(TypeKind::Continuation.bits(), 0b011_00000);
    assert_eq!(TypeKind::Prefixed.bits(), 0b100_00000);
    assert_eq!(TypeKind::Sequence.bits(), 0b101_00000);
    assert_eq!(TypeKind::PairSequence.bits(), 0b110_00000);
    assert_eq!(TypeKind::Unknown.bits(), 0b111_00000);
}

#[test]
fn type_tag_new_clamps_length() {
    assert_eq!(TypeTag::new(TypeKind::Byte, 3).len, 3);
    assert_eq!(TypeTag::new(TypeKind::Byte, 30).len, 30);
    assert_eq!(TypeTag::new(TypeKind::Byte, 31).len, 31);
    assert_eq!(TypeTag::new(TypeKind::Byte, 200).len, 31);
    assert_eq!(TypeTag::new(TypeKind::Byte, 30).len(), Some(30));
    assert_eq!(TypeTag::new(TypeKind::Byte, 31).len(), None);
}

#[test]
fn type_tag_with_len_and_byte() {
    let (tag, embedded) = TypeTag::with_len(TypeKind::Prefixed, 30);
    assert!(embedded);
    assert_eq!(tag, TypeTag::new(TypeKind::Prefixed, 30));
    let (tag, embedded) = TypeTag::with_len(TypeKind::Prefixed, 31);
    assert!(!embedded);
    assert_eq!(tag.len, LEN_MASK);
    let (tag, embedded) = TypeTag::with_len(TypeKind::Prefixed, usize::MAX);
    assert!(!embedded);
    assert_eq!(tag.len, LEN_MASK);
    let (tag, embedded) = TypeTag::with_byte(TypeKind::Byte, 7);
    assert!(embedded);
    assert_eq!(tag.byte(), 0b001_00111);
    let (tag, embedded) = TypeTag::with_byte(TypeKind::Byte, 0xff);
    assert!(!embedded);
    assert_eq!(tag.byte(), 0b001_11111);
}

#[test]
fn type_tag_round_trips_every_byte() {
    for b in 0..=255u8 {
        let tag = TypeTag::from_byte(b);
        assert!(tag.len <= LEN_MASK);
        assert_eq!(tag.byte(), b);
    }
    assert_eq!(TypeTag::from_byte(0xe5).kind, TypeKind::Unknown);
    assert_eq!(TypeTag::from_byte(0xe5).len, 5);
}

#[test]
fn small_unsigned_on_binary_tagged() {
    let mut out = Vec::new();
    Encoder::new(&mut out).encode_u16(42).unwrap();
    assert_eq!(out, vec![0x60, 0x2a]);
    let mut r = reader(&out);
    assert_eq!(Decoder::new(&mut r).decode_u16().unwrap(), 42u16);
    assert_eq!(r.pos(), 2);
}

#[test]
fn wire_bytes_and_embedded_values() {
    let mut out = Vec::new();
    Encoder::new(&mut out).encode_u8(30).unwrap();
    Encoder::new(&mut out).encode_u8(31).unwrap();
    Encoder::new(&mut out).encode_u8(255).unwrap();
    Encoder::new(&mut out).encode_bool(true).unwrap();
    Encoder::new(&mut out).encode_bool(false).unwrap();
    Encoder::new(&mut out).encode_i8(-1).unwrap();
    assert_eq!(out, vec![0x3e, 0x3f, 31, 0x3f, 255, 0x21, 0x20, 0x3f, 255]);
    let mut r = reader(&out);
    assert_eq!(Decoder::new(&mut r).decode_u8().unwrap(), 30);
    assert_eq!(Decoder::new(&mut r).decode_u8().unwrap(), 31);
    assert_eq!(Decoder::new(&mut r).decode_u8().unwrap(), 255);
    assert_eq!(Decoder::new(&mut r).decode_bool().unwrap(), true);
    assert_eq!(Decoder::new(&mut r).decode_bool().unwrap(), false);
    assert_eq!(Decoder::new(&mut r).decode_i8().unwrap(), -1);
    assert_eq!(r.pos(), out.len());
}

#[test]
fn wire_integers_round_trip() {
    let mut out = Vec::new();
    Encoder::new(&mut out).encode_u32(u32::MAX).unwrap();
    Encoder::new(&mut out).encode_u64(1000).unwrap();
    Encoder::new(&mut out).encode_u128(u128::MAX).unwrap();
    Encoder::new(&mut out).encode_i16(-1).unwrap();
    Encoder::new(&mut out).encode_i32(i32::MIN).unwrap();
    Encoder::new(&mut out).encode_i64(-3).unwrap();
    Encoder::new(&mut out).encode_i128(i128::MAX).unwrap();
    Encoder::new(&mut out).encode_usize(77).unwrap();
    Encoder::new(&mut out).encode_isize(-77).unwrap();
    Encoder::new(&mut out).encode_char('ß').unwrap();
    let mut r = reader(&out);
    assert_eq!(Decoder::new(&mut r).decode_u32().unwrap(), u32::MAX);
    assert_eq!(Decoder::new(&mut r).decode_u64().unwrap(), 1000);
    assert_eq!(Decoder::new(&mut r).decode_u128().unwrap(), u128::MAX);
    assert_eq!(Decoder::new(&mut r).decode_i16().unwrap(), -1);
    assert_eq!(Decoder::new(&mut r).decode_i32().unwrap(), i32::MIN);
    assert_eq!(Decoder::new(&mut r).decode_i64().unwrap(), -3);
    assert_eq!(Decoder::new(&mut r).decode_i128().unwrap(), i128::MAX);
    assert_eq!(Decoder::new(&mut r).decode_usize().unwrap(), 77);
    assert_eq!(Decoder::new(&mut r).decode_isize().unwrap(), -77);
    assert_eq!(Decoder::new(&mut r).decode_char().unwrap(), 'ß');
    assert_eq!(r.pos(), out.len());
}

#[test]
fn wire_strings_and_bytes() {
    let long = "x".repeat(40);
    let mut out = Vec::new();
    Encoder::new(&mut out).encode_string("foo").unwrap();
    Encoder::new(&mut out).encode_string(&long).unwrap();
    Encoder::new(&mut out).encode_bytes(&[1, 2, 3]).unwrap();
    Encoder::new(&mut out).encode_string("héllo wörld").unwrap();
    assert_eq!(&out[..4], &[0x83, b'f', b'o', b'o']);
    assert_eq!(&out[4..6], &[0x9f, 40]);
    let mut r = reader(&out);
    assert_eq!(Decoder::new(&mut r).decode_string().unwrap(), "foo");
    assert_eq!(Decoder::new(&mut r).decode_string().unwrap(), long);
    assert_eq!(Decoder::new(&mut r).decode_bytes().unwrap(), &[1, 2, 3]);
    assert_eq!(Decoder::new(&mut r).decode_string().unwrap(), "héllo wörld");
    assert_eq!(r.pos(), out.len());
}

#[test]
fn wire_malformed_utf8_is_invalid_encoding() {
    let bytes = [0x82, 0xff, 0xfe];
    let mut r = reader(&bytes);
    assert!(Decoder::new(&mut r).decode_string().is_err());
    let mut r = reader(&bytes);
    assert_eq!(Decoder::new(&mut r).decode_bytes().unwrap(), &[0xff, 0xfe]);
}

#[test]
fn wire_array_length_is_checked() {
    let mut out = Vec::new();
    Encoder::new(&mut out).encode_bytes(&[1, 2, 3, 4]).unwrap();
    let mut r = reader(&out);
    assert_eq!(Decoder::new(&mut r).decode_array::<4>().unwrap(), [1, 2, 3, 4]);
    let mut r = reader(&out);
    assert!(Decoder::new(&mut r).decode_array::<3>().is_err());
}

#[test]
fn wire_option() {
    let mut out = Vec::new();
    Encoder::new(&mut out).encode_none().unwrap();
    Encoder::new(&mut out).encode_some().unwrap().encode_u8(5).unwrap();
    assert_eq!(out, vec![0x00, 0x01, 0x25]);
    let mut r = reader(&out);
    assert!(Decoder::new(&mut r).decode_option().unwrap().is_none());
    let inner = Decoder::new(&mut r).decode_option().unwrap().unwrap();
    assert_eq!(inner.decode_u8().unwrap(), 5);
    let mut r = reader(&[0x02]);
    assert!(Decoder::new(&mut r).decode_option().is_err());
}

#[test]
fn wire_kind_mismatch_fails() {
    let mut r = reader(&[0x60, 0x2a]);
    assert!(Decoder::new(&mut r).decode_u8().is_err());
    let mut r = reader(&[0x25]);
    assert!(Decoder::new(&mut r).decode_u16().is_err());
    let mut r = reader(&[0x22]);
    assert!(Decoder::new(&mut r).decode_bool().is_err());
    let mut r = reader(&[]);
    assert!(Decoder::new(&mut r).decode_bool().is_err());
    let mut r = reader(&[0x60, 0xff, 0xff, 0xff]);
    assert!(Decoder::new(&mut r).decode_u16().is_err());
    let mut r = reader(&[0x60, 0x80, 0xb0, 0x03]);
    assert!(Decoder::new(&mut r).decode_char().is_err());
}

fn encode_named(out: &mut Vec<u8>) {
    let mut st = Encoder::new(out).encode_struct(2).unwrap();
    {
        let mut pair = st.next().unwrap();
        pair.first().unwrap().encode_string("string").unwrap();
        pair.second().unwrap().encode_string("foo").unwrap();
        pair.end().unwrap();
    }
    {
        let mut pair = st.next().unwrap();
        pair.first().unwrap().encode_string("number").unwrap();
        pair.second().unwrap().encode_u32(42).unwrap();
        pair.end().unwrap();
    }
    st.end().unwrap();
}

#[test]
fn struct_named_fields() {
    let mut out = Vec::new();
    encode_named(&mut out);
    let mut expected = vec![0xc2];
    expected.extend_from_slice(&[0x86]);
    expected.extend_from_slice(b"string");
    expected.extend_from_slice(&[0x83]);
    expected.extend_from_slice(b"foo");
    expected.extend_from_slice(&[0x86]);
    expected.extend_from_slice(b"number");
    expected.extend_from_slice(&[0x60, 42]);
    assert_eq!(out, expected);

    let mut r = reader(&out);
    let mut st = Decoder::new(&mut r).decode_struct(2).unwrap();
    assert_eq!(st.size_hint(), Some(2));
    let mut string = String::new();
    let mut number = 0u32;
    while let Some(mut pair) = st.next().unwrap() {
        let name = pair.first().unwrap().decode_string().unwrap();
        match name {
            "string" => string = pair.second().unwrap().decode_string().unwrap().to_owned(),
            "number" => number = pair.second().unwrap().decode_u32().unwrap(),
            _ => {
                pair.skip_second().unwrap();
            }
        }
    }
    assert_eq!(string, "foo");
    assert_eq!(number, 42);
    assert_eq!(r.pos(), out.len());
}

fn encode_indexed(out: &mut Vec<u8>, third: bool) {
    let mut st = Encoder::new(out).encode_struct(if third { 3 } else { 2 }).unwrap();
    {
        let mut pair = st.next().unwrap();
        pair.first().unwrap().encode_usize(0).unwrap();
        pair.second().unwrap().encode_string("foo").unwrap();
        pair.end().unwrap();
    }
    {
        let mut pair = st.next().unwrap();
        pair.first().unwrap().encode_usize(1).unwrap();
        pair.second().unwrap().encode_u32(42).unwrap();
        pair.end().unwrap();
    }
    if third {
        let mut pair = st.next().unwrap();
        pair.first().unwrap().encode_usize(2).unwrap();
        let mut seq = pair.second().unwrap().encode_sequence(2).unwrap();
        seq.next().unwrap().encode_string("new").unwrap();
        seq.next().unwrap().encode_none().unwrap();
        seq.end().unwrap();
        pair.end().unwrap();
    }
    st.end().unwrap();
}

fn decode_indexed(out: &[u8]) -> (String, u32, usize) {
    let mut r = reader(out);
    let mut st = Decoder::new(&mut r).decode_struct(2).unwrap();
    let mut string = String::new();
    let mut number = 0u32;
    while let Some(mut pair) = st.next().unwrap() {
        let index = pair.first().unwrap().decode_usize().unwrap();
        match index {
            0 => string = pair.second().unwrap().decode_string().unwrap().to_owned(),
            1 => number = pair.second().unwrap().decode_u32().unwrap(),
            _ => {
                assert!(pair.skip_second().unwrap());
            }
        }
    }
    (string, number, r.pos())
}

#[test]
fn struct_indexed_fields() {
    let mut out = Vec::new();
    encode_indexed(&mut out, false);
    assert_eq!(out, vec![0xc2, 0x60, 0, 0x83, b'f', b'o', b'o', 0x60, 1, 0x60, 42]);
    assert_eq!(decode_indexed(&out), (String::from("foo"), 42, out.len()));
}

#[test]
fn forward_compatible_skip() {
    let mut out = Vec::new();
    encode_indexed(&mut out, true);
    assert_eq!(decode_indexed(&out), (String::from("foo"), 42, out.len()));
}

#[test]
fn test_signed_unpacked() {
    let mut out = Vec::new();
    let mut st = Encoder::new(&mut out).encode_struct(4).unwrap();
    {
        let mut pair = st.next().unwrap();
        pair.first().unwrap().encode_usize(0).unwrap();
        pair.second().unwrap().encode_i16(-1).unwrap();
        pair.end().unwrap();
    }
    {
        let mut pair = st.next().unwrap();
        pair.first().unwrap().encode_usize(1).unwrap();
        pair.second().unwrap().encode_i32(1).unwrap();
        pair.end().unwrap();
    }
    {
        let mut pair = st.next().unwrap();
        pair.first().unwrap().encode_usize(2).unwrap();
        pair.second().unwrap().encode_i64(-3).unwrap();
        pair.end().unwrap();
    }
    {
        let mut pair = st.next().unwrap();
        pair.first().unwrap().encode_usize(3).unwrap();
        pair.second().unwrap().encode_i128(3).unwrap();
        pair.end().unwrap();
    }
    st.end().unwrap();
    let c = TypeTag::new(TypeKind::Continuation, 0).byte();
    assert_eq!(
        out,
        vec![
            TypeTag::new(TypeKind::PairSequence, 4).byte(),
            c, 0, c, 1, c, 1, c, 2, c, 2, c, 5, c, 3, c, 6,
        ]
    );
    let mut r = reader(&out);
    let mut st = Decoder::new(&mut r).decode_struct(4).unwrap();
    let mut pair = st.next().unwrap().unwrap();
    assert_eq!(pair.first().unwrap().decode_usize().unwrap(), 0);
    assert_eq!(pair.second().unwrap().decode_i16().unwrap(), -1);
    let mut pair = st.next().unwrap().unwrap();
    assert_eq!(pair.first().unwrap().decode_usize().unwrap(), 1);
    assert_eq!(pair.second().unwrap().decode_i32().unwrap(), 1);
    let mut pair = st.next().unwrap().unwrap();
    assert_eq!(pair.first().unwrap().decode_usize().unwrap(), 2);
    assert_eq!(pair.second().unwrap().decode_i64().unwrap(), -3);
    let mut pair = st.next().unwrap().unwrap();
    assert_eq!(pair.first().unwrap().decode_usize().unwrap(), 3);
    assert_eq!(pair.second().unwrap().decode_i128().unwrap(), 3);
    assert!(st.next().unwrap().is_none());
}

#[test]
fn skip_any_consumes_exactly_one_value() {
    let mut values: Vec<Vec<u8>> = Vec::new();
    let mut v = Vec::new();
    Encoder::new(&mut v).encode_u8(200).unwrap();
    values.push(v);
    let mut v = Vec::new();
    Encoder::new(&mut v).encode_u128(u128::MAX).unwrap();
    values.push(v);
    let mut v = Vec::new();
    Encoder::new(&mut v).encode_string(&"y".repeat(100)).unwrap();
    values.push(v);
    let mut v = Vec::new();
    encode_indexed(&mut v, true);
    values.push(v);
    let mut v = Vec::new();
    Encoder::new(&mut v).encode_unit().unwrap();
    values.push(v);
    let mut v = Vec::new();
    Encoder::new(&mut v).encode_none().unwrap();
    values.push(v);
    let mut v = Vec::new();
    {
        let mut variant = Encoder::new(&mut v).encode_variant().unwrap();
        variant.first().unwrap().encode_string("kind").unwrap();
        variant.second().unwrap().encode_i64(-9).unwrap();
        variant.end().unwrap();
    }
    values.push(v);
    values.push(vec![0x42, 9, 9]);
    values.push(vec![0x5f, 3, 9, 9, 9]);
    for value in values {
        let mut all = value.clone();
        all.extend_from_slice(&[0xaa, 0xbb]);
        let mut r = reader(&all);
        skip_any::<_, Variable>(&mut r).unwrap();
        assert_eq!(r.pos(), value.len());
        let mut r = reader(&all);
        WireDecoder::<_, Variable, Variable>::new(&mut r).decode_unit().unwrap();
        assert_eq!(r.pos(), value.len());
    }
}

#[test]
fn skip_any_fails_on_unknown_kind_and_underflow() {
    let mut r = reader(&[0xe0]);
    assert!(skip_any::<_, Variable>(&mut r).is_err());
    let mut r = reader(&[0xa2, 0x20]);
    assert!(skip_any::<_, Variable>(&mut r).is_err());
    let mut r = reader(&[0x85, 1, 2]);
    assert!(skip_any::<_, Variable>(&mut r).is_err());
    let mut r = reader(&[]);
    assert!(skip_any::<_, Variable>(&mut r).is_err());
}

#[test]
fn wire_variant() {
    let mut out = Vec::new();
    {
        let mut variant = Encoder::new(&mut out).encode_variant().unwrap();
        variant.first().unwrap().encode_usize(1).unwrap();
        variant.second().unwrap().encode_string("payload").unwrap();
        variant.end().unwrap();
    }
    assert_eq!(out[0], 0xc1);
    let mut r = reader(&out);
    let mut variant = Decoder::new(&mut r).decode_variant().unwrap();
    assert_eq!(variant.first().unwrap().decode_usize().unwrap(), 1);
    assert_eq!(variant.second().unwrap().decode_string().unwrap(), "payload");
    let mut r = reader(&out);
    let mut variant = Decoder::new(&mut r).decode_variant().unwrap();
    assert_eq!(variant.first().unwrap().decode_usize().unwrap(), 1);
    assert!(variant.skip_second().unwrap());
    assert_eq!(r.pos(), out.len());
}

#[test]
fn reader_position_is_monotonic() {
    let bytes = [1u8, 2, 3, 4, 5, 6];
    let mut r = reader(&bytes);
    assert_eq!(r.pos(), 0);
    assert_eq!(r.read_byte().unwrap(), 1);
    assert_eq!(r.pos(), 1);
    assert_eq!(r.read_bytes(2).unwrap(), &[2, 3]);
    assert_eq!(r.pos(), 3);
    r.skip(1).unwrap();
    assert_eq!(r.pos(), 4);
    assert!(r.read_bytes(3).is_err());
    assert_eq!(r.pos(), 4);
    assert!(r.skip(3).is_err());
    assert_eq!(r.pos(), 4);
    assert_eq!(r.read_bytes(2).unwrap(), &[5, 6]);
    assert_eq!(r.pos(), 6);
    assert!(r.read_byte().is_err());
    assert_eq!(r.pos(), 6);
}

#[test]
fn limit_enforces_budget() {
    let bytes = [1u8, 2, 3, 4, 5, 6];
    let mut r = limit(reader(&bytes), 3);
    assert_eq!(r.read_byte().unwrap(), 1);
    assert!(r.read_bytes(3).is_err());
    assert_eq!(r.pos(), 1);
    assert!(r.skip(3).is_err());
    assert_eq!(r.pos(), 1);
    assert_eq!(r.read_bytes(2).unwrap(), &[2, 3]);
    assert!(r.read_byte().is_err());
    assert_eq!(r.pos(), 3);
    let mut r = limit(reader(&bytes), 10);
    assert!(r.read_bytes(7).is_err());
    assert_eq!(r.pos(), 0);
}

#[test]
fn slices_are_readers() {
    let bytes = [9u8, 8, 7];
    let mut data = &bytes[..];
    assert_eq!(data.read_byte().unwrap(), 9);
    assert!(data.read_bytes(3).is_err());
    assert_eq!(data, &[8, 7]);
    data.skip(2).unwrap();
    assert!(data.is_empty());
    assert!(data.read_byte().is_err());
}

#[test]
fn errors_keep_their_messages() {
    let e = musli::reader::SliceReaderError::message(Message::BufferUnderflow);
    assert!(format!("{:?}", e).contains("BufferUnderflow"));
    let e = musli::reader::SliceReaderError::custom("something else");
    assert!(format!("{:?}", e).contains("something else"));
    let _ = Cause::Message(Message::OutOfBounds);
}

#[test]
fn wire_fixed_integers_carry_their_width() {
    let mut out = Vec::new();
    WireEncoder::<Vec<u8>, Fixed<BigEndian>, Variable>::new(&mut out)
        .encode_u32(0x0102_0304)
        .unwrap();
    WireEncoder::<Vec<u8>, Fixed<LittleEndian>, Variable>::new(&mut out)
        .encode_i16(-2)
        .unwrap();
    assert_eq!(out, vec![0x44, 1, 2, 3, 4, 0x42, 0xfe, 0xff]);

    let mut r = reader(&out);
    assert_eq!(
        WireDecoder::<_, Fixed<BigEndian>, Variable>::new(&mut r)
            .decode_u32()
            .unwrap(),
        0x0102_0304
    );
    assert_eq!(
        WireDecoder::<_, Fixed<LittleEndian>, Variable>::new(&mut r)
            .decode_i16()
            .unwrap(),
        -2
    );
    assert_eq!(r.pos(), out.len());

    let mut r = reader(&out);
    skip_any::<_, Variable>(&mut r).unwrap();
    assert_eq!(r.pos(), 5);
    skip_any::<_, Variable>(&mut r).unwrap();
    assert_eq!(r.pos(), 8);

    let mut r = reader(&out);
    assert!(WireDecoder::<_, Variable, Variable>::new(&mut r)
        .decode_u32()
        .is_err());
}

fn sample() -> Value {
    Value::Mapping(vec![
        (
            Value::String("list".to_string()),
            Value::Sequence(vec![
                Value::Unsigned(1),
                Value::Signed(-1),
                Value::Bool(true),
                Value::Unit,
                Value::Option(None),
            ]),
        ),
        (Value::Char('a'), Value::Bytes(vec![9, 8, 7])),
        (
            Value::Unsigned(300),
            Value::Variant(Box::new((Value::Unsigned(2), Value::String("x".to_string())))),
        ),
    ])
}

#[test]
fn values_are_written_as_the_encoder_writes_their_parts() {
    let mut out = Vec::new();
    encode_value::<_, Variable, Variable>(&mut out, &sample()).unwrap();

    let mut expected = Vec::new();
    {
        let mut map = Encoder::new(&mut expected).encode_map(3).unwrap();
        {
            let mut pair = map.next().unwrap();
            pair.first().unwrap().encode_string("list").unwrap();
            let mut seq = pair.second().unwrap().encode_sequence(5).unwrap();
            seq.next().unwrap().encode_u128(1).unwrap();
            seq.next().unwrap().encode_i128(-1).unwrap();
            seq.next().unwrap().encode_bool(true).unwrap();
            seq.next().unwrap().encode_unit().unwrap();
            seq.next().unwrap().encode_none().unwrap();
            seq.end().unwrap();
            pair.end().unwrap();
        }
        {
            let mut pair = map.next().unwrap();
            pair.first().unwrap().encode_char('a').unwrap();
            pair.second().unwrap().encode_bytes(&[9, 8, 7]).unwrap();
            pair.end().unwrap();
        }
        {
            let mut pair = map.next().unwrap();
            pair.first().unwrap().encode_u128(300).unwrap();
            let mut variant = pair.second().unwrap().encode_variant().unwrap();
            variant.first().unwrap().encode_u128(2).unwrap();
            variant.second().unwrap().encode_string("x").unwrap();
            variant.end().unwrap();
            pair.end().unwrap();
        }
        map.end().unwrap();
    }
    assert_eq!(out, expected);
    assert_eq!(
        &out[..8],
        &[0xc3, 0x84, b'l', b'i', b's', b't', 0xa5, 0x60]
    );
}

#[test]
fn skip_any_skips_a_whole_value_of_any_kind() {
    let mut out = Vec::new();
    encode_value::<_, Variable, Variable>(&mut out, &sample()).unwrap();
    let len = out.len();
    out.extend_from_slice(&[0x21, 0x22]);
    let mut r = reader(&out);
    skip_any::<_, Variable>(&mut r).unwrap();
    assert_eq!(r.pos(), len);

    // A value that is present is a marker and the value behind it: skipping
    // reads the marker alone.
    let mut out = Vec::new();
    let present = Value::Option(Some(Box::new(Value::Unsigned(5))));
    encode_value::<_, Variable, Variable>(&mut out, &present).unwrap();
    assert_eq!(out, vec![0x01, 0x60, 0x05]);
    let mut r = reader(&out);
    skip_any::<_, Variable>(&mut r).unwrap();
    assert_eq!(r.pos(), 1);
}

#[test]
fn values_that_cannot_be_written_fail() {
    let long = Value::Bytes(vec![0; 300]);
    let mut out = Vec::new();
    let r = encode_value::<_, Variable, FixedLength<u8, BigEndian>>(&mut out, &long);
    assert!(r.is_err());
    assert!(out.is_empty());

    let nested = Value::Sequence(vec![Value::Unsigned(1), long]);
    let mut out = Vec::new();
    let r = encode_value::<_, Variable, FixedLength<u8, BigEndian>>(&mut out, &nested);
    assert!(r.is_err());
    assert_eq!(out, vec![0xa2, 0x60, 0x01]);

    let mut small = musli::writer::FixedBytes::<2>::new();
    let r = encode_value::<_, Variable, Variable>(&mut small, &Value::Bytes(vec![1, 2]));
    assert!(r.is_err());
}

#[test]
fn packs_hold_values_without_tags() {
    let mut out = Vec::new();
    {
        let mut pack = Encoder::new(&mut out).encode_pack().unwrap();
        pack.next().unwrap().encode_u8(7).unwrap();
        pack.next().unwrap().encode_u16(1000).unwrap();
        pack.end().unwrap();
    }
    Encoder::new(&mut out).encode_bool(true).unwrap();
    assert_eq!(out, vec![0x83, 7, 0xe8, 0x07, 0x21]);

    let mut r = reader(&out);
    {
        let mut pack = Decoder::new(&mut r).decode_pack().unwrap();
        assert_eq!(pack.next().unwrap().decode_u8().unwrap(), 7);
        assert_eq!(pack.next().unwrap().decode_u16().unwrap(), 1000);
        // The pack ends where its header says, whatever follows it.
        assert!(pack.next().unwrap().decode_u8().is_err());
        pack.end().unwrap();
    }
    assert_eq!(r.pos(), 4);
    assert_eq!(Decoder::new(&mut r).decode_bool().unwrap(), true);

    // A pack is skipped as the bytes that it is.
    let mut r = reader(&out);
    skip_any::<_, Variable>(&mut r).unwrap();
    assert_eq!(r.pos(), 4);

    let mut r = reader(&[0x01]);
    assert!(Decoder::new(&mut r).decode_pack().is_err());
}

#[test]
fn readers_fill_buffers_and_arrays() {
    let mut r = reader(&[1, 2, 3, 4, 5]);
    let mut buf = [0u8; 2];
    r.read(&mut buf).unwrap();
    assert_eq!(buf, [1, 2]);
    assert_eq!(r.read_array::<2>().unwrap(), [3, 4]);
    assert_eq!(r.pos(), 4);
    let mut big = [9u8; 3];
    assert!(r.read(&mut big).is_err());
    assert_eq!(big, [9, 9, 9]);
    assert!(r.read_array::<2>().is_err());
    assert_eq!(r.pos(), 4);

    let mut limited = limit(reader(&[1, 2, 3]), 2);
    assert_eq!(limited.read_array::<2>().unwrap(), [1, 2]);
    assert_eq!(limited.pos(), 2);
    assert!(limited.read_byte().is_err());
    assert_eq!(limited.pos(), 2);
}

#[test]
fn position_follows_what_is_skipped_and_what_is_refused() {
    let mut r = reader(&[0x60, 0xe8, 0x07, 0xaa]);
    skip_any::<_, Variable>(&mut r).unwrap();
    assert_eq!(r.pos(), 3);

    let mut r = reader(&[0xc1, 0x60, 0x00, 0x83, 0x66, 0x6f, 0x6f, 0xff]);
    skip_any::<_, Variable>(&mut r).unwrap();
    assert_eq!(r.pos(), 7);

    let mut bytes = vec![0x9f, 0x20];
    bytes.extend_from_slice(&[0u8; 32]);
    bytes.push(0x01);
    let mut r = reader(&bytes);
    skip_any::<_, Variable>(&mut r).unwrap();
    assert_eq!(r.pos(), 34);

    // A tag that is refused was read: the reader stands behind it.
    let mut r = reader(&[0x21, 0x00]);
    assert!(Decoder::new(&mut r).decode_option().is_err());
    assert_eq!(r.pos(), 1);
    let mut r = reader(&[0x00]);
    assert!(Decoder::new(&mut r).decode_option().unwrap().is_none());
    assert_eq!(r.pos(), 1);
}
