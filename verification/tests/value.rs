use musli::error::{Cause, Error, Expecting, Message};
use musli::value::de::ValueDecoder;
use musli::value::en::ValueEncoder;
use musli::value::Value;

#[test]
fn value_scalars_round_trip() {
    let mut slot = Value::Unit;
    ValueEncoder::new(&mut slot).encode_bool(true).unwrap();
    assert_eq!(slot, Value::Bool(true));
    assert_eq!(ValueDecoder::new(&slot).decode_bool().unwrap(), true);

    ValueEncoder::new(&mut slot).encode_char('ß').unwrap();
    assert_eq!(slot, Value::Char('ß'));
    assert_eq!(ValueDecoder::new(&slot).decode_char().unwrap(), 'ß');

    ValueEncoder::new(&mut slot).encode_u64(u64::MAX).unwrap();
    assert_eq!(slot, Value::Unsigned(u64::MAX as u128));
    assert_eq!(ValueDecoder::new(&slot).decode_u64().unwrap(), u64::MAX);

    ValueEncoder::new(&mut slot).encode_i32(i32::MIN).unwrap();
    assert_eq!(slot, Value::Signed(i32::MIN as i128));
    assert_eq!(ValueDecoder::new(&slot).decode_i32().unwrap(), i32::MIN);

    ValueEncoder::new(&mut slot).encode_string("grüß").unwrap();
    assert_eq!(slot, Value::String("grüß".to_string()));
    assert_eq!(ValueDecoder::new(&slot).decode_string().unwrap(), "grüß");

    ValueEncoder::new(&mut slot).encode_bytes(&[1, 2, 3]).unwrap();
    assert_eq!(slot, Value::Bytes(vec![1, 2, 3]));
    assert_eq!(ValueDecoder::new(&slot).decode_bytes().unwrap(), &[1, 2, 3]);
    assert_eq!(ValueDecoder::new(&slot).decode_array::<3>().unwrap(), [1, 2, 3]);

    ValueEncoder::new(&mut slot).encode_unit().unwrap();
    assert_eq!(slot, Value::Unit);
    ValueDecoder::new(&slot).decode_unit().unwrap();
}

#[test]
fn value_numbers_are_held_to_the_range_of_the_type() {
    let small = Value::Unsigned(255);
    assert_eq!(ValueDecoder::new(&small).decode_u8().unwrap(), 255);
    assert_eq!(ValueDecoder::new(&small).decode_i16().unwrap(), 255);
    let e = ValueDecoder::new(&small).decode_i8().err().unwrap();
    assert_eq!(e.kind(), Some(Message::IntegerOverflow));

    let negative = Value::Signed(-1);
    assert_eq!(ValueDecoder::new(&negative).decode_i8().unwrap(), -1);
    let e = ValueDecoder::new(&negative).decode_u128().err().unwrap();
    assert_eq!(e.kind(), Some(Message::IntegerOverflow));

    let text = Value::String("1".to_string());
    let e = ValueDecoder::new(&text).decode_u32().err().unwrap();
    assert_eq!(
        e.kind(),
        Some(Message::Mismatch {
            expected: Expecting::Unsigned32
        })
    );
    let e = <musli::value::ValueError as Error>::custom("something else");
    assert_eq!(e.kind(), None);
    let _ = Cause::Message(Message::OutOfBounds);
}

#[test]
fn value_option_sequence_map_and_variant() {
    let mut slot = Value::Unit;
    ValueEncoder::new(&mut slot).encode_none().unwrap();
    assert_eq!(slot, Value::Option(None));
    assert!(ValueDecoder::new(&slot).decode_option().unwrap().is_none());

    ValueEncoder::new(&mut slot)
        .encode_some()
        .unwrap()
        .encode_u8(5)
        .unwrap();
    assert_eq!(slot, Value::Option(Some(Box::new(Value::Unsigned(5)))));
    let inner = ValueDecoder::new(&slot).decode_option().unwrap().unwrap();
    assert_eq!(inner.decode_u8().unwrap(), 5);

    {
        let mut seq = ValueEncoder::new(&mut slot).encode_sequence(2).unwrap();
        seq.next().unwrap().encode_u8(1).unwrap();
        seq.next().unwrap().encode_string("two").unwrap();
        seq.end().unwrap();
    }
    assert_eq!(
        slot,
        Value::Sequence(vec![Value::Unsigned(1), Value::String("two".to_string())])
    );
    let mut items = ValueDecoder::new(&slot).decode_sequence().unwrap();
    assert_eq!(items.size_hint(), 2);
    assert_eq!(items.next().unwrap().unwrap().decode_u8().unwrap(), 1);
    assert_eq!(items.next().unwrap().unwrap().decode_string().unwrap(), "two");
    assert!(items.next().unwrap().is_none());

    {
        let mut pairs = ValueEncoder::new(&mut slot).encode_struct(1).unwrap();
        let mut pair = pairs.next().unwrap();
        pair.first().unwrap().encode_string("number").unwrap();
        pair.second().unwrap().encode_u32(42).unwrap();
        pair.end().unwrap();
        pairs.end().unwrap();
    }
    assert_eq!(
        slot,
        Value::Mapping(vec![(
            Value::String("number".to_string()),
            Value::Unsigned(42)
        )])
    );
    let mut pairs = ValueDecoder::new(&slot).decode_struct(1).unwrap();
    let mut pair = pairs.next().unwrap().unwrap();
    assert_eq!(pair.first().unwrap().decode_string().unwrap(), "number");
    assert_eq!(pair.second().unwrap().decode_u32().unwrap(), 42);
    assert!(pairs.next().unwrap().is_none());

    {
        let mut variant = ValueEncoder::new(&mut slot).encode_variant().unwrap();
        variant.first().unwrap().encode_usize(3).unwrap();
        variant.second().unwrap().encode_bool(false).unwrap();
        variant.end().unwrap();
    }
    assert_eq!(
        slot,
        Value::Variant(Box::new((Value::Unsigned(3), Value::Bool(false))))
    );
    let mut variant = ValueDecoder::new(&slot).decode_variant().unwrap();
    assert_eq!(variant.first().unwrap().decode_usize().unwrap(), 3);
    assert_eq!(variant.second().unwrap().decode_bool().unwrap(), false);
}

#[test]
fn value_of_another_kind_is_refused() {
    let slot = Value::Bool(true);
    assert!(ValueDecoder::new(&slot).decode_unit().is_err());
    assert!(ValueDecoder::new(&slot).decode_char().is_err());
    assert!(ValueDecoder::new(&slot).decode_string().is_err());
    assert!(ValueDecoder::new(&slot).decode_bytes().is_err());
    assert!(ValueDecoder::new(&slot).decode_option().is_err());
    assert!(ValueDecoder::new(&slot).decode_sequence().is_err());
    assert!(ValueDecoder::new(&slot).decode_map().is_err());
    assert!(ValueDecoder::new(&slot).decode_variant().is_err());
    let bytes = Value::Bytes(vec![1, 2]);
    assert!(ValueDecoder::new(&bytes).decode_array::<3>().is_err());
}
