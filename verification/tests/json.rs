use musli::json::value::encode_value;
use musli::value::Value;
use musli::json::de::{skip_value, JsonDecoder, JsonObjectDecoder, JsonSequenceDecoder};
use musli::json::en::{encode_unsigned, JsonEncoder};
use musli::json::reader::integer::{
    digit, parse_signed, parse_unsigned, skip_number, Error as IntegerError,
};
use musli::json::reader::{ParseErrorKind, Parser, SliceParser, Token};

fn unsigned<T: musli::integer::Unsigned>(text: &str) -> Result<T, ParseErrorKind> {
    let mut p = SliceParser::new(text.as_bytes());
    parse_unsigned::<T, _>(&mut p).map_err(|e| e.kind)
}

fn signed<T: musli::integer::Signed>(text: &str) -> Result<T, ParseErrorKind> {
    let mut p = SliceParser::new(text.as_bytes());
    parse_signed::<T, _>(&mut p).map_err(|e| e.kind)
}

const OVERFLOW: ParseErrorKind = ParseErrorKind::IntegerError(IntegerError::Overflow);
const DECIMAL: ParseErrorKind = ParseErrorKind::IntegerError(IntegerError::Decimal);

#[test]
fn json_number_boundary() {
    assert_eq!(unsigned::<u128>("1000"), Ok(1000u128));
    let mut out = Vec::new();
    encode_unsigned(&mut out, 1000u128).unwrap();
    assert_eq!(out, b"1000");
    let mut out = Vec::new();
    JsonEncoder::new(&mut out).encode_u128(1000).unwrap();
    assert_eq!(out, b"1000");
}

#[test]
fn json_number_overflow() {
    let text = "99999999999999999999999999999999999";
    let mut p = SliceParser::new(text.as_bytes());
    let e = parse_unsigned::<u32, _>(&mut p).unwrap_err();
    assert_eq!(e.kind, OVERFLOW);
    assert_eq!(p.pos() as usize, text.len());
    assert_eq!(e.start, 0);
    assert_eq!(e.end as usize, text.len());
    let text = "99999999999999999999999999999999999, 1";
    let mut p = SliceParser::new(text.as_bytes());
    assert_eq!(parse_unsigned::<u32, _>(&mut p).unwrap_err().kind, OVERFLOW);
    assert_eq!(p.pos(), 35);
}

#[test]
fn json_unsigned_numbers() {
    assert_eq!(unsigned::<u8>("0"), Ok(0));
    assert_eq!(unsigned::<u8>("255"), Ok(255));
    assert_eq!(unsigned::<u8>("256"), Err(OVERFLOW));
    assert_eq!(unsigned::<u8>("260"), Err(OVERFLOW));
    assert_eq!(unsigned::<u16>("65535"), Ok(65535));
    assert_eq!(unsigned::<u64>("18446744073709551615"), Ok(u64::MAX));
    assert_eq!(unsigned::<u64>("18446744073709551616"), Err(OVERFLOW));
    assert_eq!(unsigned::<u128>("340282366920938463463374607431768211455"), Ok(u128::MAX));
    assert_eq!(unsigned::<u128>("340282366920938463463374607431768211456"), Err(OVERFLOW));
    assert_eq!(unsigned::<u32>("-1"), Err(ParseErrorKind::InvalidNumeric));
    assert_eq!(unsigned::<u32>("x"), Err(ParseErrorKind::InvalidNumeric));
    assert_eq!(unsigned::<u32>(""), Err(ParseErrorKind::BufferUnderflow));
}

#[test]
fn json_fractions_and_exponents() {
    assert_eq!(unsigned::<u32>("1e3"), Ok(1000));
    assert_eq!(unsigned::<u32>("1E3"), Ok(1000));
    assert_eq!(unsigned::<u32>("1e+3"), Ok(1000));
    assert_eq!(unsigned::<u32>("1.5e1"), Ok(15));
    assert_eq!(unsigned::<u32>("1.50e1"), Ok(15));
    assert_eq!(unsigned::<u32>("1.05e2"), Ok(105));
    assert_eq!(unsigned::<u32>("1.5e2"), Ok(150));
    assert_eq!(unsigned::<u32>("0.5e1"), Ok(5));
    assert_eq!(unsigned::<u32>("1.5"), Err(DECIMAL));
    assert_eq!(unsigned::<u32>("1.0"), Ok(1));
    assert_eq!(unsigned::<u32>("1.000"), Ok(1));
    assert_eq!(unsigned::<u32>("1.000e2"), Err(DECIMAL));
    assert_eq!(unsigned::<u32>("1.55e1"), Err(DECIMAL));
    assert_eq!(unsigned::<u32>("1000e-3"), Ok(1));
    assert_eq!(unsigned::<u32>("1000e-4"), Err(DECIMAL));
    assert_eq!(unsigned::<u32>("1001e-1"), Err(DECIMAL));
    assert_eq!(unsigned::<u32>("0e-400"), Ok(0));
    assert_eq!(unsigned::<u32>("1.5e-1"), Err(DECIMAL));
    assert_eq!(unsigned::<u32>("1e10"), Err(OVERFLOW));
    assert_eq!(unsigned::<u32>("4294967295e0"), Ok(u32::MAX));
    assert_eq!(unsigned::<u32>("429496729.5e1"), Ok(u32::MAX));
    assert_eq!(unsigned::<u32>("429496729.6e1"), Err(OVERFLOW));
    assert_eq!(unsigned::<u8>("300e-1"), Err(OVERFLOW));
    assert_eq!(unsigned::<u8>("0e100"), Err(OVERFLOW));
    assert_eq!(unsigned::<u32>("1e99999999999"), Err(OVERFLOW));
}

#[test]
fn json_grammar_is_required() {
    assert_eq!(unsigned::<u32>("1."), Err(ParseErrorKind::InvalidNumeric));
    assert_eq!(unsigned::<u32>("1.e1"), Err(ParseErrorKind::InvalidNumeric));
    assert_eq!(unsigned::<u32>("1e"), Err(ParseErrorKind::InvalidNumeric));
    assert_eq!(unsigned::<u32>("1e+"), Err(ParseErrorKind::InvalidNumeric));
    assert_eq!(unsigned::<u32>(".5"), Err(ParseErrorKind::InvalidNumeric));
    let mut p = SliceParser::new(b"0123");
    assert_eq!(parse_unsigned::<u32, _>(&mut p).unwrap(), 0);
    assert_eq!(p.pos(), 1);
}

#[test]
fn json_signed_numbers() {
    assert_eq!(signed::<i8>("-128"), Ok(-128));
    assert_eq!(signed::<i8>("-129"), Err(OVERFLOW));
    assert_eq!(signed::<i8>("127"), Ok(127));
    assert_eq!(signed::<i8>("128"), Err(OVERFLOW));
    assert_eq!(signed::<i32>("-0"), Ok(0));
    assert_eq!(signed::<i32>("-12e1"), Ok(-120));
    assert_eq!(signed::<i64>("-9223372036854775808"), Ok(i64::MIN));
    assert_eq!(signed::<i64>("9223372036854775808"), Err(OVERFLOW));
    assert_eq!(signed::<i128>("-170141183460469231731687303715884105728"), Ok(i128::MIN));
    assert_eq!(signed::<i32>("-"), Err(ParseErrorKind::BufferUnderflow));
    assert_eq!(signed::<i32>("--1"), Err(ParseErrorKind::InvalidNumeric));
}

#[test]
fn json_skip_number() {
    for (text, len) in [("0", 1), ("-0", 2), ("1023", 4), ("-1.5e-10,", 8), ("12]", 2), ("1e5 ", 3)] {
        let mut p = SliceParser::new(text.as_bytes());
        skip_number(&mut p).unwrap();
        assert_eq!(p.pos(), len);
    }
    let mut p = SliceParser::new(b"-x");
    assert_eq!(skip_number(&mut p).unwrap_err().kind, ParseErrorKind::InvalidNumeric);
}

#[test]
fn json_tokens() {
    assert_eq!(Token::from_byte(b'{'), Token::OpenBrace);
    assert_eq!(Token::from_byte(b'}'), Token::CloseBrace);
    assert_eq!(Token::from_byte(b'['), Token::OpenBracket);
    assert_eq!(Token::from_byte(b']'), Token::CloseBracket);
    assert_eq!(Token::from_byte(b','), Token::Comma);
    assert_eq!(Token::from_byte(b':'), Token::Colon);
    assert_eq!(Token::from_byte(b'"'), Token::String);
    assert_eq!(Token::from_byte(b'-'), Token::Number);
    assert_eq!(Token::from_byte(b'7'), Token::Number);
    assert_eq!(Token::from_byte(b'n'), Token::Null);
    assert_eq!(Token::from_byte(b't'), Token::True);
    assert_eq!(Token::from_byte(b'f'), Token::False);
    assert_eq!(Token::from_byte(b'x'), Token::Error);
    assert!(Token::String.is_value() && Token::Number.is_value() && Token::OpenBrace.is_value());
    assert!(!Token::Comma.is_value() && !Token::Eof.is_value());
}

fn decoder_on<'a, 'de>(
    scratch: &'a mut Vec<u8>,
    parser: &'a mut SliceParser<'de>,
) -> JsonDecoder<'a, SliceParser<'de>> {
    JsonDecoder::new(scratch, parser)
}

#[test]
fn json_scalars() {
    let text = br#"  true false null 17 -4 "a\n\"b\"\u00e9\ud83d\ude00\/" "#;
    let mut scratch = Vec::new();
    let mut p = SliceParser::new(text);
    assert_eq!(decoder_on(&mut scratch, &mut p).decode_bool().unwrap(), true);
    assert_eq!(decoder_on(&mut scratch, &mut p).decode_bool().unwrap(), false);
    assert!(decoder_on(&mut scratch, &mut p).decode_option().unwrap().is_none());
    assert_eq!(decoder_on(&mut scratch, &mut p).decode_u8().unwrap(), 17);
    assert_eq!(decoder_on(&mut scratch, &mut p).decode_i64().unwrap(), -4);
    assert_eq!(
        decoder_on(&mut scratch, &mut p).decode_owned_string().unwrap(),
        "a\n\"b\"\u{e9}\u{1f600}/"
    );
    let mut p = SliceParser::new(b"tru");
    assert!(decoder_on(&mut scratch, &mut p).decode_bool().is_err());
    let mut p = SliceParser::new(b"1");
    assert_eq!(
        decoder_on(&mut scratch, &mut p).decode_bool().unwrap_err().kind,
        ParseErrorKind::ExpectedBool(Token::Number)
    );
    let mut p = SliceParser::new(b"1");
    assert_eq!(
        decoder_on(&mut scratch, &mut p).decode_owned_string().unwrap_err().kind,
        ParseErrorKind::ExpectedString(Token::Number)
    );
}

#[test]
fn json_string_failures() {
    let mut scratch = Vec::new();
    for (text, kind) in [
        (&b"\"abc"[..], ParseErrorKind::BufferUnderflow),
        (&b"\"a\x01b\""[..], ParseErrorKind::ControlCharacterInString),
        (&b"\"\\x\""[..], ParseErrorKind::InvalidEscape),
        (&b"\"\\u12g4\""[..], ParseErrorKind::InvalidEscape),
        (&b"\"\\udc00\""[..], ParseErrorKind::InvalidUnicode),
        (&b"\"\\ud800x\""[..], ParseErrorKind::BufferUnderflow),
        (&b"\"\\ud800\\u0041\""[..], ParseErrorKind::InvalidUnicode),
        (&b"\"\xff\""[..], ParseErrorKind::InvalidUtf8),
    ] {
        let mut p = SliceParser::new(text);
        assert_eq!(decoder_on(&mut scratch, &mut p).decode_owned_string().unwrap_err().kind, kind);
    }
}

#[test]
fn json_sequence() {
    let text = b" [1, 2 ,3] ";
    let mut scratch = Vec::new();
    let mut p = SliceParser::new(text);
    let mut seq = JsonSequenceDecoder::new(&mut scratch, None, &mut p).unwrap();
    let mut sum = 0u32;
    while let Some(item) = seq.next().unwrap() {
        sum += item.decode_u32().unwrap();
    }
    assert_eq!(sum, 6);
    assert_eq!(p.pos(), 10);
    let mut p = SliceParser::new(b"[,1]");
    let mut seq = JsonSequenceDecoder::new(&mut scratch, None, &mut p).unwrap();
    assert!(seq.next().is_err());
    let mut p = SliceParser::new(b"{}");
    assert!(JsonSequenceDecoder::new(&mut scratch, None, &mut p).is_err());
    let mut p = SliceParser::new(b"[]");
    let mut seq = JsonSequenceDecoder::new(&mut scratch, Some(2), &mut p).unwrap();
    assert_eq!(seq.size_hint(), Some(2));
    assert_eq!(seq.next_packed().err().unwrap().kind, ParseErrorKind::ShortArray);
}

#[test]
fn json_integer_key() {
    let mut out = Vec::new();
    {
        let mut map = JsonEncoder::new(&mut out).encode_map(1).unwrap();
        let mut pair = map.next().unwrap();
        pair.first().unwrap().encode_u64(7).unwrap();
        pair.second().unwrap().encode_string("seven").unwrap();
        pair.end().unwrap();
        map.end().unwrap();
    }
    assert_eq!(out, br#"{"7":"seven"}"#);
    let mut scratch = Vec::new();
    let mut p = SliceParser::new(&out);
    let mut map = JsonObjectDecoder::new(&mut scratch, None, &mut p).unwrap();
    let mut pair = map.next().unwrap().unwrap();
    assert_eq!(pair.first().unwrap().decode_u64().unwrap(), 7u64);
    assert_eq!(pair.second().unwrap().decode_owned_string().unwrap(), "seven");
    assert!(map.next().unwrap().is_none());
    assert_eq!(p.pos() as usize, out.len());
}

#[test]
fn json_object_with_skipped_field() {
    let text = br#"{"a": 1, "later": {"x": [1, 2, {"y": null}], "z": "q\"}"}, "b": -2}"#;
    let mut scratch = Vec::new();
    let mut p = SliceParser::new(text);
    let mut map = JsonDecoder::new(&mut scratch, &mut p).decode_struct(2).unwrap();
    let mut a = 0u8;
    let mut b = 0i8;
    while let Some(mut pair) = map.next().unwrap() {
        let key = pair.first().unwrap().decode_owned_string().unwrap();
        match key.as_str() {
            "a" => a = pair.second().unwrap().decode_u8().unwrap(),
            "b" => b = pair.second().unwrap().decode_i8().unwrap(),
            _ => {
                assert!(pair.skip_second().unwrap());
            }
        }
    }
    assert_eq!((a, b), (1, -2));
    assert_eq!(p.pos() as usize, text.len());
}

#[test]
fn json_skip_value() {
    let mut scratch = Vec::new();
    for text in [
        &br#"{"a": [1, 2.5e3, "x", true, false, null, {}], "b": {"c": []}}"#[..],
        &b"[]"[..],
        &b"  -12.5e-3"[..],
        &br#""a\u0041b""#[..],
        &b"null"[..],
    ] {
        let mut all = text.to_vec();
        all.extend_from_slice(b" ,rest");
        let mut p = SliceParser::new(&all);
        skip_value(&mut p, &mut scratch).unwrap();
        assert_eq!(p.pos() as usize, text.len());
    }
    for text in [&b"[1 2"[..], &b"{\"a\" 1}"[..], &b"{1: 2}"[..], &b"nul"[..], &b"]"[..], &b""[..]] {
        let mut p = SliceParser::new(text);
        assert!(skip_value(&mut p, &mut scratch).is_err());
    }
}

#[test]
fn json_emits_text() {
    let mut out = Vec::new();
    {
        let mut st = JsonEncoder::new(&mut out).encode_struct(3).unwrap();
        {
            let mut pair = st.next().unwrap();
            pair.first().unwrap().encode_string("name").unwrap();
            pair.second().unwrap().encode_string("a\"b\\c/d\n\u{1}é").unwrap();
            pair.end().unwrap();
        }
        {
            let mut pair = st.next().unwrap();
            pair.first().unwrap().encode_string("values").unwrap();
            let mut seq = pair.second().unwrap().encode_sequence(3).unwrap();
            seq.next().unwrap().encode_i32(-5).unwrap();
            seq.next().unwrap().encode_bool(true).unwrap();
            seq.next().unwrap().encode_none().unwrap();
            seq.end().unwrap();
            pair.end().unwrap();
        }
        {
            let mut pair = st.next().unwrap();
            pair.first().unwrap().encode_i8(-3).unwrap();
            pair.second().unwrap().encode_bytes(&[0, 10, 255]).unwrap();
            pair.end().unwrap();
        }
        st.end().unwrap();
    }
    assert_eq!(
        String::from_utf8(out.clone()).unwrap(),
        "{\"name\":\"a\\\"b\\\\c\\/d\\n\\u0001é\",\"values\":[-5,true,null],\"-3\":[0,10,255]}"
    );
    let mut scratch = Vec::new();
    let mut p = SliceParser::new(&out);
    let mut map = JsonDecoder::new(&mut scratch, &mut p).decode_map().unwrap();
    let mut pair = map.next().unwrap().unwrap();
    assert_eq!(pair.first().unwrap().decode_owned_string().unwrap(), "name");
    assert_eq!(pair.second().unwrap().decode_owned_string().unwrap(), "a\"b\\c/d\n\u{1}é");
}

#[test]
fn json_numbers_round_trip() {
    for value in [0u64, 1, 9, 10, 99, 100, 12345, u64::MAX] {
        let mut out = Vec::new();
        JsonEncoder::new(&mut out).encode_u64(value).unwrap();
        assert_eq!(String::from_utf8(out.clone()).unwrap(), value.to_string());
        assert_eq!(unsigned::<u64>(std::str::from_utf8(&out).unwrap()), Ok(value));
    }
    for value in [0i64, -1, 1, i64::MIN, i64::MAX, -1000] {
        let mut out = Vec::new();
        JsonEncoder::new(&mut out).encode_i64(value).unwrap();
        assert_eq!(String::from_utf8(out.clone()).unwrap(), value.to_string());
        assert_eq!(signed::<i64>(std::str::from_utf8(&out).unwrap()), Ok(value));
    }
}

#[test]
fn values_are_written_as_json_texts() {
    let value = Value::Mapping(vec![
        (
            Value::String("list".to_string()),
            Value::Sequence(vec![
                Value::Unsigned(1),
                Value::Signed(-1),
                Value::Bool(true),
                Value::Unit,
                Value::Option(None),
                Value::Option(Some(Box::new(Value::Bool(false)))),
            ]),
        ),
        (Value::Unsigned(7), Value::Bytes(vec![9, 8, 7])),
        (Value::Signed(-7), Value::Char('"')),
        (Value::String("e".to_string()), Value::Sequence(vec![])),
        (Value::String("o".to_string()), Value::Mapping(vec![])),
    ]);
    let mut out = Vec::new();
    encode_value(&mut out, &value).unwrap();
    assert_eq!(
        String::from_utf8(out.clone()).unwrap(),
        "{\"list\":[1,-1,true,null,null,false],\"7\":[9,8,7],\"-7\":\"\\\"\",\"e\":[],\"o\":{}}"
    );

    // What was written is one JSON value, which is skipped as a whole.
    let mut scratch = Vec::new();
    let mut parser = SliceParser::new(&out);
    JsonDecoder::new(&mut scratch, &mut parser).skip_any().unwrap();
    assert_eq!(parser.pos() as usize, out.len());
}

#[test]
fn values_that_json_cannot_hold_are_refused() {
    let variant = Value::Variant(Box::new((Value::Unsigned(0), Value::Unit)));
    let mut out = Vec::new();
    assert!(encode_value(&mut out, &variant).is_err());
    assert!(out.is_empty());

    let nested = Value::Sequence(vec![Value::Unsigned(1), variant]);
    assert!(encode_value(&mut out, &nested).is_err());
    assert!(out.is_empty());

    let key = Value::Mapping(vec![(Value::Bool(true), Value::Unit)]);
    assert!(encode_value(&mut out, &key).is_err());
    assert!(out.is_empty());

    let mut small = musli::writer::FixedBytes::<3>::new();
    assert!(encode_value(&mut small, &Value::Unit).is_err());
    assert_eq!(small.len(), 0);
}

#[test]
fn digit_is_written_behind_the_number_or_overflows() {
    let mut p = SliceParser::new(b"6");
    let e = digit::<u8, _>(25, &mut p, 0).unwrap_err();
    assert_eq!(e.kind, OVERFLOW);
    assert_eq!((e.start, e.end), (0, 1));
    assert_eq!(p.pos(), 1);

    let mut p = SliceParser::new(b"5");
    assert_eq!(digit::<u8, _>(25, &mut p, 0), Ok(255));
    assert_eq!(p.pos(), 1);

    let mut p = SliceParser::new(b"0");
    let e = digit::<u8, _>(26, &mut p, 7).unwrap_err();
    assert_eq!(e.kind, OVERFLOW);
    assert_eq!(e.start, 7);

    let mut p = SliceParser::new(b"");
    let e = digit::<u8, _>(1, &mut p, 0).unwrap_err();
    assert_eq!(e.kind, ParseErrorKind::BufferUnderflow);
    assert_eq!(p.pos(), 0);
}

#[test]
fn commas_stand_between_values_and_nowhere_else() {
    fn skipped(text: &str) -> Result<(), ParseErrorKind> {
        let mut scratch = Vec::new();
        let mut p = SliceParser::new(text.as_bytes());
        JsonDecoder::new(&mut scratch, &mut p)
            .skip_any()
            .map_err(|e| e.kind)
    }
    assert_eq!(skipped("[1, 2 , 3]"), Ok(()));
    assert_eq!(skipped("{\"a\": 1, \"b\": [ ]}"), Ok(()));
    assert_eq!(
        skipped("[1,,2]"),
        Err(ParseErrorKind::ExpectedValue(Token::Comma))
    );
    assert_eq!(
        skipped("[1,]"),
        Err(ParseErrorKind::ExpectedValue(Token::CloseBracket))
    );
    assert_eq!(
        skipped("[,1]"),
        Err(ParseErrorKind::ExpectedCloseBracket(Token::Comma))
    );
    assert_eq!(
        skipped("[1 2]"),
        Err(ParseErrorKind::ExpectedCloseBracket(Token::Number))
    );
    assert_eq!(
        skipped("{\"a\":1,}"),
        Err(ParseErrorKind::ExpectedString(Token::CloseBrace))
    );
    assert_eq!(
        skipped("{\"a\":1,,\"b\":2}"),
        Err(ParseErrorKind::ExpectedString(Token::Comma))
    );
    assert_eq!(
        skipped("{\"a\":1 \"b\":2}"),
        Err(ParseErrorKind::ExpectedCloseBrace(Token::String))
    );
}
