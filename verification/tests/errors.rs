use musli::encoding::{FixedLength, Variable};
use musli::error::Message;
use musli::integer::byteorder::BigEndian;
use musli::json::de::JsonDecoder;
use musli::json::reader::integer::Error as IntegerError;
use musli::json::reader::{ParseError, ParseErrorKind, SliceParser, Token};
use musli::reader::{limit, with_position, Reader, SliceReader, SliceReaderError, WithPosition};
use musli::storage::de::StorageDecoder;
use musli::storage::en::StorageEncoder;
use musli::wire::de::{skip_any, MaybeWireDecoder, WireDecoder};
use musli::wire::en::WireEncoder;
use musli::wire::types::{TypeKind, TypeTag};
use musli::writer::{FixedBytes, Writer};

type Wire<'a, 'de> = WireDecoder<'a, WithPosition<SliceReader<'de>>, Variable, Variable>;
type Storage<'a, 'de> = StorageDecoder<'a, &'de [u8], Variable, Variable>;

fn wire<T>(bytes: &[u8], f: impl FnOnce(Wire) -> Result<T, SliceReaderError>) -> Option<Message> {
    let mut r = with_position(SliceReader::new(bytes));
    f(WireDecoder::new(&mut r)).err().and_then(|e| e.kind())
}

fn storage<T>(
    bytes: &[u8],
    f: impl FnOnce(Storage) -> Result<T, SliceReaderError>,
) -> Option<Message> {
    let mut r = bytes;
    f(StorageDecoder::new(&mut r)).err().and_then(|e| e.kind())
}

fn json<T>(
    text: &str,
    f: impl FnOnce(JsonDecoder<SliceParser>) -> Result<T, ParseError>,
) -> Option<ParseErrorKind> {
    let mut scratch = Vec::new();
    let mut parser = SliceParser::new(text.as_bytes());
    f(JsonDecoder::new(&mut scratch, &mut parser))
        .err()
        .map(|e| e.kind)
}

#[test]
fn every_failure_of_the_binary_formats_is_reported() {
    let mut empty: &[u8] = &[];
    assert_eq!(
        empty.read_byte().err().unwrap().kind(),
        Some(Message::BufferUnderflow)
    );

    let mut limited = limit(SliceReader::new(&[1, 2, 3]), 1);
    assert_eq!(
        limited.read_bytes(2).err().unwrap().kind(),
        Some(Message::OutOfBounds)
    );

    let mut small = FixedBytes::<1>::new();
    assert_eq!(
        small.write_bytes(&[1, 2]).err().unwrap().kind(),
        Some(Message::BufferOverflow)
    );

    assert_eq!(
        storage(&[0xff, 0xff, 0x07], |d| d.decode_u16()),
        Some(Message::IntegerOverflow)
    );

    let mut out = Vec::new();
    let e = StorageEncoder::<_, Variable, FixedLength<u8, BigEndian>>::new(&mut out)
        .encode_bytes(&[0; 300])
        .err()
        .unwrap();
    assert_eq!(e.kind(), Some(Message::LengthOverflow));

    assert_eq!(
        storage(&[1, 0xff], |d| d.decode_string().map(|_| ())),
        Some(Message::InvalidUtf8)
    );
    assert_eq!(
        wire(&[0x81, 0xff], |d| d.decode_string().map(|_| ())),
        Some(Message::InvalidUtf8)
    );

    let mut r = with_position(SliceReader::new(&[0x21]));
    let maybe = MaybeWireDecoder::<_, Variable, Variable> {
        empty: true,
        decoder: WireDecoder::new(&mut r),
    };
    assert_eq!(
        maybe.decode_u8().err().unwrap().kind(),
        Some(Message::EmptyValue)
    );

    assert_eq!(
        wire(&[0x60, 1], |d| d.decode_string().map(|_| ())),
        Some(Message::Expected {
            expected: TypeKind::Prefixed,
            actual: TypeTag::from_byte(0x60),
            pos: 0
        })
    );
    assert_eq!(
        wire(&[0x22], |d| d.decode_bool()),
        Some(Message::BadBoolean {
            actual: TypeTag::from_byte(0x22),
            pos: 0
        })
    );

    let mut out = Vec::new();
    WireEncoder::<_, Variable, Variable>::new(&mut out)
        .encode_u32(0xd800)
        .unwrap();
    assert_eq!(
        wire(&out, |d| d.decode_char()),
        Some(Message::BadCharacter(0xd800))
    );

    assert_eq!(
        wire(&[0x21], |d| d.decode_option().map(|_| ())),
        Some(Message::ExpectedOption {
            tag: TypeTag::from_byte(0x21),
            pos: 0
        })
    );
    assert_eq!(
        wire(&[0x82, 1, 2], |d| d.decode_array::<3>()),
        Some(Message::BadLength {
            actual_len: 2,
            expected_len: 3,
            pos: 0
        })
    );

    let mut r = with_position(SliceReader::new(&[0xe0]));
    assert_eq!(
        skip_any::<_, Variable>(&mut r).err().unwrap().kind(),
        Some(Message::UnknownKind {
            tag: TypeTag::from_byte(0xe0)
        })
    );

    assert_eq!(
        storage(&[2], |d| d.decode_option().map(|_| ())),
        Some(Message::BadOptionByte(2))
    );
    assert_eq!(
        storage(&[2], |d| d.decode_bool()),
        Some(Message::BadBooleanByte(2))
    );
}

#[test]
fn every_failure_of_the_json_parser_is_reported() {
    let mut wrong: Vec<String> = Vec::new();
    let mut expect = |name: &str, got: Option<ParseErrorKind>, want: ParseErrorKind| {
        if got != Some(want) {
            wrong.push(format!("{}: {:?} in place of {:?}", name, got, want));
        }
    };
    expect(
        "underflow",
        json("tr", |d| d.decode_bool()),
        ParseErrorKind::BufferUnderflow,
    );
    expect(
        "numeric",
        json("-x", |d| d.decode_i8()),
        ParseErrorKind::InvalidNumeric,
    );
    expect(
        "overflow",
        json("256", |d| d.decode_u8()),
        ParseErrorKind::IntegerError(IntegerError::Overflow),
    );
    expect(
        "decimal",
        json("1.5", |d| d.decode_u8()),
        ParseErrorKind::IntegerError(IntegerError::Decimal),
    );
    expect(
        "value",
        json("}", |d| d.skip_any()),
        ParseErrorKind::ExpectedValue(Token::CloseBrace),
    );
    expect(
        "true",
        json("trux", |d| d.skip_any()),
        ParseErrorKind::ExpectedTrue,
    );
    expect(
        "false",
        json("falze", |d| d.skip_any()),
        ParseErrorKind::ExpectedFalse,
    );
    expect(
        "null",
        json("nulx", |d| d.decode_unit()),
        ParseErrorKind::ExpectedNull,
    );
    expect(
        "bool",
        json("1", |d| d.decode_bool()),
        ParseErrorKind::ExpectedBool(Token::Number),
    );
    expect(
        "brace",
        json("[", |d| d.decode_map().map(|_| ())),
        ParseErrorKind::ExpectedOpenBrace(Token::OpenBracket),
    );
    expect(
        "bracket",
        json("{", |d| d.decode_sequence().map(|_| ())),
        ParseErrorKind::ExpectedOpenBracket(Token::OpenBrace),
    );
    expect(
        "string",
        json("1", |d| d.decode_owned_string().map(|_| ())),
        ParseErrorKind::ExpectedString(Token::Number),
    );
    expect(
        "colon",
        json("{\"a\" 1}", |d| d.skip_any()),
        ParseErrorKind::ExpectedColon(Token::Number),
    );
    expect(
        "close brace",
        json("{1}", |d| d.skip_any()),
        ParseErrorKind::ExpectedCloseBrace(Token::Number),
    );
    expect(
        "close bracket",
        json("[1 }", |d| d.skip_any()),
        ParseErrorKind::ExpectedCloseBracket(Token::CloseBrace),
    );
    expect(
        "short",
        json("[1]", |d| {
            let mut tuple = d.decode_tuple(2)?;
            tuple.next_packed()?.decode_u8()?;
            tuple.next_packed().map(|_| ())
        }),
        ParseErrorKind::ShortArray,
    );
    expect(
        "control",
        json("\"a\u{1}\"", |d| d.decode_owned_string().map(|_| ())),
        ParseErrorKind::ControlCharacterInString,
    );
    expect(
        "escape",
        json("\"\\x\"", |d| d.decode_owned_string().map(|_| ())),
        ParseErrorKind::InvalidEscape,
    );
    expect(
        "unicode",
        json("\"\\udc00\"", |d| d.decode_owned_string().map(|_| ())),
        ParseErrorKind::InvalidUnicode,
    );
    let mut scratch = Vec::new();
    let mut parser = SliceParser::new(&[b'"', 0xff, b'"']);
    expect(
        "utf8",
        JsonDecoder::new(&mut scratch, &mut parser)
            .decode_owned_string()
            .err()
            .map(|e| e.kind),
        ParseErrorKind::InvalidUtf8,
    );
    assert!(wrong.is_empty(), "{:#?}", wrong);
}
