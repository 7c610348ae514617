use musli::de::{Decode, Decoder, ValueVisitor};
use musli::en::{Encode, Encoder};
use musli::error::Error;
use musli::json::protocol::JsonError;
use musli::mode::DefaultMode;
use musli::json::reader::ParseErrorKind;
use musli::never::Never;
use musli::reader::SliceReaderError;
use musli::storage::encoding::StorageEncoding;
use musli::value::Value;
use musli::wire::encoding::WireEncoding;
use musli::writer::VecWriterError;

/// A type of the caller: a number of kilometres, encoded as the number.
#[derive(Debug, PartialEq)]
struct Kilometres(u32);

impl Encode for Kilometres {
    fn encode<E: Encoder>(&self, encoder: E) -> Result<E::Ok, E::Error> {
        encoder.encode_u32(self.0)
    }
}

impl<'de> Decode<'de> for Kilometres {
    fn decode<D: Decoder<'de>>(decoder: D) -> Result<Self, D::Error> {
        Ok(Kilometres(decoder.decode_u32()?))
    }
}

/// A visitor that tells whether the string it visits was borrowed from the
/// source.
struct Borrowed;

impl<'de> ValueVisitor<'de> for Borrowed {
    type Target = str;
    type Ok = (bool, String);

    fn visit_ref<E: Error>(self, value: &str) -> Result<Self::Ok, E> {
        Ok((false, value.to_string()))
    }

    fn visit_borrowed<E: Error>(self, value: &'de str) -> Result<Self::Ok, E> {
        Ok((true, value.to_string()))
    }
}

struct Text(bool, String);

impl<'de> Decode<'de> for Text {
    fn decode<D: Decoder<'de>>(decoder: D) -> Result<Self, D::Error> {
        let (borrowed, text) = decoder.decode_string(Borrowed)?;
        Ok(Text(borrowed, text))
    }
}

#[test]
fn facade_round_trips_in_every_format() {
    let value = Kilometres(1000);

    let bytes = musli::storage::encoding::to_vec(&value).unwrap();
    assert_eq!(bytes, vec![0xe8, 0x07]);
    let back: Kilometres = musli::storage::encoding::from_slice(&bytes).unwrap();
    assert_eq!(back, value);

    let bytes = musli::wire::encoding::to_vec(&value).unwrap();
    assert_eq!(bytes, vec![0x60, 0xe8, 0x07]);
    let back: Kilometres = musli::wire::encoding::from_slice(&bytes).unwrap();
    assert_eq!(back, value);

    let bytes = musli::json::encoding::to_vec(&value).unwrap();
    assert_eq!(bytes, b"1000".to_vec());
    let back: Kilometres = musli::json::encoding::from_slice(&bytes).unwrap();
    assert_eq!(back, value);

    let tree = musli::value::encode(&value).unwrap();
    assert_eq!(tree, Value::Unsigned(1000));
    let back: Kilometres = musli::value::decode(&tree).unwrap();
    assert_eq!(back, value);
}

#[test]
fn facade_crosses_formats_through_the_value() {
    let bytes = musli::wire::encoding::to_vec(&Kilometres(77)).unwrap();
    let from_wire: Kilometres = musli::wire::encoding::from_slice(&bytes).unwrap();
    let tree = musli::value::encode(&from_wire).unwrap();
    let from_tree: Kilometres = musli::value::decode(&tree).unwrap();
    assert_eq!(from_tree, from_wire);
    let text = musli::json::encoding::to_vec(&from_tree).unwrap();
    assert_eq!(text, b"77".to_vec());
    let from_json: Kilometres = musli::json::encoding::from_slice(&text).unwrap();
    assert_eq!(from_json, from_wire);
}

#[test]
fn facade_configuration_selects_the_encoding() {
    let value = Kilometres(0x0102_0304);
    let be = StorageEncoding::new().with_fixed_integers().to_vec(&value).unwrap();
    assert_eq!(be, vec![1, 2, 3, 4]);
    let ne = StorageEncoding::new().with_fixed_integers_ne().to_vec(&value).unwrap();
    assert_eq!(ne, be);
    let le = StorageEncoding::new().with_fixed_integers_le().to_vec(&value).unwrap();
    assert_eq!(le, vec![4, 3, 2, 1]);
    let back: Kilometres = StorageEncoding::new()
        .with_fixed_integers_le()
        .from_slice(&le)
        .unwrap();
    assert_eq!(back, value);
    let var = StorageEncoding::new()
        .with_fixed_integers_be()
        .with_variable_integers()
        .to_vec(&Kilometres(1))
        .unwrap();
    assert_eq!(var, vec![1]);

    let text = "ab".to_string();
    let short = StorageEncoding::new().with_fixed_lengths().to_vec(&text).unwrap();
    assert_eq!(short, vec![0, 0, 0, 2, b'a', b'b']);
    let long = StorageEncoding::new().with_fixed_lengths64().to_vec(&text).unwrap();
    assert_eq!(long, vec![0, 0, 0, 0, 0, 0, 0, 2, b'a', b'b']);
    let plain = StorageEncoding::new()
        .with_fixed_lengths()
        .with_variable_lengths()
        .to_vec(&text)
        .unwrap();
    assert_eq!(plain, vec![2, b'a', b'b']);

    let wire = WireEncoding::new().with_fixed_integers_be().to_vec(&value).unwrap();
    assert_eq!(wire, vec![0x44, 1, 2, 3, 4]);
    let back: Kilometres = WireEncoding::new()
        .with_fixed_integers_be()
        .from_slice(&wire)
        .unwrap();
    assert_eq!(back, value);
}

#[test]
fn facade_writes_into_fixed_bytes() {
    let bytes = musli::storage::encoding::to_fixed_bytes::<4, _>(&Kilometres(1000)).unwrap();
    assert_eq!(bytes.as_slice(), &[0xe8, 0x07]);
    assert!(musli::storage::encoding::to_fixed_bytes::<1, _>(&Kilometres(1000)).is_err());
    let bytes = musli::wire::encoding::to_fixed_bytes::<3, _>(&Kilometres(1000)).unwrap();
    assert_eq!(bytes.as_slice(), &[0x60, 0xe8, 0x07]);
    let mut out = Vec::new();
    musli::wire::encoding::encode(&mut out, &true).unwrap();
    musli::storage::encoding::encode(&mut out, &'a').unwrap();
    musli::json::encoding::encode(&mut out, &-5i64).unwrap();
    assert_eq!(&out[out.len() - 2..], b"-5");
    let mut rest: &[u8] = &[1, 5];
    let flag: bool = musli::storage::encoding::decode(&mut rest).unwrap();
    assert!(flag);
    assert_eq!(rest, &[5]);
}

#[test]
fn visitor_learns_whether_the_string_is_borrowed() {
    let bytes = musli::wire::encoding::to_vec(&"hello".to_string()).unwrap();
    let Text(borrowed, text) = musli::wire::encoding::from_slice(&bytes).unwrap();
    assert!(borrowed);
    assert_eq!(text, "hello");

    let Text(borrowed, text) = musli::json::encoding::from_slice(b"\"he\\nllo\"").unwrap();
    assert!(!borrowed);
    assert_eq!(text, "he\nllo");

    let Text(borrowed, text) = musli::json::encoding::from_slice(b" \"hello\"").unwrap();
    assert!(borrowed);
    assert_eq!(text, "hello");

    let owned: String = musli::storage::encoding::from_slice(&[2, b'o', b'k']).unwrap();
    assert_eq!(owned, "ok");
    let bytes: Vec<u8> = musli::storage::encoding::from_slice(&[2, 7, 8]).unwrap();
    assert_eq!(bytes, vec![7, 8]);
    let array: [u8; 2] = musli::storage::encoding::from_slice(&[7, 8]).unwrap();
    assert_eq!(array, [7, 8]);
    let unit: () = musli::value::decode(&Value::Unit).unwrap();
    assert_eq!(unit, ());
}

#[test]
fn unsupported_kinds_fail_with_invalid_type() {
    // JSON has no characters of its own for a decoder to ask for.
    let r: Result<char, JsonError> = musli::json::encoding::from_slice(b"\"a\"");
    let e = r.err().unwrap();
    assert!(format!("{:?}", e).contains("InvalidType"));
    assert!(format!("{:?}", e).contains("Char"));
    assert_eq!(e.parse_error(), None);

    // The failures of the parser keep their place.
    let r: Result<u8, JsonError> = musli::json::encoding::from_slice(b"256");
    let e = r.err().unwrap().parse_error().unwrap();
    assert!(matches!(e.kind, ParseErrorKind::IntegerError(_)));

    // The storage format cannot skip.
    let mut data: &[u8] = &[1, 2];
    let decoder = musli::storage::de::StorageDecoder::<
        &[u8],
        musli::encoding::Variable,
        musli::encoding::Variable,
    >::new(&mut data);
    let e: SliceReaderError = Decoder::skip_any(decoder).err().unwrap();
    assert!(format!("{:?}", e).contains("InvalidType"));

    // Bytes in several slices are supported by no encoder.
    let mut out = Vec::new();
    let encoder = musli::wire::en::WireEncoder::<
        Vec<u8>,
        musli::encoding::Variable,
        musli::encoding::Variable,
    >::new(&mut out);
    let e: VecWriterError = Encoder::encode_bytes_vectored(encoder, &[&[1u8][..]])
        .err()
        .unwrap();
    assert!(format!("{:?}", e).contains("InvalidType"));
    assert!(out.is_empty());
    let _: Option<Never<(), VecWriterError>> = None;
}

/// A struct of the caller, with a field that an older reader does not know.
#[derive(Debug, PartialEq)]
struct Point {
    x: u32,
    name: String,
}

fn encode_point<E>(point: &Point, extra: bool, encoder: E) -> Result<E::Ok, E::Error>
where
    E: Encoder,
    E::Struct: musli::en::PairsEncoder<Ok = E::Ok, Error = E::Error>,
{
    use_pairs(point, extra, encoder.encode_struct(if extra { 3 } else { 2 })?)
}

fn use_pairs<P: musli::en::PairsEncoder>(
    point: &Point,
    extra: bool,
    mut pairs: P,
) -> Result<P::Ok, P::Error> {
    pairs.insert::<_, _, DefaultMode>(&"x".to_string(), &point.x)?;
    if extra {
        pairs.insert::<_, _, DefaultMode>(&"later".to_string(), &true)?;
    }
    pairs.insert::<_, _, DefaultMode>(&"name".to_string(), &point.name)?;
    pairs.end()
}

fn decode_point<'de, D>(decoder: D) -> Result<Point, D::Error>
where
    D: Decoder<'de>,
    D::Struct: musli::de::PairsDecoder<'de, Error = D::Error>,
{
    read_pairs(decoder.decode_struct(2)?)
}

fn read_pairs<'de, P: musli::de::PairsDecoder<'de>>(mut pairs: P) -> Result<Point, P::Error> {
    let mut x = None;
    let mut name = None;
    while let Some(key) = pairs.first::<String, DefaultMode>()? {
        match key.as_str() {
            "x" => x = Some(pairs.second::<u32, DefaultMode>()?),
            "name" => name = Some(pairs.second::<String, DefaultMode>()?),
            _ => {
                if !pairs.skip_second()? {
                    return Err(<P::Error as Error>::custom("cannot skip"));
                }
            }
        }
    }
    match (x, name) {
        (Some(x), Some(name)) => Ok(Point { x, name }),
        _ => Err(<P::Error as Error>::custom("missing field")),
    }
}

#[test]
fn structs_pass_through_the_protocol_in_every_format() {
    let point = Point {
        x: 42,
        name: "foo".to_string(),
    };

    let mut out = Vec::new();
    encode_point(
        &point,
        true,
        musli::wire::en::WireEncoder::<_, musli::encoding::Variable, musli::encoding::Variable>::new(
            &mut out,
        ),
    )
    .unwrap();
    let mut reader = musli::reader::with_position(musli::reader::SliceReader::new(&out));
    let back = decode_point(musli::wire::de::WireDecoder::<
        _,
        musli::encoding::Variable,
        musli::encoding::Variable,
    >::new(&mut reader))
    .unwrap();
    assert_eq!(back, point);

    let mut out = Vec::new();
    encode_point(&point, true, musli::json::en::JsonEncoder::new(&mut out)).unwrap();
    assert_eq!(
        String::from_utf8(out.clone()).unwrap(),
        "{\"x\":42,\"later\":true,\"name\":\"foo\"}"
    );
    let mut scratch = Vec::new();
    let mut parser = musli::json::reader::SliceParser::new(&out);
    let back = decode_point(musli::json::de::JsonDecoder::new(&mut scratch, &mut parser)).unwrap();
    assert_eq!(back, point);

    let mut tree = Value::Unit;
    encode_point(&point, true, musli::value::en::ValueEncoder::new(&mut tree)).unwrap();
    let back = decode_point(musli::value::de::ValueDecoder::new(&tree)).unwrap();
    assert_eq!(back, point);

    // The storage format has no tags to skip by: every field must be known.
    let mut out = Vec::new();
    encode_point(
        &point,
        false,
        musli::storage::en::StorageEncoder::<
            _,
            musli::encoding::Variable,
            musli::encoding::Variable,
        >::new(&mut out),
    )
    .unwrap();
    let mut data = &out[..];
    let back = decode_point(musli::storage::de::StorageDecoder::<
        _,
        musli::encoding::Variable,
        musli::encoding::Variable,
    >::new(&mut data))
    .unwrap();
    assert_eq!(back, point);
}

fn encode_list<E>(items: &[u16], encoder: E) -> Result<E::Ok, E::Error>
where
    E: Encoder,
    E::Sequence: musli::en::SequenceEncoder<Ok = E::Ok, Error = E::Error>,
{
    fill(items, encoder.encode_sequence(items.len())?)
}

fn fill<S: musli::en::SequenceEncoder>(items: &[u16], mut seq: S) -> Result<S::Ok, S::Error> {
    for item in items {
        seq.push::<_, DefaultMode>(item)?;
    }
    seq.end()
}

fn decode_list<'de, D>(decoder: D) -> Result<Vec<u16>, D::Error>
where
    D: Decoder<'de>,
    D::Sequence: musli::de::SequenceDecoder<'de, Error = D::Error>,
{
    drain(decoder.decode_sequence()?)
}

fn drain<'de, S: musli::de::SequenceDecoder<'de>>(mut seq: S) -> Result<Vec<u16>, S::Error> {
    let mut out = Vec::new();
    while let Some(item) = seq.next::<u16, DefaultMode>()? {
        out.push(item);
    }
    Ok(out)
}

#[test]
fn sequences_pass_through_the_protocol_in_every_format() {
    let items = [1u16, 500, 65535];

    let mut out = Vec::new();
    encode_list(
        &items,
        musli::wire::en::WireEncoder::<_, musli::encoding::Variable, musli::encoding::Variable>::new(
            &mut out,
        ),
    )
    .unwrap();
    let mut reader = musli::reader::with_position(musli::reader::SliceReader::new(&out));
    let back = decode_list(musli::wire::de::WireDecoder::<
        _,
        musli::encoding::Variable,
        musli::encoding::Variable,
    >::new(&mut reader))
    .unwrap();
    assert_eq!(back, items);

    let mut out = Vec::new();
    encode_list(
        &items,
        musli::storage::en::StorageEncoder::<
            _,
            musli::encoding::Variable,
            musli::encoding::Variable,
        >::new(&mut out),
    )
    .unwrap();
    let mut data = &out[..];
    let back = decode_list(musli::storage::de::StorageDecoder::<
        _,
        musli::encoding::Variable,
        musli::encoding::Variable,
    >::new(&mut data))
    .unwrap();
    assert_eq!(back, items);

    let mut out = Vec::new();
    encode_list(&items, musli::json::en::JsonEncoder::new(&mut out)).unwrap();
    assert_eq!(out, b"[1,500,65535]".to_vec());
    let mut scratch = Vec::new();
    let mut parser = musli::json::reader::SliceParser::new(&out);
    let back = decode_list(musli::json::de::JsonDecoder::new(&mut scratch, &mut parser)).unwrap();
    assert_eq!(back, items);

    let mut tree = Value::Unit;
    encode_list(&items, musli::value::en::ValueEncoder::new(&mut tree)).unwrap();
    assert_eq!(
        tree,
        Value::Sequence(vec![
            Value::Unsigned(1),
            Value::Unsigned(500),
            Value::Unsigned(65535)
        ])
    );
    let back = decode_list(musli::value::de::ValueDecoder::new(&tree)).unwrap();
    assert_eq!(back, items);
}

#[test]
fn wrappers_select_the_kind_of_value() {
    use_wrappers();
}

fn use_wrappers() {
    let bytes = musli::compat::Bytes::new([1u8, 2, 3]);
    let out = musli::wire::encoding::to_vec(&bytes).unwrap();
    assert_eq!(out, vec![0x83, 1, 2, 3]);
    let back: musli::compat::Bytes<[u8; 3]> = musli::wire::encoding::from_slice(&out).unwrap();
    assert_eq!(back, bytes);
    let out = musli::storage::encoding::to_vec(&bytes).unwrap();
    assert_eq!(out, vec![1, 2, 3]);

    let empty = musli::compat::Sequence::new(());
    let out = musli::wire::encoding::to_vec(&empty).unwrap();
    assert_eq!(out, vec![0xa0]);
    let back: musli::compat::Sequence<()> = musli::wire::encoding::from_slice(&out).unwrap();
    assert_eq!(back, empty);
    let out = musli::storage::encoding::to_vec(&empty).unwrap();
    assert_eq!(out, vec![0]);
}

#[test]
fn storage_writes_slices_of_bytes_as_one() {
    let mut out = Vec::new();
    musli::storage::en::StorageEncoder::<_, musli::encoding::Variable, musli::encoding::Variable>::new(
        &mut out,
    )
    .encode_bytes_vectored(&[&[1, 2][..], &[][..], &[3][..]])
    .unwrap();
    assert_eq!(out, vec![3, 1, 2, 3]);
    let back: Vec<u8> = musli::storage::encoding::from_slice(&out).unwrap();
    assert_eq!(back, vec![1, 2, 3]);
}

fn encode_pair<E>(pair: &(u8, u16), encoder: E) -> Result<E::Ok, E::Error>
where
    E: Encoder,
    E::Pack: musli::en::SequenceEncoder<Ok = E::Ok, Error = E::Error>,
{
    fill_pack(pair, encoder.encode_pack()?)
}

fn fill_pack<S: musli::en::SequenceEncoder>(pair: &(u8, u16), mut pack: S) -> Result<S::Ok, S::Error> {
    pack.push::<_, DefaultMode>(&pair.0)?;
    pack.push::<_, DefaultMode>(&pair.1)?;
    pack.end()
}

fn decode_pair<'de, D>(decoder: D) -> Result<(u8, u16), D::Error>
where
    D: Decoder<'de>,
    D::Pack: musli::de::PackDecoder<'de, Error = D::Error>,
{
    read_pack(decoder.decode_pack()?)
}

fn read_pack<'de, P: musli::de::PackDecoder<'de>>(mut pack: P) -> Result<(u8, u16), P::Error> {
    Ok((
        pack.next::<u8, DefaultMode>()?,
        pack.next::<u16, DefaultMode>()?,
    ))
}

#[test]
fn packs_pass_through_the_protocol() {
    let pair = (7u8, 1000u16);

    let mut out = Vec::new();
    encode_pair(
        &pair,
        musli::wire::en::WireEncoder::<_, musli::encoding::Variable, musli::encoding::Variable>::new(
            &mut out,
        ),
    )
    .unwrap();
    assert_eq!(out, vec![0x83, 7, 0xe8, 0x07]);
    let mut reader = musli::reader::with_position(musli::reader::SliceReader::new(&out));
    let back = decode_pair(musli::wire::de::WireDecoder::<
        _,
        musli::encoding::Variable,
        musli::encoding::Variable,
    >::new(&mut reader))
    .unwrap();
    assert_eq!(back, pair);

    let mut out = Vec::new();
    encode_pair(
        &pair,
        musli::storage::en::StorageEncoder::<
            _,
            musli::encoding::Variable,
            musli::encoding::Variable,
        >::new(&mut out),
    )
    .unwrap();
    assert_eq!(out, vec![7, 0xe8, 0x07]);
    let mut data = &out[..];
    let back = decode_pair(musli::storage::de::StorageDecoder::<
        _,
        musli::encoding::Variable,
        musli::encoding::Variable,
    >::new(&mut data))
    .unwrap();
    assert_eq!(back, pair);

    let mut tree = Value::Unit;
    encode_pair(&pair, musli::value::en::ValueEncoder::new(&mut tree)).unwrap();
    let back = decode_pair(musli::value::de::ValueDecoder::new(&tree)).unwrap();
    assert_eq!(back, pair);
}

/// A mode of the caller, in which a reading is written as tenths.
struct Tenths;

struct Reading(u32);

impl Encode for Reading {
    fn encode<E: Encoder>(&self, encoder: E) -> Result<E::Ok, E::Error> {
        encoder.encode_u32(self.0)
    }
}

impl Encode<Tenths> for Reading {
    fn encode<E: Encoder>(&self, encoder: E) -> Result<E::Ok, E::Error> {
        encoder.encode_u32(self.0 * 10)
    }
}

impl<'de> Decode<'de, Tenths> for Reading {
    fn decode<D: Decoder<'de>>(decoder: D) -> Result<Self, D::Error> {
        Ok(Reading(decoder.decode_u32()? / 10))
    }
}

#[test]
fn mode_selects_between_the_encodings_of_one_type() {
    let reading = Reading(7);
    let plain = StorageEncoding::new().to_vec(&reading).unwrap();
    assert_eq!(plain, vec![7]);
    let tenths = StorageEncoding::new()
        .with_mode::<Tenths>()
        .to_vec(&reading)
        .unwrap();
    assert_eq!(tenths, vec![70]);
    let back: Reading = StorageEncoding::new()
        .with_mode::<Tenths>()
        .from_slice(&tenths)
        .unwrap();
    assert_eq!(back.0, 7);
    let wire = WireEncoding::new()
        .with_fixed_integers_be()
        .with_mode::<Tenths>()
        .to_vec(&reading)
        .unwrap();
    assert_eq!(wire, vec![0x44, 0, 0, 0, 70]);
}
