use makaikit::database::{decode_database, encode_database};
use makaikit::de::{Deserializer, DeserializerError};
use makaikit::ser::{Serializer, SerializerError};
use makaikit::shape::{Shape, UnsupportedKind, Value};

fn decode_one(shape: &Shape, bytes: &[u8]) -> (Result<Value, DeserializerError>, usize) {
    let mut d = Deserializer::new(bytes);
    let r = d.decode(shape);
    (r, d.position())
}

fn encode_one(shape: &Shape, value: &Value) -> Result<Vec<u8>, SerializerError> {
    let mut s = Serializer::new();
    s.encode(shape, value)?;
    Ok(s.w)
}

fn as_str(v: &Value) -> &str {
    match v {
        Value::Str(s) => s.as_str(),
        other => panic!("not a string: {:?}", other),
    }
}

#[test]
fn string_field_with_nul_decodes() {
    let (r, pos) = decode_one(&Shape::Str, &[0x04, 0, 0, 0, 0x41, 0x42, 0x43, 0x00]);
    assert_eq!(as_str(&r.unwrap()), "ABC");
    assert_eq!(pos, 8);
}

#[test]
fn string_length_past_the_input_is_eof() {
    // A length of 5 asks for one byte more than the four that follow.
    let (r, _) = decode_one(&Shape::Str, &[0x05, 0, 0, 0, 0x41, 0x42, 0x43, 0x00]);
    assert_eq!(r.unwrap_err(), DeserializerError::UnexpectedEof);
    let (r, pos) = decode_one(&Shape::Str, &[0x05, 0, 0, 0, 0x41, 0x42, 0x43, 0x44, 0x00]);
    assert_eq!(as_str(&r.unwrap()), "ABCD");
    assert_eq!(pos, 9);
}

#[test]
fn empty_string_field_decodes() {
    let (r, pos) = decode_one(&Shape::Str, &[0, 0, 0, 0]);
    assert_eq!(as_str(&r.unwrap()), "");
    assert_eq!(pos, 4);
}

#[test]
fn empty_string_encodes_to_four_zero_bytes() {
    let bytes = encode_one(&Shape::Str, &Value::Str(String::new())).unwrap();
    assert_eq!(bytes, vec![0, 0, 0, 0]);
}

#[test]
fn string_encodes_with_length_and_nul() {
    let bytes = encode_one(&Shape::Str, &Value::Str("ABC".to_string())).unwrap();
    assert_eq!(bytes, vec![4, 0, 0, 0, 0x41, 0x42, 0x43, 0]);
}

#[test]
fn string_round_trip_multibyte() {
    let text = "héllo, 世界";
    let bytes = encode_one(&Shape::Str, &Value::Str(text.to_string())).unwrap();
    assert_eq!(bytes.len(), 4 + text.len() + 1);
    let (r, pos) = decode_one(&Shape::Str, &bytes);
    assert_eq!(as_str(&r.unwrap()), text);
    assert_eq!(pos, bytes.len());
}

#[test]
fn string_without_nul_is_malformed() {
    let (r, _) = decode_one(&Shape::Str, &[0x03, 0, 0, 0, 0x41, 0x42, 0x43]);
    assert_eq!(r.unwrap_err(), DeserializerError::CStrParseError);
}

#[test]
fn string_with_bad_utf8_is_malformed() {
    let (r, _) = decode_one(&Shape::Str, &[0x03, 0, 0, 0, 0xff, 0xfe, 0x00]);
    assert_eq!(r.unwrap_err(), DeserializerError::Utf8Error);
}

#[test]
fn short_input_is_eof() {
    let (r, _) = decode_one(&Shape::U32, &[1, 2, 3]);
    assert_eq!(r.unwrap_err(), DeserializerError::UnexpectedEof);
}

#[test]
fn option_field_is_unsupported() {
    let record = Shape::Composite(vec![Shape::Unsupported(UnsupportedKind::Optional), Shape::I32]);
    let (r, pos) = decode_one(&record, &[1, 2, 3, 4, 5, 6, 7, 8]);
    assert_eq!(r.unwrap_err(), DeserializerError::UnsupportedType(UnsupportedKind::Optional));
    assert_eq!(pos, 0);
    assert_eq!(UnsupportedKind::Optional.name(), "option");
}

#[test]
fn unsupported_shape_fails_to_encode() {
    let r = encode_one(&Shape::Unsupported(UnsupportedKind::Char), &Value::Unit);
    assert_eq!(r.unwrap_err(), SerializerError::UnsupportedType(UnsupportedKind::Char));
}

#[test]
fn mismatched_value_fails_to_encode() {
    let r = encode_one(&Shape::I32, &Value::U32(1));
    assert_eq!(r.unwrap_err(), SerializerError::ShapeMismatch);
    let r = encode_one(&Shape::Array(2, Box::new(Shape::U8)), &Value::List(vec![Value::U8(1)]));
    assert_eq!(r.unwrap_err(), SerializerError::ShapeMismatch);
}

#[test]
fn primitives_are_little_endian() {
    let shape = Shape::Composite(vec![
        Shape::I8,
        Shape::I16,
        Shape::I32,
        Shape::U64,
        Shape::Bool,
        Shape::F32,
    ]);
    let bytes = [
        0xff, 0xfe, 0xff, 0x78, 0x56, 0x34, 0x12, 1, 0, 0, 0, 0, 0, 0, 0x80, 7, 0x00, 0x00, 0x80,
        0x3f,
    ];
    let (r, pos) = decode_one(&shape, &bytes);
    assert_eq!(pos, bytes.len());
    match r.unwrap() {
        Value::List(items) => {
            assert!(matches!(items[0], Value::I8(-1)));
            assert!(matches!(items[1], Value::I16(-2)));
            assert!(matches!(items[2], Value::I32(0x12345678)));
            assert!(matches!(items[3], Value::U64(0x8000_0000_0000_0001)));
            assert!(matches!(items[4], Value::Bool(true)));
            match items[5] {
                Value::F32(bits) => assert_eq!(f32::from_bits(bits), 1.0f32),
                ref other => panic!("{:?}", other),
            }
        }
        other => panic!("{:?}", other),
    }
}

#[test]
fn decode_then_encode_reproduces_bytes() {
    let shape = Shape::Composite(vec![
        Shape::I32,
        Shape::Str,
        Shape::Sequence(Box::new(Shape::I16)),
        Shape::Array(3, Box::new(Shape::U8)),
        Shape::Bool,
    ]);
    let bytes = [
        7, 0, 0, 0, 3, 0, 0, 0, b'h', b'i', 0, 2, 0, 0, 0, 1, 0, 0xff, 0xff, 9, 8, 7, 1,
    ];
    let (r, pos) = decode_one(&shape, &bytes);
    assert_eq!(pos, bytes.len());
    let again = encode_one(&shape, &r.unwrap()).unwrap();
    assert_eq!(again, bytes.to_vec());
}

#[test]
fn nonzero_bool_reads_true() {
    let (r, _) = decode_one(&Shape::Bool, &[2]);
    assert!(matches!(r.unwrap(), Value::Bool(true)));
    let (r, _) = decode_one(&Shape::Bool, &[0]);
    assert!(matches!(r.unwrap(), Value::Bool(false)));
}

#[test]
fn fixed_array_consumes_n_times_element_size() {
    let shape = Shape::Array(4, Box::new(Shape::I32));
    let bytes = [0xabu8; 20];
    let (r, pos) = decode_one(&shape, &bytes);
    assert!(r.is_ok());
    assert_eq!(pos, 16);
    let zeros = [0u8; 20];
    let (_, pos) = decode_one(&shape, &zeros);
    assert_eq!(pos, 16);
}

#[test]
fn sequence_consumes_count_and_elements() {
    let shape = Shape::Sequence(Box::new(Shape::U16));
    let bytes = [3, 0, 0, 0, 1, 0, 2, 0, 3, 0, 99];
    let (r, pos) = decode_one(&shape, &bytes);
    assert_eq!(pos, 4 + 3 * 2);
    match r.unwrap() {
        Value::List(items) => assert_eq!(items.len(), 3),
        other => panic!("{:?}", other),
    }
}

fn record_shape() -> Shape {
    Shape::Composite(vec![Shape::I32, Shape::Str, Shape::Sequence(Box::new(Shape::I32))])
}

fn record(id: i32, name: &str, values: &[i32]) -> Value {
    Value::List(vec![
        Value::I32(id),
        Value::Str(name.to_string()),
        Value::List(values.iter().map(|v| Value::I32(*v)).collect()),
    ])
}

#[test]
fn database_round_trip() {
    let records = vec![record(1, "first", &[1, 2]), record(2, "", &[]), record(3, "third", &[-5])];
    let bytes = encode_database(&records, &record_shape()).unwrap();
    assert_eq!(&bytes[0..4], &[3, 0, 0, 0]);
    let back = decode_database(&bytes, &record_shape()).unwrap();
    assert_eq!(back.len(), 3);
    let again = encode_database(&back, &record_shape()).unwrap();
    assert_eq!(again, bytes);
}

#[test]
fn empty_database_is_a_zero_count() {
    let bytes = encode_database(&Vec::new(), &record_shape()).unwrap();
    assert_eq!(bytes, vec![0, 0, 0, 0]);
    let back = decode_database(&bytes, &record_shape()).unwrap();
    assert!(back.is_empty());
}

#[test]
fn database_frame_layout() {
    let shape = Shape::U16;
    let bytes = encode_database(&vec![Value::U16(0x0102), Value::U16(5)], &shape).unwrap();
    assert_eq!(bytes, vec![2, 0, 0, 0, 2, 0, 0, 0, 2, 1, 2, 0, 0, 0, 5, 0]);
}

#[test]
fn database_record_window_is_independent() {
    // The second record's frame is larger than the shape; the extra byte is skipped.
    let bytes = [2, 0, 0, 0, 1, 0, 0, 0, 7, 2, 0, 0, 0, 8, 0xee];
    let back = decode_database(&bytes, &Shape::U8).unwrap();
    assert!(matches!(back[0], Value::U8(7)));
    assert!(matches!(back[1], Value::U8(8)));
}

#[test]
fn database_failure_discards_all_records() {
    let bytes = [2, 0, 0, 0, 1, 0, 0, 0, 7, 5, 0, 0, 0, 8];
    assert_eq!(decode_database(&bytes, &Shape::U8).unwrap_err(), DeserializerError::UnexpectedEof);
    let bytes = [1, 0, 0, 0, 1, 0, 0, 0, 7];
    assert_eq!(decode_database(&bytes, &Shape::U16).unwrap_err(), DeserializerError::UnexpectedEof);
}

#[test]
fn noncanonical_bytes_reencode_canonically() {
    // A bool byte of 2 reads as true and is written back as 1.
    let (r, _) = decode_one(&Shape::Bool, &[2]);
    assert_eq!(encode_one(&Shape::Bool, &r.unwrap()).unwrap(), vec![1]);
    // A lone NUL reads as the empty string, which is written as a zero length.
    let (r, pos) = decode_one(&Shape::Str, &[1, 0, 0, 0, 0]);
    assert_eq!(pos, 5);
    assert_eq!(encode_one(&Shape::Str, &r.unwrap()).unwrap(), vec![0, 0, 0, 0]);
}

#[test]
fn cursor_hands_position_to_the_next_field() {
    let bytes = [2, 0, 0, 0, b'x', 0, 0x10, 0x20];
    let mut d = Deserializer::new(&bytes);
    let s = d.decode(&Shape::Str).unwrap();
    assert_eq!(as_str(&s), "x");
    assert_eq!(d.position(), 6);
    assert!(matches!(d.decode(&Shape::U16).unwrap(), Value::U16(0x2010)));
    assert_eq!(d.position(), 8);
    assert_eq!(d.decode(&Shape::U8).unwrap_err(), DeserializerError::UnexpectedEof);
}
