use datom_log::codec::decode_datom;
use datom_log::codec::decode_trx_index;
use datom_log::codec::decode_value;
use datom_log::codec::encode_datom;
use datom_log::codec::encode_direction;
use datom_log::codec::encode_value;
use datom_log::codec::trx_index_to_key;
use datom_log::DatomValue;
use datom_log::Direction;
use datom_log::LogError;
use datom_log::TransactionLogDatom;

fn sample(direction: Direction, value: DatomValue) -> TransactionLogDatom {
    TransactionLogDatom {
        entity: 1,
        attribute: 2,
        direction,
        value,
    }
}

#[test]
fn round_trip_i64_value() {
    let d = sample(Direction::Assert, DatomValue::I64(-42));
    let bytes = encode_datom(&d);
    assert_eq!(decode_datom(&bytes), Ok(d));
}

#[test]
fn round_trip_f64_value() {
    let d = sample(Direction::Assert, DatomValue::F64(f64::to_bits(-2.75)));
    let bytes = encode_datom(&d);
    let back = decode_datom(&bytes).unwrap();
    assert_eq!(back, d);
    match back.value {
        DatomValue::F64(bits) => assert_eq!(f64::from_bits(bits), -2.75),
        _ => panic!("wrong variant"),
    }
}

#[test]
fn round_trip_entity_value() {
    let d = sample(Direction::Retract, DatomValue::Entity(7));
    let bytes = encode_datom(&d);
    assert_eq!(decode_datom(&bytes), Ok(d));
}

#[test]
fn round_trip_string_value() {
    let d = sample(
        Direction::Assert,
        DatomValue::String(String::from("h\u{e9}llo \u{2192} datom")),
    );
    let bytes = encode_datom(&d);
    assert_eq!(decode_datom(&bytes), Ok(d));
}

#[test]
fn round_trip_empty_string_value() {
    let d = sample(Direction::Retract, DatomValue::String(String::new()));
    let bytes = encode_datom(&d);
    assert_eq!(decode_datom(&bytes), Ok(d));
}

#[test]
fn round_trip_extreme_integers() {
    for n in [i64::MIN, -1, 0, 1, i64::MAX] {
        let d = sample(Direction::Assert, DatomValue::I64(n));
        let bytes = encode_datom(&d);
        assert_eq!(decode_datom(&bytes), Ok(d));
    }
}

#[test]
fn round_trip_bare_values() {
    for v in [
        DatomValue::I64(9),
        DatomValue::F64(f64::to_bits(0.5)),
        DatomValue::Entity(-3),
        DatomValue::String(String::from("x")),
    ] {
        let bytes = encode_value(&v);
        assert_eq!(decode_value(&bytes), Ok(v));
    }
}

#[test]
fn encoding_is_deterministic() {
    let d = sample(Direction::Assert, DatomValue::String(String::from("same")));
    assert_eq!(encode_datom(&d), encode_datom(&d.clone()));
}

#[test]
fn exact_bytes_of_entity_datom() {
    let d = sample(Direction::Assert, DatomValue::Entity(1));
    let bytes = encode_datom(&d);
    let mut expected: Vec<u8> = Vec::new();
    expected.extend_from_slice(&[0, 0, 0, 0, 0, 0, 0, 1]); // entity 1
    expected.extend_from_slice(&[0, 0, 0, 0, 0, 0, 0, 2]); // attribute 2
    expected.push(0); // assert
    expected.push(2); // entity tag
    expected.extend_from_slice(&[0, 0, 0, 0, 0, 0, 0, 1]); // referenced entity 1
    assert_eq!(bytes, expected);
}

#[test]
fn exact_bytes_of_string_datom() {
    let d = sample(Direction::Retract, DatomValue::String(String::from("ab")));
    let bytes = encode_datom(&d);
    let mut expected: Vec<u8> = Vec::new();
    expected.extend_from_slice(&[0, 0, 0, 0, 0, 0, 0, 1]);
    expected.extend_from_slice(&[0, 0, 0, 0, 0, 0, 0, 2]);
    expected.push(1); // retract
    expected.push(3); // string tag
    expected.extend_from_slice(&[0, 0, 0, 0, 0, 0, 0, 2]); // byte length 2
    expected.extend_from_slice(b"ab");
    assert_eq!(bytes, expected);
}

#[test]
fn direction_bytes() {
    assert_eq!(encode_direction(Direction::Assert), 0);
    assert_eq!(encode_direction(Direction::Retract), 1);
}

#[test]
fn index_key_is_big_endian() {
    assert_eq!(trx_index_to_key(0), vec![0, 0, 0, 0, 0, 0, 0, 0]);
    assert_eq!(trx_index_to_key(1), vec![0, 0, 0, 0, 0, 0, 0, 1]);
    assert_eq!(
        trx_index_to_key(0x0102030405060708),
        vec![1, 2, 3, 4, 5, 6, 7, 8]
    );
}

#[test]
fn index_keys_order_as_indices() {
    // the byte-wise order of the keys follows the numeric order of the
    // indices, so the encoded index can serve as an ordered storage key
    let mut prev = trx_index_to_key(0);
    for idx in [1u64, 255, 256, 65536, 1 << 40, u64::MAX] {
        let key = trx_index_to_key(idx);
        assert!(prev < key);
        prev = key;
    }
}

#[test]
fn decode_trx_index_round_trip() {
    for idx in [0u64, 1, 512, u64::MAX] {
        let key = trx_index_to_key(idx);
        assert_eq!(decode_trx_index(&key), Ok(idx));
    }
}

#[test]
fn decode_trx_index_rejects_wrong_width() {
    assert_eq!(decode_trx_index(&[]), Err(LogError::DecodeError));
    assert_eq!(decode_trx_index(&[1, 2, 3]), Err(LogError::DecodeError));
    assert_eq!(
        decode_trx_index(&[0, 0, 0, 0, 0, 0, 0, 0, 0]),
        Err(LogError::DecodeError)
    );
}

#[test]
fn decode_rejects_truncated_datom() {
    let d = sample(Direction::Assert, DatomValue::I64(5));
    let bytes = encode_datom(&d);
    for cut in [0, 1, 16, 17, bytes.len() - 1] {
        assert_eq!(
            decode_datom(&bytes[..cut]),
            Err(LogError::DecodeError),
            "cut at {cut}"
        );
    }
}

#[test]
fn decode_rejects_bad_direction_byte() {
    let d = sample(Direction::Assert, DatomValue::I64(5));
    let mut bytes = encode_datom(&d);
    bytes[16] = 9;
    assert_eq!(decode_datom(&bytes), Err(LogError::DecodeError));
}

#[test]
fn decode_rejects_bad_value_tag() {
    let d = sample(Direction::Assert, DatomValue::I64(5));
    let mut bytes = encode_datom(&d);
    bytes[17] = 200;
    assert_eq!(decode_datom(&bytes), Err(LogError::DecodeError));
}

#[test]
fn decode_rejects_trailing_bytes() {
    let d = sample(Direction::Assert, DatomValue::I64(5));
    let mut bytes = encode_datom(&d);
    bytes.push(0);
    assert_eq!(decode_datom(&bytes), Err(LogError::DecodeError));
}

#[test]
fn decode_rejects_wrong_string_length() {
    let d = sample(Direction::Assert, DatomValue::String(String::from("abc")));
    let mut bytes = encode_datom(&d);
    let len_pos = 17 + 1 + 7; // low byte of the length prefix
    bytes[len_pos] = 2;
    assert_eq!(decode_datom(&bytes), Err(LogError::DecodeError));
}

#[test]
fn decode_rejects_invalid_utf8() {
    let d = sample(Direction::Assert, DatomValue::String(String::from("ab")));
    let mut bytes = encode_datom(&d);
    let body_pos = bytes.len() - 2;
    bytes[body_pos] = 0xff;
    bytes[body_pos + 1] = 0xfe;
    assert_eq!(decode_datom(&bytes), Err(LogError::DecodeError));
}

#[test]
fn decode_value_rejects_oversized_fixed_payload() {
    let mut bytes = vec![0u8]; // i64 tag
    bytes.extend_from_slice(&[0; 9]); // one byte too many
    assert_eq!(decode_value(&bytes), Err(LogError::DecodeError));
}
