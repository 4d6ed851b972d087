use datom_log::append;
use datom_log::codec::trx_index_to_key;
use datom_log::load;
use datom_log::log::counter_key;
use datom_log::next_index;
use datom_log::to_full;
use datom_log::AttributeValue;
use datom_log::Backend;
use datom_log::Cardinality;
use datom_log::DatomValue;
use datom_log::Direction;
use datom_log::FullStorageDatum;
use datom_log::LogError;
use datom_log::TransactionLogDatom;
use datom_log::ValueType;

fn datom(direction: Direction, value: DatomValue) -> TransactionLogDatom {
    TransactionLogDatom {
        entity: 1,
        attribute: 2,
        direction,
        value,
    }
}

#[test]
fn counter_key_bytes() {
    assert_eq!(counter_key(), b"TRX_LOG_INDEX".to_vec());
}

#[test]
fn monotonic_indices_on_fresh_store() {
    let mut backend = Backend::new();
    let d = datom(Direction::Assert, DatomValue::I64(3));
    let mut issued: Vec<u64> = Vec::new();
    for _ in 0..5 {
        issued.push(append(&mut backend, &d).unwrap());
    }
    assert_eq!(issued, vec![0, 1, 2, 3, 4]);
}

#[test]
fn monotonic_indices_from_existing_counter() {
    let mut backend = Backend::new();
    backend.put(counter_key(), trx_index_to_key(7));
    let d = datom(Direction::Assert, DatomValue::I64(3));
    assert_eq!(append(&mut backend, &d), Ok(7));
    assert_eq!(append(&mut backend, &d), Ok(8));
}

#[test]
fn next_index_counts_up_and_persists() {
    let mut backend = Backend::new();
    assert_eq!(next_index(&mut backend), Ok(0));
    assert_eq!(next_index(&mut backend), Ok(1));
    let stored = backend.get(&counter_key()).cloned().unwrap();
    assert_eq!(stored, trx_index_to_key(2));
}

#[test]
fn read_after_write_returns_the_fact() {
    let mut backend = Backend::new();
    let d = datom(
        Direction::Retract,
        DatomValue::String(String::from("hello")),
    );
    let idx = append(&mut backend, &d).unwrap();
    let full = load(&backend, idx).unwrap();
    assert_eq!(full.entity, d.entity);
    assert_eq!(full.attribute, d.attribute);
    assert_eq!(full.direction, d.direction);
    assert_eq!(full.value, d.value);
    assert_eq!(full.tx, idx);
}

#[test]
fn missing_key_fails_with_not_found() {
    let backend = Backend::new();
    assert_eq!(load(&backend, 42), Err(LogError::NotFound(42)));
}

#[test]
fn appended_neighbours_do_not_mask_missing_key() {
    let mut backend = Backend::new();
    let d = datom(Direction::Assert, DatomValue::I64(3));
    append(&mut backend, &d).unwrap();
    assert_eq!(load(&backend, 1), Err(LogError::NotFound(1)));
}

#[test]
fn corrupt_value_fails_with_decode_error() {
    let mut backend = Backend::new();
    backend.put(trx_index_to_key(0), vec![1, 2, 3]);
    assert_eq!(load(&backend, 0), Err(LogError::DecodeError));
}

#[test]
fn truncated_value_fails_with_decode_error() {
    let mut backend = Backend::new();
    let d = datom(Direction::Assert, DatomValue::Entity(1));
    let idx = append(&mut backend, &d).unwrap();
    let mut stored = backend.get(&trx_index_to_key(idx)).cloned().unwrap();
    stored.pop();
    backend.put(trx_index_to_key(idx), stored);
    assert_eq!(load(&backend, idx), Err(LogError::DecodeError));
}

#[test]
fn garbled_counter_fails_with_decode_error() {
    let mut backend = Backend::new();
    backend.put(counter_key(), vec![9, 9]);
    let d = datom(Direction::Assert, DatomValue::I64(3));
    assert_eq!(append(&mut backend, &d), Err(LogError::DecodeError));
    assert_eq!(next_index(&mut backend), Err(LogError::DecodeError));
}

#[test]
fn spent_counter_fails_with_index_exhausted() {
    let mut backend = Backend::new();
    backend.put(counter_key(), trx_index_to_key(u64::MAX));
    let d = datom(Direction::Assert, DatomValue::I64(3));
    assert_eq!(append(&mut backend, &d), Err(LogError::IndexExhausted));
}

#[test]
fn assert_then_retract_scenario() {
    let mut backend = Backend::new();
    let first = datom(Direction::Assert, DatomValue::Entity(1));
    let second = datom(Direction::Retract, DatomValue::Entity(1));
    let i0 = append(&mut backend, &first).unwrap();
    let i1 = append(&mut backend, &second).unwrap();
    assert_eq!((i0, i1), (0, 1));
    assert_eq!(
        load(&backend, 0),
        Ok(FullStorageDatum {
            entity: 1,
            attribute: 2,
            direction: Direction::Assert,
            tx: 0,
            value: DatomValue::Entity(1),
        })
    );
    assert_eq!(
        load(&backend, 1),
        Ok(FullStorageDatum {
            entity: 1,
            attribute: 2,
            direction: Direction::Retract,
            tx: 1,
            value: DatomValue::Entity(1),
        })
    );
}

#[test]
fn float_survives_the_log() {
    let mut backend = Backend::new();
    let d = datom(Direction::Assert, DatomValue::F64(f64::to_bits(6.25)));
    let idx = append(&mut backend, &d).unwrap();
    match load(&backend, idx).unwrap().value {
        DatomValue::F64(bits) => assert_eq!(f64::from_bits(bits), 6.25),
        _ => panic!("wrong variant"),
    }
}

#[test]
fn to_full_attaches_the_index() {
    let d = datom(Direction::Assert, DatomValue::I64(-9));
    let full = to_full(3, d.clone());
    assert_eq!(full.entity, d.entity);
    assert_eq!(full.attribute, d.attribute);
    assert_eq!(full.direction, d.direction);
    assert_eq!(full.value, d.value);
    assert_eq!(full.tx, 3);
}

#[test]
fn backend_put_overrides_on_read() {
    let mut backend = Backend::new();
    backend.put(vec![1], vec![10]);
    backend.put(vec![1], vec![20]);
    backend.put(vec![2], vec![30]);
    assert_eq!(backend.get(&[1]).cloned(), Some(vec![20]));
    assert_eq!(backend.get(&[2]).cloned(), Some(vec![30]));
    assert_eq!(backend.get(&[3]), None);
}

#[test]
fn attribute_value_declaration() {
    let attr = AttributeValue::new(
        String::from("person/name"),
        String::from(":person/name"),
        ValueType::VString,
    );
    assert_eq!(attr.name, "person/name");
    assert_eq!(attr.ident, ":person/name");
    assert_eq!(attr.cardinality, Cardinality::One);
    assert!(!attr.component);
    assert!(!attr.unique);
    assert_eq!(attr.value_type, ValueType::VString);
}
