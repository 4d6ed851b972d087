//! Deterministic binary codec for the transaction log.
//!
//! Every encoding is positional and fixed layout, so identical values give
//! identical bytes. Transaction indices are encoded as 8 big-endian bytes:
//! fixed width, and byte-comparable in the same order as the indices, so
//! the encoded index can serve directly as an ordered storage key.

use vstd::prelude::*;
use vstd::bytes::lemma_auto_spec_u64_to_from_le_bytes;
use vstd::bytes::spec_u64_from_le_bytes;
use vstd::bytes::spec_u64_to_le_bytes;
use vstd::bytes::u64_from_le_bytes;
use vstd::bytes::u64_to_le_bytes;
use vstd::slice::slice_subrange;
use vstd::slice::slice_to_vec;
use vstd::utf8::decode_utf8;
use vstd::utf8::encode_utf8;
use vstd::utf8::encode_utf8_decode_utf8;
use vstd::utf8::encode_utf8_valid_utf8;
use vstd::utf8::valid_utf8;

use crate::datom::DatomValue;
use crate::datom::DatomValueView;
use crate::datom::Direction;
use crate::datom::LogError;
use crate::datom::TransactionLogDatom;
use crate::datom::TransactionLogDatomView;

verus! {

/// Value tag: a signed 64-bit integer follows.
pub const TAG_I64: u8 = 0;

/// Value tag: the bit pattern of a 64-bit float follows.
pub const TAG_F64: u8 = 1;

/// Value tag: an entity reference follows.
pub const TAG_ENTITY: u8 = 2;

/// Value tag: a length-prefixed UTF-8 string follows.
pub const TAG_STRING: u8 = 3;

/// Direction byte for an assertion.
pub const DIR_ASSERT: u8 = 0;

/// Direction byte for a retraction.
pub const DIR_RETRACT: u8 = 1;

/// The 8 big-endian bytes of `x`: the little-endian bytes, reversed.
pub open spec fn spec_u64_to_be_bytes(x: u64) -> Seq<u8> {
    Seq::new(8, |i: int| spec_u64_to_le_bytes(x)[7 - i])
}

/// The `u64` read from 8 big-endian bytes.
pub open spec fn spec_u64_from_be_bytes(s: Seq<u8>) -> u64
    recommends
        s.len() == 8,
{
    spec_u64_from_le_bytes(Seq::new(8, |i: int| s[7 - i]))
}

/// The big-endian encoding is 8 bytes wide and inverts exactly, in both
/// directions.
pub proof fn lemma_u64_be_bytes_round_trip()
    ensures
        forall|x: u64|
            #![trigger spec_u64_to_be_bytes(x)]
            {
                &&& spec_u64_to_be_bytes(x).len() == 8
                &&& spec_u64_from_be_bytes(spec_u64_to_be_bytes(x)) == x
            },
        forall|s: Seq<u8>|
            s.len() == 8 ==> spec_u64_to_be_bytes(#[trigger] spec_u64_from_be_bytes(s)) == s,
{
    lemma_auto_spec_u64_to_from_le_bytes();
    assert forall|x: u64| spec_u64_to_be_bytes(x).len() == 8
        && #[trigger] spec_u64_from_be_bytes(spec_u64_to_be_bytes(x)) == x by {
        assert(Seq::new(8, |i: int| spec_u64_to_be_bytes(x)[7 - i]) =~= spec_u64_to_le_bytes(x));
    }
    assert forall|s: Seq<u8>| s.len() == 8 implies spec_u64_to_be_bytes(
        #[trigger] spec_u64_from_be_bytes(s),
    ) == s by {
        let rev = Seq::new(8, |i: int| s[7 - i]);
        assert(spec_u64_to_le_bytes(spec_u64_from_le_bytes(rev)) == rev);
        assert(spec_u64_to_be_bytes(spec_u64_from_be_bytes(s)) =~= s);
    }
}

/// Writes the 8 big-endian bytes of `x` onto the end of `out`.
pub fn push_u64_be(out: &mut Vec<u8>, x: u64)
    ensures
        final(out)@ == old(out)@ + spec_u64_to_be_bytes(x),
{
    let le = u64_to_le_bytes(x);
    let ghost start = out@;
    let mut i: usize = 0;
    while i < 8
        invariant
            le@ == spec_u64_to_le_bytes(x),
            le@.len() == 8,
            i <= 8,
            out@.len() == start.len() + i,
            start == out@.subrange(0, start.len() as int),
            forall|j: int| 0 <= j < i ==> #[trigger] out@[start.len() + j] == le@[7 - j],
        decreases 8 - i,
    {
        out.push(le[7 - i]);
        i += 1;
    }
    proof {
        assert forall|k: int| 0 <= k < out@.len() implies out@[k] == (start
            + spec_u64_to_be_bytes(x))[k] by {
            if k < start.len() {
                assert(out@.subrange(0, start.len() as int)[k] == out@[k]);
            } else {
                let j = k - start.len();
                assert(out@[start.len() + j] == le@[7 - j]);
            }
        }
        assert(out@ =~= start + spec_u64_to_be_bytes(x));
    }
}

/// Reads a `u64` from exactly 8 big-endian bytes.
pub fn u64_from_be_bytes(s: &[u8]) -> (x: u64)
    requires
        s@.len() == 8,
    ensures
        x == spec_u64_from_be_bytes(s@),
{
    let mut rev: Vec<u8> = Vec::new();
    let mut i: usize = 0;
    while i < 8
        invariant
            s@.len() == 8,
            i <= 8,
            rev@.len() == i,
            forall|j: int| 0 <= j < i ==> rev@[j] == s@[7 - j],
        decreases 8 - i,
    {
        rev.push(s[7 - i]);
        i += 1;
    }
    proof {
        assert(rev@ =~= Seq::new(8, |j: int| s@[7 - j]));
    }
    u64_from_le_bytes(rev.as_slice())
}

/// The storage key of a transaction index: its 8 big-endian bytes.
pub open spec fn spec_trx_index_key(trx_index: u64) -> Seq<u8> {
    spec_u64_to_be_bytes(trx_index)
}

/// Encodes a transaction index as the byte key it is stored under.
pub fn trx_index_to_key(trx_index: u64) -> (r: Vec<u8>)
    ensures
        r@ == spec_trx_index_key(trx_index),
        r@.len() == 8,
{
    let mut out: Vec<u8> = Vec::new();
    push_u64_be(&mut out, trx_index);
    proof {
        assert(out@ =~= spec_u64_to_be_bytes(trx_index));
    }
    out
}

/// What a stored transaction index decodes to: defined exactly on 8-byte
/// strings, everything else is malformed.
pub open spec fn spec_decode_trx_index(s: Seq<u8>) -> Option<u64> {
    if s.len() == 8 {
        Some(spec_u64_from_be_bytes(s))
    } else {
        None
    }
}

/// Decodes a stored transaction index; fails on anything but exactly 8
/// bytes.
pub fn decode_trx_index(s: &[u8]) -> (r: Result<u64, LogError>)
    ensures
        match r {
            Ok(x) => spec_decode_trx_index(s@) == Some(x),
            Err(e) => e == LogError::DecodeError && spec_decode_trx_index(s@) is None,
        },
{
    if s.len() == 8 {
        Ok(u64_from_be_bytes(s))
    } else {
        Err(LogError::DecodeError)
    }
}

/// The byte a direction is encoded as.
pub open spec fn spec_encode_direction(d: Direction) -> u8 {
    match d {
        Direction::Assert => DIR_ASSERT,
        Direction::Retract => DIR_RETRACT,
    }
}

/// What a direction byte decodes to; anything but the two known tags is
/// malformed.
pub open spec fn spec_decode_direction(b: u8) -> Option<Direction> {
    if b == DIR_ASSERT {
        Some(Direction::Assert)
    } else if b == DIR_RETRACT {
        Some(Direction::Retract)
    } else {
        None
    }
}

/// Encodes a direction as its tag byte.
pub fn encode_direction(d: Direction) -> (r: u8)
    ensures
        r == spec_encode_direction(d),
{
    match d {
        Direction::Assert => DIR_ASSERT,
        Direction::Retract => DIR_RETRACT,
    }
}

/// The bytes a value is encoded as: a tag byte, then a fixed 8-byte
/// big-endian payload, except for strings, which carry an 8-byte length
/// prefix and then their UTF-8 bytes.
pub open spec fn spec_encode_value(v: DatomValueView) -> Seq<u8> {
    match v {
        DatomValueView::I64(n) => seq![TAG_I64] + spec_u64_to_be_bytes(n as u64),
        DatomValueView::F64(bits) => seq![TAG_F64] + spec_u64_to_be_bytes(bits),
        DatomValueView::Entity(e) => seq![TAG_ENTITY] + spec_u64_to_be_bytes(e as u64),
        DatomValueView::String(t) => seq![TAG_STRING] + spec_u64_to_be_bytes(
            encode_utf8(t).len() as u64,
        ) + encode_utf8(t),
    }
}

/// What value bytes decode to. Exactly the byte strings produced by
/// `spec_encode_value` decode to `Some`; every truncated, mistagged,
/// wrongly sized or non-UTF-8 string is malformed.
pub open spec fn spec_decode_value(s: Seq<u8>) -> Option<DatomValueView> {
    if s.len() < 9 {
        None
    } else {
        let tag = s[0];
        if tag == TAG_I64 {
            if s.len() == 9 {
                Some(DatomValueView::I64(spec_u64_from_be_bytes(s.subrange(1, 9)) as i64))
            } else {
                None
            }
        } else if tag == TAG_F64 {
            if s.len() == 9 {
                Some(DatomValueView::F64(spec_u64_from_be_bytes(s.subrange(1, 9))))
            } else {
                None
            }
        } else if tag == TAG_ENTITY {
            if s.len() == 9 {
                Some(DatomValueView::Entity(spec_u64_from_be_bytes(s.subrange(1, 9)) as i64))
            } else {
                None
            }
        } else if tag == TAG_STRING {
            let n = spec_u64_from_be_bytes(s.subrange(1, 9));
            let body = s.subrange(9, s.len() as int);
            if body.len() == n && valid_utf8(body) {
                Some(DatomValueView::String(decode_utf8(body)))
            } else {
                None
            }
        } else {
            None
        }
    }
}

/// Whether a value is small enough for its encoding to carry an exact
/// length prefix: every value an executable program can build is.
pub open spec fn value_in_range(v: DatomValueView) -> bool {
    match v {
        DatomValueView::String(t) => encode_utf8(t).len() <= u64::MAX,
        _ => true,
    }
}

/// Relies on `alloc::string::String::from_utf8`: it returns the decoded
/// string exactly when the bytes are valid UTF-8, and rejects them
/// otherwise.
#[verifier::external_body]
fn string_from_utf8(bytes: Vec<u8>) -> (r: Option<String>)
    ensures
        r is Some <==> valid_utf8(bytes@),
        r matches Some(s) ==> s@ == decode_utf8(bytes@),
{
    String::from_utf8(bytes).ok()
}

/// Encodes a value; deterministic and total.
pub fn encode_value(v: &DatomValue) -> (r: Vec<u8>)
    ensures
        r@ == spec_encode_value(v@),
{
    let mut out: Vec<u8> = Vec::new();
    match v {
        DatomValue::I64(n) => {
            out.push(TAG_I64);
            push_u64_be(&mut out, *n as u64);
            proof {
                assert(out@ =~= spec_encode_value(v@));
            }
        },
        DatomValue::F64(bits) => {
            out.push(TAG_F64);
            push_u64_be(&mut out, *bits);
            proof {
                assert(out@ =~= spec_encode_value(v@));
            }
        },
        DatomValue::Entity(e) => {
            out.push(TAG_ENTITY);
            push_u64_be(&mut out, *e as u64);
            proof {
                assert(out@ =~= spec_encode_value(v@));
            }
        },
        DatomValue::String(s) => {
            out.push(TAG_STRING);
            let bytes: &[u8] = s.as_str().as_bytes();
            push_u64_be(&mut out, bytes.len() as u64);
            out.extend_from_slice(bytes);
            proof {
                assert(out@ =~= spec_encode_value(v@));
            }
        },
    }
    out
}

/// Decodes a value; fails with `DecodeError` exactly on the byte strings
/// that `spec_decode_value` calls malformed.
pub fn decode_value(s: &[u8]) -> (r: Result<DatomValue, LogError>)
    ensures
        match r {
            Ok(v) => spec_decode_value(s@) == Some(v@),
            Err(e) => e == LogError::DecodeError && spec_decode_value(s@) is None,
        },
{
    if s.len() < 9 {
        return Err(LogError::DecodeError);
    }
    let tag = s[0];
    if tag == TAG_I64 {
        if s.len() == 9 {
            let x = u64_from_be_bytes(slice_subrange(s, 1, 9));
            Ok(DatomValue::I64(x as i64))
        } else {
            Err(LogError::DecodeError)
        }
    } else if tag == TAG_F64 {
        if s.len() == 9 {
            let x = u64_from_be_bytes(slice_subrange(s, 1, 9));
            Ok(DatomValue::F64(x))
        } else {
            Err(LogError::DecodeError)
        }
    } else if tag == TAG_ENTITY {
        if s.len() == 9 {
            let x = u64_from_be_bytes(slice_subrange(s, 1, 9));
            Ok(DatomValue::Entity(x as i64))
        } else {
            Err(LogError::DecodeError)
        }
    } else if tag == TAG_STRING {
        let n = u64_from_be_bytes(slice_subrange(s, 1, 9));
        let body_len: usize = s.len() - 9;
        if n == body_len as u64 {
            let body = slice_to_vec(slice_subrange(s, 9, s.len()));
            match string_from_utf8(body) {
                Some(st) => Ok(DatomValue::String(st)),
                None => Err(LogError::DecodeError),
            }
        } else {
            Err(LogError::DecodeError)
        }
    } else {
        Err(LogError::DecodeError)
    }
}

/// The bytes a log datom is encoded as: entity, attribute, direction
/// byte, then the value, all positional.
pub open spec fn spec_encode_datom(d: TransactionLogDatomView) -> Seq<u8> {
    spec_u64_to_be_bytes(d.entity as u64) + spec_u64_to_be_bytes(d.attribute as u64) + seq![
        spec_encode_direction(d.direction),
    ] + spec_encode_value(d.value)
}

/// What datom bytes decode to; any truncation or unknown tag is
/// malformed.
pub open spec fn spec_decode_datom(s: Seq<u8>) -> Option<TransactionLogDatomView> {
    if s.len() < 17 {
        None
    } else {
        let entity = spec_u64_from_be_bytes(s.subrange(0, 8)) as i64;
        let attribute = spec_u64_from_be_bytes(s.subrange(8, 16)) as i64;
        match spec_decode_direction(s[16]) {
            Some(direction) => match spec_decode_value(s.subrange(17, s.len() as int)) {
                Some(value) => Some(
                    TransactionLogDatomView { entity, attribute, direction, value },
                ),
                None => None,
            },
            None => None,
        }
    }
}

/// Whether a datom is small enough for an exact encoding; every datom an
/// executable program can build is.
pub open spec fn datom_in_range(d: TransactionLogDatomView) -> bool {
    value_in_range(d.value)
}

/// Encodes a log datom; deterministic and total.
pub fn encode_datom(d: &TransactionLogDatom) -> (r: Vec<u8>)
    ensures
        r@ == spec_encode_datom(d@),
{
    let mut out: Vec<u8> = Vec::new();
    push_u64_be(&mut out, d.entity as u64);
    push_u64_be(&mut out, d.attribute as u64);
    out.push(encode_direction(d.direction));
    let val = encode_value(&d.value);
    out.extend_from_slice(val.as_slice());
    proof {
        assert(out@ =~= spec_encode_datom(d@));
    }
    out
}

/// Decodes a log datom; fails with `DecodeError` exactly on the byte
/// strings that `spec_decode_datom` calls malformed.
pub fn decode_datom(s: &[u8]) -> (r: Result<TransactionLogDatom, LogError>)
    ensures
        match r {
            Ok(d) => spec_decode_datom(s@) == Some(d@),
            Err(e) => e == LogError::DecodeError && spec_decode_datom(s@) is None,
        },
{
    if s.len() < 17 {
        return Err(LogError::DecodeError);
    }
    let entity = u64_from_be_bytes(slice_subrange(s, 0, 8)) as i64;
    let attribute = u64_from_be_bytes(slice_subrange(s, 8, 16)) as i64;
    let dir_byte = s[16];
    let direction = if dir_byte == DIR_ASSERT {
        Direction::Assert
    } else if dir_byte == DIR_RETRACT {
        Direction::Retract
    } else {
        return Err(LogError::DecodeError);
    };
    match decode_value(slice_subrange(s, 17, s.len())) {
        Ok(value) => Ok(TransactionLogDatom { entity, attribute, direction, value }),
        Err(e) => Err(e),
    }
}

/// Round trip for values: decoding an encoded value gives the value back.
pub proof fn lemma_value_round_trip(v: DatomValueView)
    requires
        value_in_range(v),
    ensures
        spec_decode_value(spec_encode_value(v)) == Some(v),
{
    lemma_u64_be_bytes_round_trip();
    let enc = spec_encode_value(v);
    match v {
        DatomValueView::I64(n) => {
            assert(enc.subrange(1, 9) =~= spec_u64_to_be_bytes(n as u64));
            assert((n as u64) as i64 == n) by (bit_vector);
        },
        DatomValueView::F64(bits) => {
            assert(enc.subrange(1, 9) =~= spec_u64_to_be_bytes(bits));
        },
        DatomValueView::Entity(e) => {
            assert(enc.subrange(1, 9) =~= spec_u64_to_be_bytes(e as u64));
            assert((e as u64) as i64 == e) by (bit_vector);
        },
        DatomValueView::String(t) => {
            encode_utf8_valid_utf8(t);
            encode_utf8_decode_utf8(t);
            let bytes = encode_utf8(t);
            assert(enc.subrange(1, 9) =~= spec_u64_to_be_bytes(bytes.len() as u64));
            assert(enc.subrange(9, enc.len() as int) =~= bytes);
        },
    }
}

/// Round trip for datoms: decoding an encoded datom gives the datom back.
pub proof fn lemma_datom_round_trip(d: TransactionLogDatomView)
    requires
        datom_in_range(d),
    ensures
        spec_decode_datom(spec_encode_datom(d)) == Some(d),
{
    lemma_u64_be_bytes_round_trip();
    lemma_value_round_trip(d.value);
    let enc = spec_encode_datom(d);
    assert(enc.subrange(0, 8) =~= spec_u64_to_be_bytes(d.entity as u64));
    assert(enc.subrange(8, 16) =~= spec_u64_to_be_bytes(d.attribute as u64));
    assert(enc[16] == spec_encode_direction(d.direction));
    assert(enc.subrange(17, enc.len() as int) =~= spec_encode_value(d.value));
    let ent = d.entity;
    let attr = d.attribute;
    assert((ent as u64) as i64 == ent) by (bit_vector);
    assert((attr as u64) as i64 == attr) by (bit_vector);
}

} // verus!
