//! The append/load protocol: the index allocator and the transaction log
//! itself, built on the codec and the backend.
//!
//! The allocator keeps the next index to issue under one fixed counter
//! key; `append` obtains a fresh index, stores the encoded datom under
//! the encoded index, and returns the index; `load` reads an index back
//! as a fully qualified fact. The counter is read and then written as two
//! separate backend operations, so all appends against one backend must
//! go through a single writer at a time; within one process Rust enforces
//! that, since the writing operations take the backend by exclusive
//! reference.

use vstd::prelude::*;

use crate::codec::datom_in_range;
use crate::codec::decode_datom;
use crate::codec::decode_trx_index;
use crate::codec::encode_datom;
use crate::codec::lemma_datom_round_trip;
use crate::codec::lemma_u64_be_bytes_round_trip;
use crate::codec::spec_decode_datom;
use crate::codec::spec_decode_trx_index;
use crate::codec::spec_encode_datom;
use crate::codec::spec_trx_index_key;
use crate::codec::spec_u64_from_be_bytes;
use crate::codec::spec_u64_to_be_bytes;
use crate::codec::trx_index_to_key;
use crate::datom::FullStorageDatum;
use crate::datom::LogError;
use crate::datom::TransactionLogDatom;
use crate::datom::TransactionLogDatomView;
use crate::datom::TrxIndex;
use crate::datom::spec_to_full;
use crate::datom::to_full;
use crate::store::Backend;

verus! {

/// The fixed key the allocator's counter lives under: the ASCII bytes of
/// `TRX_LOG_INDEX`. It is 13 bytes long, so it can never collide with an
/// 8-byte index key.
pub open spec fn spec_counter_key() -> Seq<u8> {
    seq![84u8, 82u8, 88u8, 95u8, 76u8, 79u8, 71u8, 95u8, 73u8, 78u8, 68u8, 69u8, 88u8]
}

/// Builds the counter key.
pub fn counter_key() -> (r: Vec<u8>)
    ensures
        r@ == spec_counter_key(),
{
    let mut k: Vec<u8> = Vec::new();
    k.push(84);
    k.push(82);
    k.push(88);
    k.push(95);
    k.push(76);
    k.push(79);
    k.push(71);
    k.push(95);
    k.push(73);
    k.push(78);
    k.push(68);
    k.push(69);
    k.push(88);
    proof {
        assert(k@ =~= spec_counter_key());
    }
    k
}

/// Whether the counter entry of `m` is well formed: absent (a fresh
/// store, read as 0) or decodable as a stored index. An undecodable
/// counter is surfaced as an error, never silently reset to 0.
pub open spec fn counter_ok(m: Map<Seq<u8>, Seq<u8>>) -> bool {
    m.contains_key(spec_counter_key()) ==> spec_decode_trx_index(m[spec_counter_key()]) is Some
}

/// The next index the allocator will issue on `m`: 0 on a fresh store,
/// else the stored counter value. Meaningful when `counter_ok(m)` holds.
pub open spec fn spec_next_index(m: Map<Seq<u8>, Seq<u8>>) -> u64 {
    if m.contains_key(spec_counter_key()) {
        spec_u64_from_be_bytes(m[spec_counter_key()])
    } else {
        0
    }
}

/// Issues the next transaction index: reads the counter (0 when the
/// counter key was never written), persists its successor under the same
/// key, and returns the pre-increment value. No key but the counter key
/// is touched. Fails, leaving the backend unchanged, when the stored
/// counter is undecodable or when every index is already spent.
pub fn next_index(backend: &mut Backend) -> (r: Result<TrxIndex, LogError>)
    ensures
        match r {
            Ok(idx) => {
                &&& counter_ok(old(backend).contents())
                &&& idx == spec_next_index(old(backend).contents())
                &&& idx < u64::MAX
                &&& final(backend).contents() == old(backend).contents().insert(
                    spec_counter_key(),
                    spec_u64_to_be_bytes((idx + 1) as u64),
                )
            },
            Err(e) => {
                &&& final(backend).contents() == old(backend).contents()
                &&& (e == LogError::DecodeError || e == LogError::IndexExhausted)
                &&& (e == LogError::DecodeError <==> !counter_ok(old(backend).contents()))
                &&& (e == LogError::IndexExhausted ==> counter_ok(old(backend).contents())
                    && spec_next_index(old(backend).contents()) == u64::MAX)
            },
        },
{
    let ck = counter_key();
    let current: u64;
    match backend.get(ck.as_slice()) {
        Some(stored) => {
            match decode_trx_index(stored.as_slice()) {
                Ok(x) => {
                    current = x;
                },
                Err(e) => {
                    return Err(e);
                },
            }
        },
        None => {
            current = 0;
        },
    }
    if current == u64::MAX {
        return Err(LogError::IndexExhausted);
    }
    let successor = trx_index_to_key(current + 1);
    backend.put(ck, successor);
    Ok(current)
}

/// The contents an append with index `idx` leaves behind: the counter
/// advanced to the successor, and the encoded datom stored under the
/// encoded index.
pub open spec fn spec_append_contents(
    m: Map<Seq<u8>, Seq<u8>>,
    d: TransactionLogDatomView,
    idx: u64,
) -> Map<Seq<u8>, Seq<u8>>
    recommends
        idx < u64::MAX,
{
    m.insert(spec_counter_key(), spec_u64_to_be_bytes((idx + 1) as u64)).insert(
        spec_trx_index_key(idx),
        spec_encode_datom(d),
    )
}

/// Appends a datom: obtains a fresh index from the allocator, stores the
/// encoded datom under the encoded index, and returns the index. Fails,
/// leaving the backend unchanged, exactly when the allocator fails.
pub fn append(backend: &mut Backend, datum: &TransactionLogDatom) -> (r: Result<
    TrxIndex,
    LogError,
>)
    ensures
        match r {
            Ok(idx) => {
                &&& counter_ok(old(backend).contents())
                &&& idx == spec_next_index(old(backend).contents())
                &&& idx < u64::MAX
                &&& final(backend).contents() == spec_append_contents(
                    old(backend).contents(),
                    datum@,
                    idx,
                )
            },
            Err(e) => {
                &&& final(backend).contents() == old(backend).contents()
                &&& (e == LogError::DecodeError || e == LogError::IndexExhausted)
                &&& (e == LogError::DecodeError <==> !counter_ok(old(backend).contents()))
                &&& (e == LogError::IndexExhausted ==> counter_ok(old(backend).contents())
                    && spec_next_index(old(backend).contents()) == u64::MAX)
            },
        },
{
    let idx = match next_index(backend) {
        Ok(i) => i,
        Err(e) => {
            return Err(e);
        },
    };
    let key = trx_index_to_key(idx);
    let value = encode_datom(datum);
    backend.put(key, value);
    Ok(idx)
}

/// What `load` promises of its result on contents `m`: present and
/// decodable gives the decoded datom with the index attached; an index
/// never assigned gives `NotFound` carrying that index, and only that
/// gives `NotFound`; stored bytes that are truncated or garbled give
/// `DecodeError`, and only that gives `DecodeError`. Nothing is ever
/// masked by a default value.
pub open spec fn load_result_post(
    m: Map<Seq<u8>, Seq<u8>>,
    trx_index: TrxIndex,
    r: Result<FullStorageDatum, LogError>,
) -> bool {
    match r {
        Ok(f) => {
            &&& m.contains_key(spec_trx_index_key(trx_index))
            &&& (spec_decode_datom(m[spec_trx_index_key(trx_index)]) matches Some(dv) && f@
                == spec_to_full(trx_index, dv))
        },
        Err(e) => {
            &&& (e == LogError::NotFound(trx_index) || e == LogError::DecodeError)
            &&& (e == LogError::NotFound(trx_index) <==> !m.contains_key(
                spec_trx_index_key(trx_index),
            ))
            &&& (e == LogError::DecodeError <==> m.contains_key(spec_trx_index_key(trx_index))
                && spec_decode_datom(m[spec_trx_index_key(trx_index)]) is None)
        },
    }
}

/// Loads the entry stored under `trx_index` and reattaches the index as
/// the `tx` field of the returned fact.
pub fn load(backend: &Backend, trx_index: TrxIndex) -> (r: Result<FullStorageDatum, LogError>)
    ensures
        load_result_post(backend.contents(), trx_index, r),
{
    let key = trx_index_to_key(trx_index);
    match backend.get(key.as_slice()) {
        None => Err(LogError::NotFound(trx_index)),
        Some(stored) => match decode_datom(stored.as_slice()) {
            Ok(d) => Ok(to_full(trx_index, d)),
            Err(e) => Err(e),
        },
    }
}

/// An index key never collides with the counter key: the two differ in
/// length.
pub proof fn lemma_index_key_not_counter_key(idx: u64)
    ensures
        spec_trx_index_key(idx) != spec_counter_key(),
{
    lemma_u64_be_bytes_round_trip();
    assert(spec_trx_index_key(idx).len() == 8);
    assert(spec_counter_key().len() == 13);
}

/// Monotonicity, one step: in the state an append with index `idx`
/// leaves behind, the counter is well formed and the next index to be
/// issued is exactly `idx + 1`.
pub proof fn lemma_append_advances_counter(
    m: Map<Seq<u8>, Seq<u8>>,
    d: TransactionLogDatomView,
    idx: u64,
)
    requires
        idx < u64::MAX,
    ensures
        counter_ok(spec_append_contents(m, d, idx)),
        spec_next_index(spec_append_contents(m, d, idx)) == idx + 1,
{
    lemma_u64_be_bytes_round_trip();
    lemma_index_key_not_counter_key(idx);
}

/// The contents after appending each datom of `ds` in order, the first
/// one issued index `start`.
pub open spec fn spec_append_all(
    m: Map<Seq<u8>, Seq<u8>>,
    ds: Seq<TransactionLogDatomView>,
    start: u64,
) -> Map<Seq<u8>, Seq<u8>>
    recommends
        start + ds.len() <= u64::MAX,
    decreases ds.len(),
{
    if ds.len() == 0 {
        m
    } else {
        spec_append_all(
            spec_append_contents(m, ds[0], start),
            ds.subrange(1, ds.len() as int),
            (start + 1) as u64,
        )
    }
}

/// Monotonicity over a run: starting from a state whose next index is
/// `start`, a run of appends issues the consecutive indices `start`,
/// `start + 1`, and so on, in call order — each append returns the next
/// index of the state it runs on, and after the whole run the counter
/// stands at `start` plus the length of the run.
pub proof fn lemma_append_run_monotonic(
    m: Map<Seq<u8>, Seq<u8>>,
    ds: Seq<TransactionLogDatomView>,
    start: u64,
)
    requires
        counter_ok(m),
        spec_next_index(m) == start,
        start + ds.len() <= u64::MAX,
    ensures
        counter_ok(spec_append_all(m, ds, start)),
        spec_next_index(spec_append_all(m, ds, start)) == start + ds.len(),
    decreases ds.len(),
{
    if ds.len() > 0 {
        lemma_append_advances_counter(m, ds[0], start);
        lemma_append_run_monotonic(
            spec_append_contents(m, ds[0], start),
            ds.subrange(1, ds.len() as int),
            (start + 1) as u64,
        );
    }
}

/// Monotonicity, stated per call: within a run of appends starting from
/// next index `start`, the call that performs the `k`-th append (zero
/// based) runs on a state whose next index is `start + k`, so it is
/// issued exactly `start + k` — the run returns the consecutive indices
/// `start` through `start + N - 1`, in call order.
pub proof fn lemma_append_run_issues_consecutive(
    m: Map<Seq<u8>, Seq<u8>>,
    ds: Seq<TransactionLogDatomView>,
    start: u64,
    k: int,
)
    requires
        counter_ok(m),
        spec_next_index(m) == start,
        start + ds.len() <= u64::MAX,
        0 <= k < ds.len(),
    ensures
        counter_ok(spec_append_all(m, ds.take(k), start)),
        spec_next_index(spec_append_all(m, ds.take(k), start)) == start + k,
{
    lemma_append_run_monotonic(m, ds.take(k), start);
}

/// Read-after-write: any result that `load` may return on the state an
/// append of `d` with index `idx` left behind is the appended datom with
/// `idx` attached as its `tx` field.
pub proof fn lemma_read_after_write(
    m: Map<Seq<u8>, Seq<u8>>,
    d: TransactionLogDatomView,
    idx: u64,
    r: Result<FullStorageDatum, LogError>,
)
    requires
        idx < u64::MAX,
        datom_in_range(d),
        load_result_post(spec_append_contents(m, d, idx), idx, r),
    ensures
        r matches Ok(f) && f@ == spec_to_full(idx, d),
{
    lemma_datom_round_trip(d);
}

/// A state the protocol can reach: the counter is well formed, and a log
/// entry sits only under an index the allocator has already issued.
pub open spec fn log_wf(m: Map<Seq<u8>, Seq<u8>>) -> bool {
    &&& counter_ok(m)
    &&& forall|i: u64| m.contains_key(#[trigger] spec_trx_index_key(i)) ==> i < spec_next_index(m)
}

/// The log is append-only: on a well-formed state, an append writes its
/// datom under a key never written before (the one absent-to-present
/// transition), leaves every entry already present unchanged, and keeps
/// the state well formed. A fresh store is well formed, since it holds
/// no key at all.
pub proof fn lemma_append_only(m: Map<Seq<u8>, Seq<u8>>, d: TransactionLogDatomView, idx: u64)
    requires
        log_wf(m),
        idx == spec_next_index(m),
        idx < u64::MAX,
    ensures
        !m.contains_key(spec_trx_index_key(idx)),
        log_wf(spec_append_contents(m, d, idx)),
        forall|i: u64|
            i != idx && m.contains_key(#[trigger] spec_trx_index_key(i))
                ==> spec_append_contents(m, d, idx)[spec_trx_index_key(i)] == m[spec_trx_index_key(
                i,
            )],
{
    lemma_u64_be_bytes_round_trip();
    lemma_index_key_not_counter_key(idx);
    lemma_append_advances_counter(m, d, idx);
    let m2 = spec_append_contents(m, d, idx);
    assert forall|i: u64| m2.contains_key(#[trigger] spec_trx_index_key(i)) implies i
        < spec_next_index(m2) by {
        if spec_trx_index_key(i) == spec_trx_index_key(idx) {
            assert(i == idx);
        } else {
            lemma_index_key_not_counter_key(i);
        }
    }
    assert forall|i: u64|
        i != idx && m.contains_key(#[trigger] spec_trx_index_key(i)) implies m2[spec_trx_index_key(
        i,
    )] == m[spec_trx_index_key(i)] by {
        lemma_index_key_not_counter_key(i);
        assert(spec_u64_from_be_bytes(spec_trx_index_key(i)) == i);
        assert(spec_u64_from_be_bytes(spec_trx_index_key(idx)) == idx);
    }
}

} // verus!
