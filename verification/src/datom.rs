//! The data model of the transaction log: directions, values, datoms, and
//! the error taxonomy of the append/load protocol.

use vstd::prelude::*;

verus! {

/// An entity identifier: a 64-bit signed integer naming a logical thing,
/// whether subject, attribute, or referenced value.
pub type Entity = i64;

/// A transaction index: assigned exactly once per committed log entry,
/// strictly increasing, and doubling as the entry's storage key.
pub type TrxIndex = u64;

/// Whether a fact is being added to or withdrawn from the log. A retraction
/// is just a tagged entry; it never deletes prior state.
#[derive(Debug, PartialEq, Eq, Structural, Clone, Copy)]
pub enum Direction {
    Assert,
    Retract,
}

/// The value slot of a datom: exactly one variant is populated.
///
/// A 64-bit float is carried as its IEEE-754 bit pattern (`u64`), so that
/// the log layer stays on plain integer data; callers that work with `f64`
/// convert with `f64::to_bits` / `f64::from_bits` at the boundary.
#[derive(Debug, PartialEq, Clone)]
pub enum DatomValue {
    I64(i64),
    F64(u64),
    Entity(Entity),
    String(String),
}

/// The mathematical model of a `DatomValue`: the string is a character
/// sequence, everything else is carried as is.
pub enum DatomValueView {
    I64(i64),
    F64(u64),
    Entity(Entity),
    String(Seq<char>),
}

impl View for DatomValue {
    type V = DatomValueView;

    open spec fn view(&self) -> DatomValueView {
        match self {
            DatomValue::I64(n) => DatomValueView::I64(*n),
            DatomValue::F64(bits) => DatomValueView::F64(*bits),
            DatomValue::Entity(e) => DatomValueView::Entity(*e),
            DatomValue::String(s) => DatomValueView::String(s@),
        }
    }
}

/// The unit a caller submits to the log. It carries no transaction index:
/// the index is assigned by the log, not by the caller.
#[derive(Debug, PartialEq, Clone)]
pub struct TransactionLogDatom {
    pub entity: Entity,
    pub attribute: Entity,
    pub direction: Direction,
    pub value: DatomValue,
}

/// The mathematical model of a `TransactionLogDatom`.
pub struct TransactionLogDatomView {
    pub entity: Entity,
    pub attribute: Entity,
    pub direction: Direction,
    pub value: DatomValueView,
}

impl View for TransactionLogDatom {
    type V = TransactionLogDatomView;

    open spec fn view(&self) -> TransactionLogDatomView {
        TransactionLogDatomView {
            entity: self.entity,
            attribute: self.attribute,
            direction: self.direction,
            value: self.value@,
        }
    }
}

/// A `TransactionLogDatom` enriched with the transaction index it was
/// stored under; this is what reads return.
#[derive(Debug, PartialEq, Clone)]
pub struct FullStorageDatum {
    pub entity: Entity,
    pub attribute: Entity,
    pub direction: Direction,
    pub tx: TrxIndex,
    pub value: DatomValue,
}

/// The mathematical model of a `FullStorageDatum`.
pub struct FullStorageDatumView {
    pub entity: Entity,
    pub attribute: Entity,
    pub direction: Direction,
    pub tx: TrxIndex,
    pub value: DatomValueView,
}

impl View for FullStorageDatum {
    type V = FullStorageDatumView;

    open spec fn view(&self) -> FullStorageDatumView {
        FullStorageDatumView {
            entity: self.entity,
            attribute: self.attribute,
            direction: self.direction,
            tx: self.tx,
            value: self.value@,
        }
    }
}

/// What `d` looks like once the log has attached the index `tx` to it.
pub open spec fn spec_to_full(tx: TrxIndex, d: TransactionLogDatomView) -> FullStorageDatumView {
    FullStorageDatumView {
        entity: d.entity,
        attribute: d.attribute,
        direction: d.direction,
        tx: tx,
        value: d.value,
    }
}

/// Attaches an assigned transaction index to a log datom, yielding the
/// fully qualified fact that reads return.
pub fn to_full(tx: TrxIndex, datum: TransactionLogDatom) -> (r: FullStorageDatum)
    ensures
        r@ == spec_to_full(tx, datum@),
{
    FullStorageDatum {
        entity: datum.entity,
        attribute: datum.attribute,
        direction: datum.direction,
        tx: tx,
        value: datum.value,
    }
}

/// Why an operation of the log failed.
#[derive(Debug, PartialEq, Eq, Structural, Clone, Copy)]
pub enum LogError {
    /// Stored bytes do not match the expected shape for the target type.
    DecodeError,
    /// A load asked for an index that was never assigned; carries that index.
    NotFound(TrxIndex),
    /// The counter has reached the largest representable index, so no
    /// further index can be issued.
    IndexExhausted,
}

} // verus!
