//! Transaction-log layer of a fact-oriented ("datom") store.
//!
//! The log assigns monotonically increasing transaction indices, encodes
//! immutable assert/retract facts into an append-only key-value backend,
//! and reconstructs fully qualified facts (fact plus the transaction that
//! produced it) on read.

pub mod codec;
pub mod datom;
pub mod log;
pub mod schema;
pub mod store;

pub use datom::DatomValue;
pub use datom::Entity;
pub use datom::DatomValueView;
pub use datom::Direction;
pub use datom::FullStorageDatum;
pub use datom::FullStorageDatumView;
pub use datom::LogError;
pub use datom::TransactionLogDatom;
pub use datom::TransactionLogDatomView;
pub use datom::TrxIndex;
pub use datom::to_full;
pub use log::append;
pub use log::load;
pub use log::next_index;
pub use schema::AttributeValue;
pub use schema::Cardinality;
pub use schema::ValueType;
pub use store::Backend;
