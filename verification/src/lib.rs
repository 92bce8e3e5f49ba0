//! A minimal append-only ledger: records are chained by digest linkage (each
//! record carries the digest of its predecessor), and pending entries are
//! batched into one new record on demand.

pub mod digest;
pub mod ledger;

pub use crate::ledger::current_timestamp;
pub use crate::ledger::Block;
pub use crate::ledger::Blockchain;
