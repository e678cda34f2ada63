//! Conversion of raw on-chain call-trace counters into a flat, columnar table
//! of function-selector usage records.
//!
//! Each encoded trace key is decoded into a 4-byte function selector plus a
//! call-data size, and one output row is emitted per (transaction, selector)
//! pair with its occurrence count. Columns are populated only when the active
//! schema requests them.

pub mod aggregate;
pub mod error;
pub mod parse;
pub mod schema;
pub mod selector;
pub mod table;

pub use aggregate::process_storage_reads;
pub use aggregate::TraceResponse;
pub use error::CollectError;
pub use parse::parse_signature_size;
pub use schema::Schema;
pub use schema::Schemas;
pub use selector::selector_from_signature;
pub use table::FourByteCounts;
