//! Reader for the db721 columnar table format.
//!
//! A db721 file holds fixed-width column values in blocks, followed by a JSON
//! catalog and a four-byte length. This crate frames the catalog, models it,
//! decodes blocks into typed values and drives a per-column scan that skips
//! blocks whose statistics rule them out.

pub mod block;
pub mod builder;
pub mod column;
pub mod error;
pub mod field;
pub mod key;
pub mod kind;
pub mod laws;
pub mod order;
pub mod runs;
pub mod scan;
pub mod stats;
pub mod table;
pub mod trailer;
pub mod value;
