//! Building blocks for reading Delta tables: scalars and expressions, SQL predicates, engine data,
//! file statistics, schema compatibility and timestamp queries over the Delta log.
//!
//! Everything in this crate is pure: I/O is done by the caller, which hands in what it read and
//! acts on what comes back.

use vstd::prelude::*;

pub mod engine;
pub mod engine_data;
pub mod error;
pub mod expressions;
pub mod history_manager;
pub mod number;
pub mod schema;
pub mod schema_laws;
pub mod text;

verus! {

/// A table version.
pub type Version = u64;

/// The size of a file in bytes.
pub type FileSize = u64;

/// The metadata that describes a file: where it is, when it was last modified (milliseconds since
/// the Unix epoch) and how large it is.
#[derive(Debug)]
pub struct FileMeta {
    /// The fully qualified path to the file.
    pub location: String,
    /// The last modified time as milliseconds since the Unix epoch.
    pub last_modified: i64,
    /// The size in bytes of the file.
    pub size: FileSize,
}

} // verus!
