//! What engines share: how Arrow types fit the library's types, what file statistics say, and how
//! operations are routed.

use vstd::prelude::*;

pub mod arrow_types;
pub mod bound_laws;
pub mod cast_laws;
pub mod ensure_data_types;
pub mod parquet_row_group_skipping;
pub mod plans;
pub mod skipping_laws;
pub mod statistics;
pub mod sync;
pub mod type_laws;

verus! {

} // verus!
