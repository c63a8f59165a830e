//! Operators of query plans, on batches of rows in memory.

use vstd::prelude::*;

pub mod agg_laws;
pub mod aggregation;
pub mod aggs;
pub mod batch;
pub mod groups;
pub mod plan;
pub mod query;
pub mod row_laws;
pub mod scan;
pub mod scan_laws;
pub mod storage;
pub mod success_laws;

verus! {

} // verus!
