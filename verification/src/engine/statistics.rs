//! What the footer of a Parquet file says of the columns of a row group.

use vstd::prelude::*;

use crate::expressions::floats::{Float32, Float64};

verus! {

/// The bounds of the values of a column, and how many are null, as far as they are known.
#[derive(Debug)]
pub struct ValueStatistics<T> {
    /// The least value.
    pub min: Option<T>,
    /// The greatest value.
    pub max: Option<T>,
    /// How many values differ from one another.
    pub distinct_count: Option<u64>,
    /// How many values are null.
    pub null_count: Option<u64>,
    /// Whether the bounds stand where files of old had them.
    pub is_min_max_deprecated: bool,
}

/// A 32-bit floating-point number, and the same number in 64 bits.
#[derive(Debug)]
pub struct FloatBound {
    /// The number in 32 bits.
    pub value: Float32,
    /// The number in 64 bits.
    pub widened: Float64,
}

/// The statistics of a column, by the type that its values are stored in.
#[derive(Debug)]
pub enum Statistics {
    /// True or false.
    Boolean(ValueStatistics<bool>),
    /// Integers of 32 bits.
    Int32(ValueStatistics<i32>),
    /// Integers of 64 bits.
    Int64(ValueStatistics<i64>),
    /// Times of 96 bits, by their words.
    Int96(ValueStatistics<(u32, u32, u32)>),
    /// Floating-point numbers of 32 bits.
    Float(ValueStatistics<FloatBound>),
    /// Floating-point numbers of 64 bits.
    Double(ValueStatistics<Float64>),
    /// Bytes.
    ByteArray(ValueStatistics<Vec<u8>>),
    /// Bytes, as many in each value.
    FixedLenByteArray(ValueStatistics<Vec<u8>>),
}

impl Statistics {
    /// The statistics of a column of integers of 32 bits.
    pub fn int32(
        min: Option<i32>,
        max: Option<i32>,
        distinct_count: Option<u64>,
        null_count: Option<u64>,
        is_min_max_deprecated: bool,
    ) -> (r: Statistics)
        ensures
            r == Statistics::Int32(
                ValueStatistics { min, max, distinct_count, null_count, is_min_max_deprecated },
            ),
    {
        Statistics::Int32(ValueStatistics { min, max, distinct_count, null_count, is_min_max_deprecated })
    }

    /// The statistics of a column of integers of 64 bits.
    pub fn int64(
        min: Option<i64>,
        max: Option<i64>,
        distinct_count: Option<u64>,
        null_count: Option<u64>,
        is_min_max_deprecated: bool,
    ) -> (r: Statistics)
        ensures
            r == Statistics::Int64(
                ValueStatistics { min, max, distinct_count, null_count, is_min_max_deprecated },
            ),
    {
        Statistics::Int64(ValueStatistics { min, max, distinct_count, null_count, is_min_max_deprecated })
    }

    /// The statistics of a column of bytes.
    pub fn byte_array(
        min: Option<Vec<u8>>,
        max: Option<Vec<u8>>,
        distinct_count: Option<u64>,
        null_count: Option<u64>,
        is_min_max_deprecated: bool,
    ) -> (r: Statistics)
        ensures
            r == Statistics::ByteArray(
                ValueStatistics { min, max, distinct_count, null_count, is_min_max_deprecated },
            ),
    {
        Statistics::ByteArray(ValueStatistics { min, max, distinct_count, null_count, is_min_max_deprecated })
    }

    /// The statistics of a column of bytes, as many in each value.
    pub fn fixed_len_byte_array(
        min: Option<Vec<u8>>,
        max: Option<Vec<u8>>,
        distinct_count: Option<u64>,
        null_count: Option<u64>,
        is_min_max_deprecated: bool,
    ) -> (r: Statistics)
        ensures
            r == Statistics::FixedLenByteArray(
                ValueStatistics { min, max, distinct_count, null_count, is_min_max_deprecated },
            ),
    {
        Statistics::FixedLenByteArray(ValueStatistics { min, max, distinct_count, null_count, is_min_max_deprecated })
    }

    /// How many values are null.
    pub open spec fn nulls(self) -> Option<u64> {
        match self {
            Statistics::Boolean(s) => s.null_count,
            Statistics::Int32(s) => s.null_count,
            Statistics::Int64(s) => s.null_count,
            Statistics::Int96(s) => s.null_count,
            Statistics::Float(s) => s.null_count,
            Statistics::Double(s) => s.null_count,
            Statistics::ByteArray(s) => s.null_count,
            Statistics::FixedLenByteArray(s) => s.null_count,
        }
    }

    /// How many values are null, if it is known.
    pub fn null_count_opt(&self) -> (r: Option<u64>)
        ensures
            r == self.nulls(),
    {
        match self {
            Statistics::Boolean(s) => s.null_count,
            Statistics::Int32(s) => s.null_count,
            Statistics::Int64(s) => s.null_count,
            Statistics::Int96(s) => s.null_count,
            Statistics::Float(s) => s.null_count,
            Statistics::Double(s) => s.null_count,
            Statistics::ByteArray(s) => s.null_count,
            Statistics::FixedLenByteArray(s) => s.null_count,
        }
    }
}

/// A column of a row group: where it stands in the schema, and its statistics if it has any.
#[derive(Debug)]
pub struct ColumnChunk {
    /// The names on the way from the root of the schema to the column.
    pub path: Vec<String>,
    /// What is known of the values.
    pub statistics: Option<Statistics>,
}

/// A row group: its columns and its number of rows.
#[derive(Debug)]
pub struct RowGroup {
    /// The columns, in the order of the schema.
    pub columns: Vec<ColumnChunk>,
    /// How many rows there are.
    pub num_rows: i64,
}

} // verus!
