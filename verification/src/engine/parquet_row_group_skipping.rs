//! Skipping row groups that hold no row for a predicate, by the statistics in the footer.

use vstd::prelude::*;

use crate::engine::statistics::{ColumnChunk, FloatBound, RowGroup, Statistics};
use crate::expressions::calendar::{micros_from_days, DAY_MICROS, LAST_DAY};
use crate::expressions::column_names::{names_clone, names_view, ColumnName};
use crate::expressions::floats::Float64;
use crate::expressions::scalars::{
    abs, bytes_clone, digit_count, DecimalData, Scalar, ScalarView,
};
use crate::expressions::tree::{PredView, Predicate};
use crate::expressions::tree_walk::{lists, pred_refers};
use crate::schema::{DataType, DecimalType, PrimitiveType, TypeView};
use crate::text::same_text;

verus! {

// ---------------------------------------------------------------------------------------------
// Bounds as scalars
// ---------------------------------------------------------------------------------------------

/// A bound of the values of a column, as it is stored.
pub enum Bound {
    /// True or false.
    Boolean(bool),
    /// An integer of 32 bits.
    Int32(i32),
    /// An integer of 64 bits.
    Int64(i64),
    /// A time of 96 bits.
    Int96,
    /// A floating-point number of 32 bits.
    Float(FloatBound),
    /// A floating-point number of 64 bits.
    Double(Float64),
    /// Bytes.
    ByteArray(Seq<u8>),
    /// Bytes, as many in each value.
    FixedLenByteArray(Seq<u8>),
}

impl Statistics {
    /// The least value, if it is known.
    pub open spec fn min_bound(self) -> Option<Bound> {
        match self {
            Statistics::Boolean(s) => match s.min {
                Some(v) => Some(Bound::Boolean(v)),
                None => None,
            },
            Statistics::Int32(s) => match s.min {
                Some(v) => Some(Bound::Int32(v)),
                None => None,
            },
            Statistics::Int64(s) => match s.min {
                Some(v) => Some(Bound::Int64(v)),
                None => None,
            },
            Statistics::Int96(s) => match s.min {
                Some(_) => Some(Bound::Int96),
                None => None,
            },
            Statistics::Float(s) => match s.min {
                Some(v) => Some(Bound::Float(v)),
                None => None,
            },
            Statistics::Double(s) => match s.min {
                Some(v) => Some(Bound::Double(v)),
                None => None,
            },
            Statistics::ByteArray(s) => match s.min {
                Some(v) => Some(Bound::ByteArray(v@)),
                None => None,
            },
            Statistics::FixedLenByteArray(s) => match s.min {
                Some(v) => Some(Bound::FixedLenByteArray(v@)),
                None => None,
            },
        }
    }

    /// The greatest value, if it is known.
    pub open spec fn max_bound(self) -> Option<Bound> {
        match self {
            Statistics::Boolean(s) => match s.max {
                Some(v) => Some(Bound::Boolean(v)),
                None => None,
            },
            Statistics::Int32(s) => match s.max {
                Some(v) => Some(Bound::Int32(v)),
                None => None,
            },
            Statistics::Int64(s) => match s.max {
                Some(v) => Some(Bound::Int64(v)),
                None => None,
            },
            Statistics::Int96(s) => match s.max {
                Some(_) => Some(Bound::Int96),
                None => None,
            },
            Statistics::Float(s) => match s.max {
                Some(v) => Some(Bound::Float(v)),
                None => None,
            },
            Statistics::Double(s) => match s.max {
                Some(v) => Some(Bound::Double(v)),
                None => None,
            },
            Statistics::ByteArray(s) => match s.max {
                Some(v) => Some(Bound::ByteArray(v@)),
                None => None,
            },
            Statistics::FixedLenByteArray(s) => match s.max {
                Some(v) => Some(Bound::FixedLenByteArray(v@)),
                None => None,
            },
        }
    }
}

/// The number that bytes stand for, the most significant byte first, without a sign.
pub open spec fn big_endian(bytes: Seq<u8>) -> int
    decreases bytes.len(),
{
    if bytes.len() == 0 {
        0
    } else {
        256 * big_endian(bytes.drop_last()) + bytes.last()
    }
}

/// Half of the numbers that 128 bits can hold.
pub const HALF_128: u128 = 0x8000_0000_0000_0000_0000_0000_0000_0000;

/// The number that up to 16 bytes stand for, the most significant byte first: those beyond the
/// positive numbers of 128 bits are negative ones.
pub open spec fn decimal_digits(bytes: Seq<u8>) -> int {
    let n = big_endian(bytes);
    if n < HALF_128 {
        n
    } else {
        n - 2 * HALF_128
    }
}

/// The decimal of a type with those digits, if they are not too many for it.
pub open spec fn decimal_scalar(bits: int, ty: DecimalType) -> Option<ScalarView> {
    if digit_count(abs(bits)) <= ty.precision_spec() {
        Some(ScalarView::Decimal(DecimalData::of(bits as i128, ty)))
    } else {
        None
    }
}

/// The text that bytes stand for, if they are UTF-8.
pub open spec fn text_scalar(bytes: Seq<u8>) -> Option<ScalarView> {
    if vstd::utf8::valid_utf8(bytes) {
        Some(ScalarView::String(vstd::utf8::decode_utf8(bytes)))
    } else {
        None
    }
}

/// The beginning of a day, counted from the Unix epoch, if it is not before the epoch and there is
/// a date for it.
pub open spec fn day_scalar(days: i32) -> Option<ScalarView> {
    if 0 <= days <= LAST_DAY {
        Some(ScalarView::TimestampNtz((days * DAY_MICROS) as i64))
    } else {
        None
    }
}

/// The scalar of a primitive type that a bound stands for, if it stands for one.
pub open spec fn bound_scalar(ty: PrimitiveType, bound: Bound) -> Option<ScalarView> {
    match (ty, bound) {
        (PrimitiveType::String, Bound::ByteArray(bytes)) => text_scalar(bytes),
        (PrimitiveType::String, Bound::FixedLenByteArray(bytes)) => text_scalar(bytes),
        (PrimitiveType::Long, Bound::Int64(v)) => Some(ScalarView::Long(v)),
        (PrimitiveType::Long, Bound::Int32(v)) => Some(ScalarView::Long(v as i64)),
        (PrimitiveType::Integer, Bound::Int32(v)) => Some(ScalarView::Integer(v)),
        (PrimitiveType::Short, Bound::Int32(v)) => Some(ScalarView::Short(v as i16)),
        (PrimitiveType::Byte, Bound::Int32(v)) => Some(ScalarView::Byte(v as i8)),
        (PrimitiveType::Float, Bound::Float(v)) => Some(ScalarView::Float(v.value@)),
        (PrimitiveType::Double, Bound::Double(v)) => Some(ScalarView::Double(v@)),
        (PrimitiveType::Double, Bound::Float(v)) => Some(ScalarView::Double(v.widened@)),
        (PrimitiveType::Boolean, Bound::Boolean(v)) => Some(ScalarView::Boolean(v)),
        (PrimitiveType::Binary, Bound::ByteArray(bytes)) => Some(ScalarView::Binary(bytes)),
        (PrimitiveType::Binary, Bound::FixedLenByteArray(bytes)) => Some(
            ScalarView::Binary(bytes),
        ),
        (PrimitiveType::Date, Bound::Int32(v)) => Some(ScalarView::Date(v)),
        (PrimitiveType::Timestamp, Bound::Int64(v)) => Some(ScalarView::Timestamp(v)),
        (PrimitiveType::TimestampNtz, Bound::Int64(v)) => Some(ScalarView::TimestampNtz(v)),
        (PrimitiveType::TimestampNtz, Bound::Int32(days)) => day_scalar(days),
        (PrimitiveType::Decimal(d), Bound::Int32(v)) => decimal_scalar(v as int, d),
        (PrimitiveType::Decimal(d), Bound::Int64(v)) => decimal_scalar(v as int, d),
        (PrimitiveType::Decimal(d), Bound::FixedLenByteArray(bytes)) => if bytes.len() <= 16 {
            decimal_scalar(decimal_digits(bytes), d)
        } else {
            None
        },
        _ => None,
    }
}

/// The scalar of a type that a bound stands for, if there is a bound and it stands for one.
pub open spec fn bound_value(ty: TypeView, bound: Option<Bound>) -> Option<ScalarView> {
    match (ty, bound) {
        (TypeView::Primitive(ty), Some(bound)) => bound_scalar(ty, bound),
        _ => None,
    }
}

/// What an optional scalar is.
pub open spec fn scalar_opt(scalar: Option<Scalar>) -> Option<ScalarView> {
    match scalar {
        Some(scalar) => Some(scalar@),
        None => None,
    }
}

/// The text of bytes that are UTF-8, and nothing for others, as
/// `parquet::data_type::ByteArray::as_utf8` has it for a byte array that holds these bytes.
#[verifier::external_body]
fn utf8_text(bytes: &[u8]) -> (r: Option<String>)
    ensures
        r is Some <==> vstd::utf8::valid_utf8(bytes@),
        r matches Some(text) ==> text@ == vstd::utf8::decode_utf8(bytes@),
{
    match parquet::data_type::ByteArray::from(bytes.to_vec()).as_utf8() {
        Ok(text) => Some(text.to_owned()),
        Err(_) => None,
    }
}

fn text_from_bytes(bytes: &Option<Vec<u8>>) -> (r: Option<Scalar>)
    ensures
        scalar_opt(r) == match bytes {
            Some(bytes) => text_scalar(bytes@),
            None => None,
        },
{
    match bytes {
        Some(bytes) => match utf8_text(bytes.as_slice()) {
            Some(text) => Some(Scalar::String(text)),
            None => None,
        },
        None => None,
    }
}

fn binary_from_bytes(bytes: &Option<Vec<u8>>) -> (r: Option<Scalar>)
    ensures
        scalar_opt(r) == match bytes {
            Some(bytes) => Some(ScalarView::Binary(bytes@)),
            None => None,
        },
{
    match bytes {
        Some(bytes) => Some(Scalar::Binary(bytes_clone(bytes.as_slice()))),
        None => None,
    }
}

fn decimal_from_integer(bits: i128, ty: DecimalType) -> (r: Option<Scalar>)
    ensures
        scalar_opt(r) == decimal_scalar(bits as int, ty),
{
    match DecimalData::try_new(bits, ty) {
        Ok(data) => Some(Scalar::Decimal(data)),
        Err(_) => None,
    }
}

/// The number that `n` bytes stand for is less than 256 to the power of `n`.
pub proof fn lemma_big_endian_bound(bytes: Seq<u8>, n: nat)
    requires
        n <= bytes.len() <= 16,
    ensures
        0 <= big_endian(bytes.take(n as int)) < vstd::arithmetic::power::pow(256, n),
    decreases n,
{
    reveal(vstd::arithmetic::power::pow);
    if n > 0 {
        lemma_big_endian_bound(bytes, (n - 1) as nat);
        assert(bytes.take(n as int).drop_last() =~= bytes.take(n - 1));
    }
}

/// Sixteen bytes hold the numbers of 128 bits.
pub proof fn lemma_pow_256(n: nat)
    requires
        n <= 16,
    ensures
        vstd::arithmetic::power::pow(256, n) <= 0x1_0000_0000_0000_0000_0000_0000_0000_0000int,
{
    reveal_with_fuel(vstd::arithmetic::power::pow, 17);
}

/// The decimal that bytes stand for, the most significant byte first, if there are bytes, no more
/// than 16, and their number has no more digits than the type allows.
pub fn decimal_from_bytes(bytes: Option<&[u8]>, dtype: DecimalType) -> (r: Option<Scalar>)
    ensures
        scalar_opt(r) == match bytes {
            Some(bytes) => if bytes@.len() <= 16 {
                decimal_scalar(decimal_digits(bytes@), dtype)
            } else {
                None
            },
            None => None,
        },
{
    let bytes: &[u8] = match bytes {
        Some(bytes) => bytes,
        None => {
            return None;
        },
    };
    if bytes.len() > 16 {
        return None;
    }
    let mut n: u128 = 0;
    let mut i: usize = 0;
    while i < bytes.len()
        invariant
            i <= bytes.len() <= 16,
            n == big_endian(bytes@.take(i as int)),
        decreases bytes.len() - i,
    {
        proof {
            lemma_big_endian_bound(bytes@, (i + 1) as nat);
            lemma_pow_256((i + 1) as nat);
            assert(bytes@.take(i + 1).drop_last() =~= bytes@.take(i as int));
        }
        n = n * 256 + bytes[i] as u128;
        i += 1;
    }
    assert(bytes@.take(i as int) =~= bytes@);
    let bits: i128 = if n < HALF_128 {
        n as i128
    } else {
        -((u128::MAX - n) as i128) - 1
    };
    decimal_from_integer(bits, dtype)
}

/// The beginning of a day, counted from the Unix epoch, if there is a day, it is not before the
/// epoch and there is a date for it.
pub fn timestamp_from_date(days: Option<i32>) -> (r: Option<Scalar>)
    ensures
        scalar_opt(r) == match days {
            Some(days) => day_scalar(days),
            None => None,
        },
{
    match days {
        Some(days) => {
            if days < 0 {
                return None;
            }
            match micros_from_days(days as u64) {
                Some(micros) => Some(Scalar::TimestampNtz(micros)),
                None => None,
            }
        },
        None => None,
    }
}

/// The least value of a column as a scalar of a type, if the statistics have one and the type can
/// be read from what is stored.
pub fn extract_min_scalar(data_type: &DataType, stats: &Statistics) -> (r: Option<Scalar>)
    ensures
        scalar_opt(r) == bound_value(data_type@, stats.min_bound()),
{
    let ty: PrimitiveType = match data_type {
        DataType::Primitive(ty) => *ty,
        _ => {
            return None;
        },
    };
    match (ty, stats) {
        (PrimitiveType::String, Statistics::ByteArray(s)) => text_from_bytes(&s.min),
        (PrimitiveType::String, Statistics::FixedLenByteArray(s)) => text_from_bytes(&s.min),
        (PrimitiveType::Long, Statistics::Int64(s)) => match s.min {
            Some(v) => Some(Scalar::Long(v)),
            None => None,
        },
        (PrimitiveType::Long, Statistics::Int32(s)) => match s.min {
            Some(v) => Some(Scalar::Long(v as i64)),
            None => None,
        },
        (PrimitiveType::Integer, Statistics::Int32(s)) => match s.min {
            Some(v) => Some(Scalar::Integer(v)),
            None => None,
        },
        (PrimitiveType::Short, Statistics::Int32(s)) => match s.min {
            Some(v) => Some(Scalar::Short(#[verifier::truncate] (v as i16))),
            None => None,
        },
        (PrimitiveType::Byte, Statistics::Int32(s)) => match s.min {
            Some(v) => Some(Scalar::Byte(#[verifier::truncate] (v as i8))),
            None => None,
        },
        (PrimitiveType::Float, Statistics::Float(s)) => match &s.min {
            Some(v) => Some(Scalar::Float(v.value.clone())),
            None => None,
        },
        (PrimitiveType::Double, Statistics::Double(s)) => match &s.min {
            Some(v) => Some(Scalar::Double(v.clone())),
            None => None,
        },
        (PrimitiveType::Double, Statistics::Float(s)) => match &s.min {
            Some(v) => Some(Scalar::Double(v.widened.clone())),
            None => None,
        },
        (PrimitiveType::Boolean, Statistics::Boolean(s)) => match s.min {
            Some(v) => Some(Scalar::Boolean(v)),
            None => None,
        },
        (PrimitiveType::Binary, Statistics::ByteArray(s)) => binary_from_bytes(&s.min),
        (PrimitiveType::Binary, Statistics::FixedLenByteArray(s)) => binary_from_bytes(&s.min),
        (PrimitiveType::Date, Statistics::Int32(s)) => match s.min {
            Some(v) => Some(Scalar::Date(v)),
            None => None,
        },
        (PrimitiveType::Timestamp, Statistics::Int64(s)) => match s.min {
            Some(v) => Some(Scalar::Timestamp(v)),
            None => None,
        },
        (PrimitiveType::TimestampNtz, Statistics::Int64(s)) => match s.min {
            Some(v) => Some(Scalar::TimestampNtz(v)),
            None => None,
        },
        (PrimitiveType::TimestampNtz, Statistics::Int32(s)) => timestamp_from_date(s.min),
        (PrimitiveType::Decimal(d), Statistics::Int32(s)) => match s.min {
            Some(v) => decimal_from_integer(v as i128, d),
            None => None,
        },
        (PrimitiveType::Decimal(d), Statistics::Int64(s)) => match s.min {
            Some(v) => decimal_from_integer(v as i128, d),
            None => None,
        },
        (PrimitiveType::Decimal(d), Statistics::FixedLenByteArray(s)) => match &s.min {
            Some(bytes) => decimal_from_bytes(Some(bytes.as_slice()), d),
            None => None,
        },
        _ => None,
    }
}

/// The greatest value of a column as a scalar of a type, if the statistics have one and the type can
/// be read from what is stored.
pub fn extract_max_scalar(data_type: &DataType, stats: &Statistics) -> (r: Option<Scalar>)
    ensures
        scalar_opt(r) == bound_value(data_type@, stats.max_bound()),
{
    let ty: PrimitiveType = match data_type {
        DataType::Primitive(ty) => *ty,
        _ => {
            return None;
        },
    };
    match (ty, stats) {
        (PrimitiveType::String, Statistics::ByteArray(s)) => text_from_bytes(&s.max),
        (PrimitiveType::String, Statistics::FixedLenByteArray(s)) => text_from_bytes(&s.max),
        (PrimitiveType::Long, Statistics::Int64(s)) => match s.max {
            Some(v) => Some(Scalar::Long(v)),
            None => None,
        },
        (PrimitiveType::Long, Statistics::Int32(s)) => match s.max {
            Some(v) => Some(Scalar::Long(v as i64)),
            None => None,
        },
        (PrimitiveType::Integer, Statistics::Int32(s)) => match s.max {
            Some(v) => Some(Scalar::Integer(v)),
            None => None,
        },
        (PrimitiveType::Short, Statistics::Int32(s)) => match s.max {
            Some(v) => Some(Scalar::Short(#[verifier::truncate] (v as i16))),
            None => None,
        },
        (PrimitiveType::Byte, Statistics::Int32(s)) => match s.max {
            Some(v) => Some(Scalar::Byte(#[verifier::truncate] (v as i8))),
            None => None,
        },
        (PrimitiveType::Float, Statistics::Float(s)) => match &s.max {
            Some(v) => Some(Scalar::Float(v.value.clone())),
            None => None,
        },
        (PrimitiveType::Double, Statistics::Double(s)) => match &s.max {
            Some(v) => Some(Scalar::Double(v.clone())),
            None => None,
        },
        (PrimitiveType::Double, Statistics::Float(s)) => match &s.max {
            Some(v) => Some(Scalar::Double(v.widened.clone())),
            None => None,
        },
        (PrimitiveType::Boolean, Statistics::Boolean(s)) => match s.max {
            Some(v) => Some(Scalar::Boolean(v)),
            None => None,
        },
        (PrimitiveType::Binary, Statistics::ByteArray(s)) => binary_from_bytes(&s.max),
        (PrimitiveType::Binary, Statistics::FixedLenByteArray(s)) => binary_from_bytes(&s.max),
        (PrimitiveType::Date, Statistics::Int32(s)) => match s.max {
            Some(v) => Some(Scalar::Date(v)),
            None => None,
        },
        (PrimitiveType::Timestamp, Statistics::Int64(s)) => match s.max {
            Some(v) => Some(Scalar::Timestamp(v)),
            None => None,
        },
        (PrimitiveType::TimestampNtz, Statistics::Int64(s)) => match s.max {
            Some(v) => Some(Scalar::TimestampNtz(v)),
            None => None,
        },
        (PrimitiveType::TimestampNtz, Statistics::Int32(s)) => timestamp_from_date(s.max),
        (PrimitiveType::Decimal(d), Statistics::Int32(s)) => match s.max {
            Some(v) => decimal_from_integer(v as i128, d),
            None => None,
        },
        (PrimitiveType::Decimal(d), Statistics::Int64(s)) => match s.max {
            Some(v) => decimal_from_integer(v as i128, d),
            None => None,
        },
        (PrimitiveType::Decimal(d), Statistics::FixedLenByteArray(s)) => match &s.max {
            Some(bytes) => decimal_from_bytes(Some(bytes.as_slice()), d),
            None => None,
        },
        _ => None,
    }
}

/// How many values of a column are null, if the statistics say so.
pub fn extract_nullcount(stats: Option<&Statistics>) -> (r: Option<i64>)
    ensures
        r == match stats {
            Some(stats) => match stats.nulls() {
                Some(n) => Some(n as i64),
                None => None,
            },
            None => None,
        },
{
    match stats {
        Some(stats) => match stats.null_count_opt() {
            Some(n) => Some(#[verifier::truncate] (n as i64)),
            None => None,
        },
        None => None,
    }
}

/// The greatest value of a column of integers.
pub open spec fn max_integer(bound: Option<Bound>) -> Option<i64> {
    match bound {
        Some(Bound::Int64(v)) => Some(v),
        Some(Bound::Int32(v)) => Some(v as i64),
        _ => None,
    }
}

/// The greatest value of a column of integers, if the statistics have one.
pub fn extract_max_i64(stats: &Statistics) -> (r: Option<i64>)
    ensures
        r == max_integer(stats.max_bound()),
{
    match stats {
        Statistics::Int64(s) => s.max,
        Statistics::Int32(s) => match s.max {
            Some(v) => Some(v as i64),
            None => None,
        },
        _ => None,
    }
}

/// A maximum that covers what was lost when times were cut to milliseconds: times grow by 999
/// microseconds, as far as there are such times, and other values stay as they are.
pub open spec fn widened(scalar: ScalarView) -> ScalarView {
    match scalar {
        ScalarView::Timestamp(us) => ScalarView::Timestamp(later_by_999(us)),
        ScalarView::TimestampNtz(us) => ScalarView::TimestampNtz(later_by_999(us)),
        other => other,
    }
}

/// A time 999 microseconds later, or the last one.
pub open spec fn later_by_999(us: i64) -> i64 {
    if us + 999 > i64::MAX {
        i64::MAX
    } else {
        (us + 999) as i64
    }
}

/// A time 999 microseconds later, or the last one.
fn widen_time(us: i64) -> (r: i64)
    ensures
        r == later_by_999(us),
{
    if us > i64::MAX - 999 {
        i64::MAX
    } else {
        us + 999
    }
}

/// A maximum that covers what was lost when times were cut to milliseconds.
pub fn adjust_stats_for_truncation(val: Scalar) -> (r: Scalar)
    ensures
        r@ == widened(val@),
{
    match val {
        Scalar::Timestamp(us) => Scalar::Timestamp(widen_time(us)),
        Scalar::TimestampNtz(us) => Scalar::TimestampNtz(widen_time(us)),
        other => other,
    }
}

// ---------------------------------------------------------------------------------------------
// Which column has which statistics
// ---------------------------------------------------------------------------------------------

/// Where a column is found.
#[derive(Debug)]
pub struct FieldIndex {
    /// The column.
    pub name: ColumnName,
    /// Its position in the schema.
    pub index: usize,
}

/// The first of the first `n` columns that stands at a path.
pub open spec fn first_at(columns: Seq<ColumnChunk>, path: Seq<Seq<char>>, n: nat) -> Option<int>
    decreases n,
{
    if n == 0 {
        None
    } else {
        match first_at(columns, path, (n - 1) as nat) {
            Some(i) => Some(i),
            None => if names_view(columns[n - 1].path@) == path {
                Some(n - 1)
            } else {
                None
            },
        }
    }
}

/// The last of the first `n` columns that stands at a path.
pub open spec fn last_at(columns: Seq<ColumnChunk>, path: Seq<Seq<char>>, n: nat) -> Option<int>
    decreases n,
{
    if n == 0 {
        None
    } else if names_view(columns[n - 1].path@) == path {
        Some(n - 1)
    } else {
        last_at(columns, path, (n - 1) as nat)
    }
}

/// Where a list of columns says that a column is found: the last entry counts.
pub open spec fn indexed(entries: Seq<FieldIndex>, column: Seq<Seq<char>>) -> Option<int>
    decreases entries.len(),
{
    if entries.len() == 0 {
        None
    } else if entries.last().name@ == column {
        Some(entries.last().index as int)
    } else {
        indexed(entries.drop_last(), column)
    }
}

fn find_index(entries: &Vec<FieldIndex>, column: &ColumnName) -> (r: Option<usize>)
    ensures
        match (r, indexed(entries@, column@)) {
            (Some(i), Some(j)) => i == j,
            (None, None) => true,
            _ => false,
        },
{
    let mut n: usize = entries.len();
    assert(entries@.take(n as int) =~= entries@);
    while n > 0
        invariant
            n <= entries.len(),
            indexed(entries@.take(n as int), column@) == indexed(entries@, column@),
        decreases n,
    {
        assert(entries@.take(n as int).drop_last() =~= entries@.take(n - 1));
        if entries[n - 1].name.same(column) {
            return Some(entries[n - 1].index);
        }
        n -= 1;
    }
    None
}

fn push_index(entries: &mut Vec<FieldIndex>, name: ColumnName, index: usize)
    ensures
        forall|column: Seq<Seq<char>>| #[trigger]
            indexed(final(entries)@, column) == if column == name@ {
                Some(index as int)
            } else {
                indexed(old(entries)@, column)
            },
{
    let ghost before = entries@;
    entries.push(FieldIndex { name, index });
    assert(entries@.drop_last() =~= before);
}

/// Whether a list holds a column.
fn lists_column(columns: &Vec<ColumnName>, column: &ColumnName) -> (r: bool)
    ensures
        r == lists(columns@, column@),
{
    let mut i: usize = 0;
    while i < columns.len()
        invariant
            i <= columns.len(),
            forall|j: int| 0 <= j < i ==> (#[trigger] columns@[j])@ != column@,
        decreases columns.len() - i,
    {
        if columns[i].same(column) {
            assert(columns@[i as int]@ == column@);
            return true;
        }
        i += 1;
    }
    false
}

/// Where a column that a predicate refers to is found in a row group.
pub open spec fn field_index(
    columns: Seq<ColumnChunk>,
    predicate: PredView,
    column: Seq<Seq<char>>,
) -> Option<int> {
    if pred_refers(predicate, column) {
        first_at(columns, column, columns.len())
    } else {
        None
    }
}

/// Where the columns that a predicate refers to are found. Those that are not there are left out.
pub fn compute_field_indices(fields: &[ColumnChunk], predicate: &Predicate) -> (r: Vec<FieldIndex>)
    ensures
        forall|column: Seq<Seq<char>>| #[trigger]
            indexed(r@, column) == field_index(fields@, predicate@, column),
{
    let requested_columns: Vec<ColumnName> = predicate.references();
    let mut r: Vec<FieldIndex> = Vec::new();
    let mut i: usize = 0;
    while i < fields.len()
        invariant
            i <= fields.len(),
            forall|column: Seq<Seq<char>>| #[trigger]
                lists(requested_columns@, column) <==> pred_refers(predicate@, column),
            forall|column: Seq<Seq<char>>| #[trigger]
                indexed(r@, column) == if pred_refers(predicate@, column) {
                    first_at(fields@, column, i as nat)
                } else {
                    None
                },
        decreases fields.len() - i,
    {
        let name: ColumnName = ColumnName::new(names_clone(fields[i].path.as_slice()));
        assert(lists(requested_columns@, name@) <==> pred_refers(predicate@, name@));
        if lists_column(&requested_columns, &name) && find_index(&r, &name).is_none() {
            push_index(&mut r, name, i);
        }
        i += 1;
    }
    r
}

/// The name of the statistics that hold least values.
pub const MIN_VALUES: &'static str = "minValues";

/// The name of the statistics that hold greatest values.
pub const MAX_VALUES: &'static str = "maxValues";

/// The name of the statistics that count nulls.
pub const NULL_COUNT: &'static str = "nullCount";

/// Where the statistics of a column are found in a checkpoint, each as far as it is there.
#[derive(Debug, Clone, Copy, PartialEq, Eq)]
pub struct StatsColumnIndices {
    /// The position of the column that holds the least values.
    pub min_index: Option<usize>,
    /// The position of the column that holds the greatest values.
    pub max_index: Option<usize>,
    /// The position of the column that holds the numbers of nulls.
    pub nullcount_index: Option<usize>,
}

/// A column, and where its statistics are found.
#[derive(Debug)]
pub struct StatsIndex {
    /// The column.
    pub name: ColumnName,
    /// Where its statistics are found.
    pub indices: StatsColumnIndices,
}

/// The place of a position in a schema, as a number.
pub open spec fn place(index: Option<usize>) -> Option<int> {
    match index {
        Some(i) => Some(i as int),
        None => None,
    }
}

/// Where a list says that the statistics of a column are found: the last entry counts, and a column
/// without an entry has none.
pub open spec fn stats_indexed(entries: Seq<StatsIndex>, column: Seq<Seq<char>>) -> (
    Option<int>,
    Option<int>,
    Option<int>,
)
    decreases entries.len(),
{
    if entries.len() == 0 {
        (None, None, None)
    } else if entries.last().name@ == column {
        let indices = entries.last().indices;
        (place(indices.min_index), place(indices.max_index), place(indices.nullcount_index))
    } else {
        stats_indexed(entries.drop_last(), column)
    }
}

fn find_stats(entries: &Vec<StatsIndex>, column: &ColumnName) -> (r: StatsColumnIndices)
    ensures
        (place(r.min_index), place(r.max_index), place(r.nullcount_index)) == stats_indexed(
            entries@,
            column@,
        ),
{
    let mut n: usize = entries.len();
    assert(entries@.take(n as int) =~= entries@);
    while n > 0
        invariant
            n <= entries.len(),
            stats_indexed(entries@.take(n as int), column@) == stats_indexed(entries@, column@),
        decreases n,
    {
        assert(entries@.take(n as int).drop_last() =~= entries@.take(n - 1));
        if entries[n - 1].name.same(column) {
            return entries[n - 1].indices;
        }
        n -= 1;
    }
    StatsColumnIndices { min_index: None, max_index: None, nullcount_index: None }
}

/// Whether a column is a partition column. Partition columns are never nested.
pub open spec fn is_partition_column(
    column: Seq<Seq<char>>,
    partition_columns: Seq<Seq<char>>,
) -> bool {
    column.len() == 1 && partition_columns.contains(column[0])
}

/// Whether a column is a partition column.
pub fn is_top_level_partition_column(col: &ColumnName, partition_columns: &[String]) -> (r: bool)
    ensures
        r == is_partition_column(col@, names_view(partition_columns@)),
{
    if col.path.len() != 1 {
        return false;
    }
    assert(col@[0] == col.path@[0]@);
    let mut i: usize = 0;
    while i < partition_columns.len()
        invariant
            i <= partition_columns.len(),
            col.path@.len() == 1,
            col@[0] == col.path@[0]@,
            forall|j: int| 0 <= j < i ==> names_view(partition_columns@)[j] != col@[0],
        decreases partition_columns.len() - i,
    {
        if same_text(partition_columns[i].as_str(), col.path[0].as_str()) {
            assert(names_view(partition_columns@)[i as int] == col@[0]);
            return true;
        }
        i += 1;
    }
    false
}

/// Where the statistics of a kind of a column stand in a checkpoint.
pub open spec fn stats_path(kind: Seq<char>, column: Seq<Seq<char>>) -> Seq<Seq<char>> {
    seq!["add"@, "stats_parsed"@, kind] + column
}

/// Where the values of a partition column stand in a checkpoint.
pub open spec fn partition_path(name: Seq<char>) -> Seq<Seq<char>> {
    seq!["add"@, "partitionValues_parsed"@, name]
}

/// Whether the statistics of a column are looked at: the predicate refers to it, and it is no
/// partition column.
pub open spec fn has_stats(
    predicate: PredView,
    partition_columns: Seq<Seq<char>>,
    column: Seq<Seq<char>>,
) -> bool {
    column.len() > 0 && pred_refers(predicate, column) && !is_partition_column(
        column,
        partition_columns,
    )
}

/// Where the statistics of a column are found among the first `n` columns of a checkpoint.
pub open spec fn stats_places(
    columns: Seq<ColumnChunk>,
    predicate: PredView,
    partition_columns: Seq<Seq<char>>,
    column: Seq<Seq<char>>,
    n: nat,
) -> (Option<int>, Option<int>, Option<int>) {
    if has_stats(predicate, partition_columns, column) {
        (
            last_at(columns, stats_path(MIN_VALUES@, column), n),
            last_at(columns, stats_path(MAX_VALUES@, column), n),
            last_at(columns, stats_path(NULL_COUNT@, column), n),
        )
    } else {
        (None, None, None)
    }
}

/// Whether a list has an entry for a column.
pub open spec fn lists_stats(entries: Seq<StatsIndex>, column: Seq<Seq<char>>) -> bool {
    exists|k: int| 0 <= k < entries.len() && (#[trigger] entries[k]).name@ == column
}

/// Whether statistics of a column, of whatever kind, stand at position `i` of a checkpoint.
pub open spec fn is_stats_of(columns: Seq<ColumnChunk>, i: int, column: Seq<Seq<char>>) -> bool {
    names_view(columns[i].path@) == stats_path(names_view(columns[i].path@)[2], column)
}

/// Whether statistics of a column that are looked at stand among the first `n` columns of a
/// checkpoint.
pub open spec fn stats_there(
    columns: Seq<ColumnChunk>,
    predicate: PredView,
    partition_columns: Seq<Seq<char>>,
    column: Seq<Seq<char>>,
    n: nat,
) -> bool {
    has_stats(predicate, partition_columns, column) && exists|i: int|
        0 <= i < n && #[trigger] is_stats_of(columns, i, column)
}

/// Where the values of a partition column that the predicate refers to are found among the first
/// `n` columns of a checkpoint.
pub open spec fn partition_place(
    columns: Seq<ColumnChunk>,
    predicate: PredView,
    partition_columns: Seq<Seq<char>>,
    column: Seq<Seq<char>>,
    n: nat,
) -> Option<int> {
    if pred_refers(predicate, column) && is_partition_column(column, partition_columns) {
        last_at(columns, partition_path(column[0]), n)
    } else {
        None
    }
}

/// The names after the first three.
fn after_third(parts: &Vec<String>) -> (r: ColumnName)
    requires
        parts@.len() >= 3,
    ensures
        r@ == names_view(parts@).skip(3),
{
    let rest: &[String] = vstd::slice::slice_subrange(parts.as_slice(), 3, parts.len());
    assert(names_view(rest@) =~= names_view(parts@).skip(3));
    ColumnName::new(names_clone(rest))
}

/// Where the statistics and the partition values of the columns that a predicate refers to are
/// found in a checkpoint. The list of statistics has entries for those columns of which some stand
/// there, and for no others.
pub fn compute_checkpoint_field_indices(
    fields: &[ColumnChunk],
    predicate: &Predicate,
    partition_columns: &[String],
) -> (r: (Vec<StatsIndex>, Vec<FieldIndex>))
    ensures
        forall|column: Seq<Seq<char>>| #[trigger]
            stats_indexed(r.0@, column) == stats_places(
                fields@,
                predicate@,
                names_view(partition_columns@),
                column,
                fields@.len(),
            ),
        forall|column: Seq<Seq<char>>| #[trigger]
            lists_stats(r.0@, column) <==> stats_there(
                fields@,
                predicate@,
                names_view(partition_columns@),
                column,
                fields@.len(),
            ),
        forall|column: Seq<Seq<char>>| #[trigger]
            indexed(r.1@, column) == partition_place(
                fields@,
                predicate@,
                names_view(partition_columns@),
                column,
                fields@.len(),
            ),
{
    let referenced_columns: Vec<ColumnName> = predicate.references();
    let mut stats_indices: Vec<StatsIndex> = Vec::new();
    let mut partition_indices: Vec<FieldIndex> = Vec::new();
    let mut i: usize = 0;
    while i < fields.len()
        invariant
            i <= fields.len(),
            forall|column: Seq<Seq<char>>| #[trigger]
                lists(referenced_columns@, column) <==> pred_refers(predicate@, column),
            forall|column: Seq<Seq<char>>| #[trigger]
                stats_indexed(stats_indices@, column) == stats_places(
                    fields@,
                    predicate@,
                    names_view(partition_columns@),
                    column,
                    i as nat,
                ),
            forall|column: Seq<Seq<char>>| #[trigger]
                lists_stats(stats_indices@, column) <==> stats_there(
                    fields@,
                    predicate@,
                    names_view(partition_columns@),
                    column,
                    i as nat,
                ),
            forall|column: Seq<Seq<char>>| #[trigger]
                indexed(partition_indices@, column) == partition_place(
                    fields@,
                    predicate@,
                    names_view(partition_columns@),
                    column,
                    i as nat,
                ),
        decreases fields.len() - i,
    {
        let parts: &Vec<String> = &fields[i].path;
        let ghost path = names_view(parts@);
        let ghost names = names_view(partition_columns@);
        let ghost stats_before = stats_indices@;
        let ghost partition_before = partition_indices@;
        proof {
            reveal_strlit("stats_parsed");
            reveal_strlit("partitionValues_parsed");
            reveal_strlit("minValues");
            reveal_strlit("maxValues");
            reveal_strlit("nullCount");
            assert("stats_parsed"@.len() != "partitionValues_parsed"@.len());
            assert(MIN_VALUES@[1] == 'i' && MAX_VALUES@[1] == 'a' && NULL_COUNT@[1] == 'u');
        }
        if parts.len() == 3 && same_text(parts[0].as_str(), "add") && same_text(
            parts[1].as_str(),
            "partitionValues_parsed",
        ) {
            let name: ColumnName = ColumnName::top_level(parts[2].as_str());
            proof {
                assert(path =~= partition_path(name@[0]));
                assert forall|column: Seq<Seq<char>>| #[trigger]
                    stats_indexed(stats_indices@, column) == stats_places(
                        fields@,
                        predicate@,
                        names,
                        column,
                        (i + 1) as nat,
                    ) by {
                    if column.len() > 0 {
                        lemma_no_stats_path(path, column);
                    }
                }
                assert forall|column: Seq<Seq<char>>|
                    column.len() == 1 && column != name@ implies path != #[trigger] partition_path(
                    column[0],
                ) by {
                    assert(partition_path(column[0])[2] == column[0]);
                    assert(path[2] == name@[0]);
                    if column[0] == name@[0] {
                        assert(column =~= name@);
                    }
                }
            }
            assert(lists(referenced_columns@, name@) <==> pred_refers(predicate@, name@));
            if lists_column(&referenced_columns, &name) && is_top_level_partition_column(
                &name,
                partition_columns,
            ) {
                push_index(&mut partition_indices, name, i);
            }
        } else if parts.len() >= 4 && same_text(parts[0].as_str(), "add") && same_text(
            parts[1].as_str(),
            "stats_parsed",
        ) {
            let name: ColumnName = after_third(parts);
            let ghost own = name@;
            proof {
                assert(path =~= stats_path(path[2], name@));
                assert forall|column: Seq<Seq<char>>| #[trigger]
                    indexed(partition_indices@, column) == partition_place(
                        fields@,
                        predicate@,
                        names,
                        column,
                        (i + 1) as nat,
                    ) by {
                    if column.len() == 1 {
                        assert(partition_path(column[0]).len() == 3);
                    }
                }
                assert forall|kind: Seq<char>, column: Seq<Seq<char>>|
                    path == #[trigger] stats_path(kind, column) implies kind == path[2] && column
                    == name@ by {
                    assert(stats_path(kind, column)[2] == kind);
                    assert(stats_path(kind, column).skip(3) =~= column);
                }
            }
            assert(lists(referenced_columns@, name@) <==> pred_refers(predicate@, name@));
            if lists_column(&referenced_columns, &name) && !is_top_level_partition_column(
                &name,
                partition_columns,
            ) {
                let mut indices: StatsColumnIndices = find_stats(&stats_indices, &name);
                let kind: &str = parts[2].as_str();
                if same_text(kind, MIN_VALUES) {
                    indices.min_index = Some(i);
                } else if same_text(kind, MAX_VALUES) {
                    indices.max_index = Some(i);
                } else if same_text(kind, NULL_COUNT) {
                    indices.nullcount_index = Some(i);
                }
                stats_indices.push(StatsIndex { name, indices });
                assert(stats_indices@.drop_last() =~= stats_before);
                assert(stats_indices@[stats_before.len() as int].name@ == own);
            }
            proof {
                assert forall|column: Seq<Seq<char>>| #[trigger]
                    stats_indexed(stats_indices@, column) == stats_places(
                        fields@,
                        predicate@,
                        names,
                        column,
                        (i + 1) as nat,
                    ) by {
                    assert(stats_indexed(stats_before, column) == stats_places(
                        fields@,
                        predicate@,
                        names,
                        column,
                        i as nat,
                    ));
                    assert(path == stats_path(MIN_VALUES@, column) <==> column == own && path[2]
                        == MIN_VALUES@);
                    assert(path == stats_path(MAX_VALUES@, column) <==> column == own && path[2]
                        == MAX_VALUES@);
                    assert(path == stats_path(NULL_COUNT@, column) <==> column == own && path[2]
                        == NULL_COUNT@);
                }
            }
        } else {
            proof {
                assert forall|column: Seq<Seq<char>>| #[trigger]
                    stats_indexed(stats_indices@, column) == stats_places(
                        fields@,
                        predicate@,
                        names,
                        column,
                        (i + 1) as nat,
                    ) by {
                    if column.len() > 0 {
                        lemma_no_stats_path(path, column);
                    }
                }
                assert forall|column: Seq<Seq<char>>| #[trigger]
                    indexed(partition_indices@, column) == partition_place(
                        fields@,
                        predicate@,
                        names,
                        column,
                        (i + 1) as nat,
                    ) by {
                    if column.len() == 1 {
                        let expected = partition_path(column[0]);
                        assert(expected.len() == 3 && expected[0] == "add"@ && expected[1]
                            == "partitionValues_parsed"@);
                    }
                }
            }
        }
        proof {
            assert forall|column: Seq<Seq<char>>| #[trigger]
                lists_stats(stats_indices@, column) <==> stats_there(
                    fields@,
                    predicate@,
                    names,
                    column,
                    (i + 1) as nat,
                ) by {
                lemma_stats_there_next(fields@, predicate@, names, column, i as nat);
                lemma_lists_stats_next(stats_before, stats_indices@, column);
                assert(lists_stats(stats_before, column) <==> stats_there(
                    fields@,
                    predicate@,
                    names,
                    column,
                    i as nat,
                ));
                if path.len() >= 4 && path[0] == "add"@ && path[1] == "stats_parsed"@ {
                    assert(path =~= stats_path(path[2], path.skip(3)));
                    assert(stats_path(path[2], column).skip(3) =~= column);
                } else if column.len() > 0 {
                    lemma_no_stats_path(path, column);
                }
            }
        }
        i += 1;
    }
    (stats_indices, partition_indices)
}

/// What one more column adds.
proof fn lemma_stats_there_next(
    columns: Seq<ColumnChunk>,
    predicate: PredView,
    partition_columns: Seq<Seq<char>>,
    column: Seq<Seq<char>>,
    n: nat,
)
    ensures
        stats_there(columns, predicate, partition_columns, column, n + 1) <==> stats_there(
            columns,
            predicate,
            partition_columns,
            column,
            n,
        ) || (has_stats(predicate, partition_columns, column) && is_stats_of(
            columns,
            n as int,
            column,
        )),
{
    if has_stats(predicate, partition_columns, column) && exists|i: int|
        0 <= i < n && #[trigger] is_stats_of(columns, i, column) {
        let i = choose|i: int| 0 <= i < n && #[trigger] is_stats_of(columns, i, column);
        assert(0 <= i < n + 1);
    }
}

/// What one more entry adds.
proof fn lemma_lists_stats_next(
    before: Seq<StatsIndex>,
    after: Seq<StatsIndex>,
    column: Seq<Seq<char>>,
)
    requires
        after == before || after.len() == before.len() + 1 && after.drop_last() == before,
    ensures
        lists_stats(after, column) <==> lists_stats(before, column) || (after.len() > before.len()
            && after.last().name@ == column),
{
    if after != before {
        if lists_stats(before, column) {
            let k = choose|k: int| 0 <= k < before.len() && (#[trigger] before[k]).name@ == column;
            assert(after[k] == before[k]);
        }
        if lists_stats(after, column) {
            let k = choose|k: int| 0 <= k < after.len() && (#[trigger] after[k]).name@ == column;
            if k < before.len() {
                assert(after[k] == before[k]);
            }
        }
        assert(after[before.len() as int] == after.last());
    }
}

proof fn lemma_no_stats_path(path: Seq<Seq<char>>, column: Seq<Seq<char>>)
    requires
        !(path.len() >= 4 && path[0] == "add"@ && path[1] == "stats_parsed"@),
        column.len() > 0,
    ensures
        forall|kind: Seq<char>| path != #[trigger] stats_path(kind, column),
{
    assert forall|kind: Seq<char>| path != #[trigger] stats_path(kind, column) by {
        let expected = stats_path(kind, column);
        assert(expected.len() >= 4 && expected[0] == "add"@ && expected[1] == "stats_parsed"@);
    }
}

/// The first column at a path is one of those looked at, and stands at the path.
pub proof fn lemma_first_at_bound(columns: Seq<ColumnChunk>, path: Seq<Seq<char>>, n: nat)
    ensures
        first_at(columns, path, n) matches Some(i) ==> 0 <= i < n && names_view(columns[i].path@)
            == path,
    decreases n,
{
    if n > 0 {
        lemma_first_at_bound(columns, path, (n - 1) as nat);
    }
}

/// The last column at a path is one of those looked at, and stands at the path.
pub proof fn lemma_last_at_bound(columns: Seq<ColumnChunk>, path: Seq<Seq<char>>, n: nat)
    ensures
        last_at(columns, path, n) matches Some(i) ==> 0 <= i < n && names_view(columns[i].path@)
            == path,
    decreases n,
{
    if n > 0 {
        lemma_last_at_bound(columns, path, (n - 1) as nat);
    }
}

// ---------------------------------------------------------------------------------------------
// Data files
// ---------------------------------------------------------------------------------------------

/// The statistics of the column at a position, if there is such a position.
pub open spec fn stats_at(group: RowGroup, index: Option<int>) -> Option<Statistics> {
    match index {
        Some(i) => group.columns@[i].statistics,
        None => None,
    }
}

/// The least value in some statistics as a scalar of a type.
pub open spec fn min_value(ty: TypeView, stats: Option<Statistics>) -> Option<ScalarView> {
    match stats {
        Some(stats) => bound_value(ty, stats.min_bound()),
        None => None,
    }
}

/// The greatest value in some statistics as a scalar of a type.
pub open spec fn max_value(ty: TypeView, stats: Option<Statistics>) -> Option<ScalarView> {
    match stats {
        Some(stats) => bound_value(ty, stats.max_bound()),
        None => None,
    }
}

/// The number of nulls in some statistics.
pub open spec fn null_value(stats: Option<Statistics>) -> Option<i64> {
    match stats {
        Some(stats) => match stats.nulls() {
            Some(n) => Some(n as i64),
            None => None,
        },
        None => None,
    }
}

/// The statistics of a row group of a data file, for the columns that a predicate refers to.
#[derive(Debug)]
pub struct RowGroupFilter<'a> {
    row_group: &'a RowGroup,
    field_indices: Vec<FieldIndex>,
}

impl<'a> RowGroupFilter<'a> {
    /// The row group.
    pub closed spec fn group(self) -> RowGroup {
        *self.row_group
    }

    /// Where a column is found in the row group.
    pub closed spec fn position(self, column: Seq<Seq<char>>) -> Option<int> {
        indexed(self.field_indices@, column)
    }

    /// Every position is one of the row group's columns.
    #[verifier::type_invariant]
    spec fn wf(self) -> bool {
        forall|column: Seq<Seq<char>>|
            (#[trigger] indexed(self.field_indices@, column)) matches Some(i) ==> 0 <= i
                < self.row_group.columns@.len()
    }

    /// The statistics of a row group, for the columns that a predicate refers to.
    pub fn new(row_group: &'a RowGroup, predicate: &Predicate) -> (r: RowGroupFilter<'a>)
        ensures
            r.group() == *row_group,
            forall|column: Seq<Seq<char>>| #[trigger]
                r.position(column) == field_index(row_group.columns@, predicate@, column),
    {
        let field_indices: Vec<FieldIndex> = compute_field_indices(
            row_group.columns.as_slice(),
            predicate,
        );
        assert forall|column: Seq<Seq<char>>|
            (#[trigger] indexed(field_indices@, column)) matches Some(i) ==> 0 <= i
                < row_group.columns@.len() by {
            lemma_first_at_bound(row_group.columns@, column, row_group.columns@.len());
        }
        RowGroupFilter { row_group, field_indices }
    }

    /// The statistics of a column: nothing if there is no such column, and within that nothing if
    /// it has no statistics.
    pub fn get_stats(&self, col: &ColumnName) -> (r: Option<Option<&'a Statistics>>)
        ensures
            match (r, self.position(col@)) {
                (Some(Some(stats)), Some(i)) => self.group().columns@[i].statistics == Some(*stats),
                (Some(None), Some(i)) => self.group().columns@[i].statistics is None,
                (None, None) => true,
                _ => false,
            },
    {
        proof {
            use_type_invariant(self);
        }
        match find_index(&self.field_indices, col) {
            Some(i) => {
                assert(indexed(self.field_indices@, col@) == Some(i as int));
                Some(self.row_group.columns[i].statistics.as_ref())
            },
            None => None,
        }
    }

    /// The least value of a column as a scalar of a type.
    pub fn get_parquet_min_stat(&self, col: &ColumnName, data_type: &DataType) -> (r: Option<
        Scalar,
    >)
        ensures
            scalar_opt(r) == min_value(data_type@, stats_at(self.group(), self.position(col@))),
    {
        match self.get_stats(col) {
            Some(Some(stats)) => extract_min_scalar(data_type, stats),
            _ => None,
        }
    }

    /// The greatest value of a column as a scalar of a type.
    pub fn get_parquet_max_stat(&self, col: &ColumnName, data_type: &DataType) -> (r: Option<
        Scalar,
    >)
        ensures
            scalar_opt(r) == max_value(data_type@, stats_at(self.group(), self.position(col@))),
    {
        match self.get_stats(col) {
            Some(Some(stats)) => extract_max_scalar(data_type, stats),
            _ => None,
        }
    }

    /// How many values of a column are null. Of a column that is not there nothing is said, because
    /// it need not be a column of the table.
    pub fn get_parquet_nullcount_stat(&self, col: &ColumnName) -> (r: Option<i64>)
        ensures
            r == null_value(stats_at(self.group(), self.position(col@))),
    {
        match self.get_stats(col) {
            Some(stats) => extract_nullcount(stats),
            None => None,
        }
    }

    /// How many rows there are.
    pub fn get_parquet_rowcount_stat(&self) -> (r: Option<i64>)
        ensures
            r == Some(self.group().num_rows),
    {
        Some(self.row_group.num_rows)
    }
}

// ---------------------------------------------------------------------------------------------
// Checkpoints
// ---------------------------------------------------------------------------------------------

/// Whether some values of a column are null, or may be.
pub open spec fn may_have_nulls(stats: Option<Statistics>) -> bool {
    match stats {
        Some(stats) => match stats.nulls() {
            Some(n) => n > 0,
            None => true,
        },
        None => true,
    }
}

/// Whether some values of the column at a position are null, or may be.
pub fn column_has_nulls(row_group: &RowGroup, col_index: usize) -> (r: bool)
    requires
        col_index < row_group.columns@.len(),
    ensures
        r == may_have_nulls(row_group.columns@[col_index as int].statistics),
{
    match &row_group.columns[col_index].statistics {
        Some(stats) => match stats.null_count_opt() {
            Some(n) => n > 0,
            None => true,
        },
        None => true,
    }
}

/// The statistics of a column of statistics, unless some file lacks the statistic.
pub open spec fn guarded(stats: Option<Statistics>) -> Option<Statistics> {
    if may_have_nulls(stats) {
        None
    } else {
        stats
    }
}

/// The statistics of a row group of a checkpoint, for the columns of the table that a predicate
/// refers to.
///
/// A row of a checkpoint stands for a file, and its columns hold the statistics of the file. Where a
/// row lacks a statistic, the bounds of the others say nothing of it, so the statistic counts as
/// missing. The values of partition columns are not guarded in this way.
#[derive(Debug)]
pub struct CheckpointRowGroupFilter<'a> {
    row_group: &'a RowGroup,
    stats_column_indices: Vec<StatsIndex>,
    partition_column_indices: Vec<FieldIndex>,
    partition_columns: &'a [String],
}

impl<'a> CheckpointRowGroupFilter<'a> {
    /// The row group.
    pub closed spec fn group(self) -> RowGroup {
        *self.row_group
    }

    /// The names of the partition columns.
    pub closed spec fn partitions(self) -> Seq<Seq<char>> {
        names_view(self.partition_columns@)
    }

    /// Where the least values, the greatest values and the numbers of nulls of a column are found.
    pub closed spec fn stats_positions(self, column: Seq<Seq<char>>) -> (
        Option<int>,
        Option<int>,
        Option<int>,
    ) {
        stats_indexed(self.stats_column_indices@, column)
    }

    /// Where the values of a partition column are found.
    pub closed spec fn partition_position(self, column: Seq<Seq<char>>) -> Option<int> {
        indexed(self.partition_column_indices@, column)
    }

    /// Whether a position, if there is one, is one of the row group's columns.
    spec fn within(self, index: Option<int>) -> bool {
        index matches Some(i) ==> 0 <= i < self.row_group.columns@.len()
    }

    /// Every position is one of the row group's columns.
    #[verifier::type_invariant]
    spec fn wf(self) -> bool {
        &&& forall|column: Seq<Seq<char>>|
            self.within(#[trigger] indexed(self.partition_column_indices@, column))
        &&& forall|column: Seq<Seq<char>>|
            #![trigger stats_indexed(self.stats_column_indices@, column)]
            {
                let positions = stats_indexed(self.stats_column_indices@, column);
                self.within(positions.0) && self.within(positions.1) && self.within(positions.2)
            }
    }

    /// The statistics of a row group of a checkpoint, for the columns that a predicate refers to.
    pub fn new(
        row_group: &'a RowGroup,
        predicate: &Predicate,
        partition_columns: &'a [String],
    ) -> (r: CheckpointRowGroupFilter<'a>)
        ensures
            r.group() == *row_group,
            r.partitions() == names_view(partition_columns@),
            forall|column: Seq<Seq<char>>| #[trigger]
                r.stats_positions(column) == stats_places(
                    row_group.columns@,
                    predicate@,
                    names_view(partition_columns@),
                    column,
                    row_group.columns@.len(),
                ),
            forall|column: Seq<Seq<char>>| #[trigger]
                r.partition_position(column) == partition_place(
                    row_group.columns@,
                    predicate@,
                    names_view(partition_columns@),
                    column,
                    row_group.columns@.len(),
                ),
    {
        let (stats_column_indices, partition_column_indices): (Vec<StatsIndex>, Vec<FieldIndex>) =
            compute_checkpoint_field_indices(
            row_group.columns.as_slice(),
            predicate,
            partition_columns,
        );
        let ghost columns = row_group.columns@;
        assert forall|column: Seq<Seq<char>>|
            (#[trigger] indexed(partition_column_indices@, column)) matches Some(i) ==> 0 <= i
                < columns.len() by {
            lemma_last_at_bound(columns, partition_path(column[0]), columns.len());
        }
        assert forall|column: Seq<Seq<char>>|
            #![trigger stats_indexed(stats_column_indices@, column)]
            {
                let positions = stats_indexed(stats_column_indices@, column);
                &&& positions.0 matches Some(i) ==> 0 <= i < columns.len()
                &&& positions.1 matches Some(i) ==> 0 <= i < columns.len()
                &&& positions.2 matches Some(i) ==> 0 <= i < columns.len()
            } by {
            lemma_last_at_bound(columns, stats_path(MIN_VALUES@, column), columns.len());
            lemma_last_at_bound(columns, stats_path(MAX_VALUES@, column), columns.len());
            lemma_last_at_bound(columns, stats_path(NULL_COUNT@, column), columns.len());
        }
        CheckpointRowGroupFilter {
            row_group,
            stats_column_indices,
            partition_column_indices,
            partition_columns,
        }
    }

    /// The statistics of the column at a position, unless it may have nulls.
    fn get_guarded_stats(&self, index: Option<usize>) -> (r: Option<&'a Statistics>)
        requires
            self.within(place(index)),
        ensures
            match (r, guarded(stats_at(self.group(), place(index)))) {
                (Some(stats), Some(expected)) => *stats == expected,
                (None, None) => true,
                _ => false,
            },
    {
        match index {
            Some(i) => {
                if column_has_nulls(self.row_group, i) {
                    None
                } else {
                    self.row_group.columns[i].statistics.as_ref()
                }
            },
            None => None,
        }
    }

    /// The statistics of the values of a partition column.
    fn get_partition_stats(&self, col: &ColumnName) -> (r: Option<&'a Statistics>)
        ensures
            match (r, stats_at(self.group(), self.partition_position(col@))) {
                (Some(stats), Some(expected)) => *stats == expected,
                (None, None) => true,
                _ => false,
            },
    {
        proof {
            use_type_invariant(self);
        }
        match find_index(&self.partition_column_indices, col) {
            Some(i) => {
                assert(self.within(indexed(self.partition_column_indices@, col@)));
                self.row_group.columns[i].statistics.as_ref()
            },
            None => None,
        }
    }

    /// The least value of a column as a scalar of a type.
    pub fn get_parquet_min_stat(&self, col: &ColumnName, data_type: &DataType) -> (r: Option<
        Scalar,
    >)
        ensures
            scalar_opt(r) == if is_partition_column(col@, self.partitions()) {
                min_value(data_type@, stats_at(self.group(), self.partition_position(col@)))
            } else {
                min_value(data_type@, guarded(stats_at(self.group(), self.stats_positions(col@).0)))
            },
    {
        proof {
            use_type_invariant(self);
        }
        let stats: Option<&Statistics> = if is_top_level_partition_column(
            col,
            self.partition_columns,
        ) {
            self.get_partition_stats(col)
        } else {
            let indices: StatsColumnIndices = find_stats(&self.stats_column_indices, col);
            assert(self.within(stats_indexed(self.stats_column_indices@, col@).0));
            self.get_guarded_stats(indices.min_index)
        };
        match stats {
            Some(stats) => extract_min_scalar(data_type, stats),
            None => None,
        }
    }

    /// The greatest value of a column as a scalar of a type. Times of columns that are no partition
    /// columns are widened by what may have been cut off.
    pub fn get_parquet_max_stat(&self, col: &ColumnName, data_type: &DataType) -> (r: Option<
        Scalar,
    >)
        ensures
            scalar_opt(r) == if is_partition_column(col@, self.partitions()) {
                max_value(data_type@, stats_at(self.group(), self.partition_position(col@)))
            } else {
                match max_value(
                    data_type@,
                    guarded(stats_at(self.group(), self.stats_positions(col@).1)),
                ) {
                    Some(max) => Some(widened(max)),
                    None => None,
                }
            },
    {
        proof {
            use_type_invariant(self);
        }
        if is_top_level_partition_column(col, self.partition_columns) {
            return match self.get_partition_stats(col) {
                Some(stats) => extract_max_scalar(data_type, stats),
                None => None,
            };
        }
        let indices: StatsColumnIndices = find_stats(&self.stats_column_indices, col);
        assert(self.within(stats_indexed(self.stats_column_indices@, col@).1));
        match self.get_guarded_stats(indices.max_index) {
            Some(stats) => match extract_max_scalar(data_type, stats) {
                Some(max) => Some(adjust_stats_for_truncation(max)),
                None => None,
            },
            None => None,
        }
    }

    /// How many values of a column are null: of a partition column, in how many rows; of another
    /// column, in the file that has the most.
    pub fn get_parquet_nullcount_stat(&self, col: &ColumnName) -> (r: Option<i64>)
        ensures
            r == if is_partition_column(col@, self.partitions()) {
                null_value(stats_at(self.group(), self.partition_position(col@)))
            } else {
                match guarded(stats_at(self.group(), self.stats_positions(col@).2)) {
                    Some(stats) => max_integer(stats.max_bound()),
                    None => None,
                }
            },
    {
        proof {
            use_type_invariant(self);
        }
        if is_top_level_partition_column(col, self.partition_columns) {
            return extract_nullcount(self.get_partition_stats(col));
        }
        let indices: StatsColumnIndices = find_stats(&self.stats_column_indices, col);
        assert(self.within(stats_indexed(self.stats_column_indices@, col@).2));
        match self.get_guarded_stats(indices.nullcount_index) {
            Some(stats) => extract_max_i64(stats),
            None => None,
        }
    }

    /// How many rows the files have together, which a checkpoint does not say.
    pub fn get_parquet_rowcount_stat(&self) -> (r: Option<i64>)
        ensures
            r is None,
    {
        None
    }
}

// ---------------------------------------------------------------------------------------------
// Which row groups are read
// ---------------------------------------------------------------------------------------------

/// Whether a row group is read, given what its statistics say of the predicate: only one that
/// certainly holds no row for it is skipped.
pub open spec fn survives(verdict: Option<bool>) -> bool {
    verdict != Some(false)
}

/// Whether a row group is read, given what its statistics say of the predicate.
pub fn row_group_survives(verdict: Option<bool>) -> (r: bool)
    ensures
        r == survives(verdict),
{
    match verdict {
        Some(verdict) => verdict,
        None => true,
    }
}

/// The positions, in order, of the row groups that are read, given what the statistics of each say
/// of the predicate.
pub fn surviving_row_groups(verdicts: &[Option<bool>]) -> (r: Vec<usize>)
    ensures
        forall|i: int, j: int| 0 <= i < j < r@.len() ==> r@[i] < r@[j],
        forall|i: int|
            0 <= i < r@.len() ==> (#[trigger] r@[i]) < verdicts@.len() && survives(
                verdicts@[r@[i] as int],
            ),
        forall|ordinal: usize|
            ordinal < verdicts@.len() && survives(#[trigger] verdicts@[ordinal as int])
                ==> r@.contains(ordinal),
{
    let mut r: Vec<usize> = Vec::new();
    let mut i: usize = 0;
    while i < verdicts.len()
        invariant
            i <= verdicts.len(),
            forall|j: int, k: int| 0 <= j < k < r@.len() ==> r@[j] < r@[k],
            forall|j: int|
                0 <= j < r@.len() ==> (#[trigger] r@[j]) < i && survives(verdicts@[r@[j] as int]),
            forall|ordinal: usize|
                ordinal < i && survives(#[trigger] verdicts@[ordinal as int]) ==> r@.contains(
                    ordinal,
                ),
        decreases verdicts.len() - i,
    {
        if row_group_survives(verdicts[i]) {
            let ghost before = r@;
            r.push(i);
            proof {
                assert forall|ordinal: usize|
                    ordinal < i + 1 && survives(
                        #[trigger] verdicts@[ordinal as int],
                    ) implies r@.contains(ordinal) by {
                    if ordinal < i {
                        let j = choose|j: int| 0 <= j < before.len() && before[j] == ordinal;
                        assert(r@[j] == ordinal);
                    } else {
                        assert(r@[before.len() as int] == ordinal);
                    }
                }
            }
        }
        i += 1;
    }
    r
}

} // verus!
