//! What the statistics of a column say of its values, and where they stand in a file.

use vstd::prelude::*;

use crate::engine::parquet_row_group_skipping::{
    big_endian, bound_value, decimal_digits, guarded, is_partition_column, last_at, max_value,
    may_have_nulls, min_value, null_value, partition_place, stats_places, survives, widened, Bound,
};
use crate::engine::statistics::{ColumnChunk, Statistics, ValueStatistics};
use crate::expressions::column_names::names_view;
use crate::expressions::scalars::{abs, digit_count, DecimalData, ScalarView};
use crate::expressions::tree::PredView;
use crate::expressions::tree_walk::pred_refers;
use crate::schema::{DecimalType, PrimitiveType, TypeView};

verus! {

// ---------------------------------------------------------------------------------------------
// Bounds
// ---------------------------------------------------------------------------------------------

/// A stored 32-bit integer stands for the same number, as an integer, a long, a date, and as a
/// shorter integer where it fits.
pub proof fn law_stored_integer_is_the_same_number(v: i32)
    ensures
        bound_value(TypeView::Primitive(PrimitiveType::Integer), Some(Bound::Int32(v))) == Some(
            ScalarView::Integer(v),
        ),
        bound_value(TypeView::Primitive(PrimitiveType::Long), Some(Bound::Int32(v))) matches Some(
            ScalarView::Long(n),
        ) && n == v,
        bound_value(TypeView::Primitive(PrimitiveType::Date), Some(Bound::Int32(v))) == Some(
            ScalarView::Date(v),
        ),
        i16::MIN <= v <= i16::MAX ==> (bound_value(
            TypeView::Primitive(PrimitiveType::Short),
            Some(Bound::Int32(v)),
        ) matches Some(ScalarView::Short(n)) && n == v),
        i8::MIN <= v <= i8::MAX ==> (bound_value(
            TypeView::Primitive(PrimitiveType::Byte),
            Some(Bound::Int32(v)),
        ) matches Some(ScalarView::Byte(n)) && n == v),
{
}

/// A stored 64-bit integer stands for the same number, as a long or as a time in microseconds.
pub proof fn law_stored_long_is_the_same_number(v: i64)
    ensures
        bound_value(TypeView::Primitive(PrimitiveType::Long), Some(Bound::Int64(v))) == Some(
            ScalarView::Long(v),
        ),
        bound_value(TypeView::Primitive(PrimitiveType::Timestamp), Some(Bound::Int64(v))) == Some(
            ScalarView::Timestamp(v),
        ),
        bound_value(TypeView::Primitive(PrimitiveType::TimestampNtz), Some(Bound::Int64(v)))
            == Some(ScalarView::TimestampNtz(v)),
        bound_value(TypeView::Primitive(PrimitiveType::Integer), Some(Bound::Int64(v))) is None,
        bound_value(TypeView::Primitive(PrimitiveType::Date), Some(Bound::Int64(v))) is None,
{
}

/// A stored day stands for its first microsecond as a time without a zone, unless it is before the
/// Unix epoch or there is no such date.
pub proof fn law_stored_day_is_its_beginning(days: i32)
    ensures
        days < 0 ==> bound_value(
            TypeView::Primitive(PrimitiveType::TimestampNtz),
            Some(Bound::Int32(days)),
        ) is None,
        0 <= days <= 95_026_236 ==> (bound_value(
            TypeView::Primitive(PrimitiveType::TimestampNtz),
            Some(Bound::Int32(days)),
        ) matches Some(ScalarView::TimestampNtz(micros)) && micros == days * 86_400_000_000),
{
}

/// Stored bytes stand for themselves as binary, and for the text that they encode as a string.
pub proof fn law_stored_bytes_are_the_same(bytes: Seq<u8>, text: Seq<char>)
    ensures
        bound_value(TypeView::Primitive(PrimitiveType::Binary), Some(Bound::ByteArray(bytes)))
            == Some(ScalarView::Binary(bytes)),
        bound_value(
            TypeView::Primitive(PrimitiveType::Binary),
            Some(Bound::FixedLenByteArray(bytes)),
        ) == Some(ScalarView::Binary(bytes)),
        bytes == vstd::utf8::encode_utf8(text) ==> bound_value(
            TypeView::Primitive(PrimitiveType::String),
            Some(Bound::ByteArray(bytes)),
        ) == Some(ScalarView::String(text)),
        bytes == vstd::utf8::encode_utf8(text) ==> bound_value(
            TypeView::Primitive(PrimitiveType::String),
            Some(Bound::FixedLenByteArray(bytes)),
        ) == Some(ScalarView::String(text)),
        !vstd::utf8::valid_utf8(bytes) ==> bound_value(
            TypeView::Primitive(PrimitiveType::String),
            Some(Bound::ByteArray(bytes)),
        ) is None,
{
    if bytes == vstd::utf8::encode_utf8(text) {
        vstd::utf8::encode_utf8_valid_utf8(text);
        vstd::utf8::encode_utf8_decode_utf8(text);
    }
}

/// A stored number stands for the decimal with those digits, where the type has enough of them.
pub proof fn law_stored_decimal_has_those_digits(v: i64, w: i32, ty: DecimalType)
    ensures
        digit_count(abs(v as int)) <= ty.precision_spec() ==> (bound_value(
            TypeView::Primitive(PrimitiveType::Decimal(ty)),
            Some(Bound::Int64(v)),
        ) matches Some(ScalarView::Decimal(data)) && data.bits_spec() == v && data.ty_spec() == ty),
        digit_count(abs(v as int)) > ty.precision_spec() ==> bound_value(
            TypeView::Primitive(PrimitiveType::Decimal(ty)),
            Some(Bound::Int64(v)),
        ) is None,
        digit_count(abs(w as int)) <= ty.precision_spec() ==> (bound_value(
            TypeView::Primitive(PrimitiveType::Decimal(ty)),
            Some(Bound::Int32(w)),
        ) matches Some(ScalarView::Decimal(data)) && data.bits_spec() == w && data.ty_spec() == ty),
        digit_count(abs(w as int)) > ty.precision_spec() ==> bound_value(
            TypeView::Primitive(PrimitiveType::Decimal(ty)),
            Some(Bound::Int32(w)),
        ) is None,
{
    DecimalData::lemma_of(v as i128, ty);
    DecimalData::lemma_of(w as i128, ty);
}

/// Bytes stand for a decimal with the most significant byte first; more than 16 of them stand for
/// none.
pub proof fn law_stored_decimal_bytes(bytes: Seq<u8>, ty: DecimalType)
    requires
        bytes.len() <= 16 ==> i128::MIN <= decimal_digits(bytes) <= i128::MAX,
    ensures
        bytes.len() > 16 ==> bound_value(
            TypeView::Primitive(PrimitiveType::Decimal(ty)),
            Some(Bound::FixedLenByteArray(bytes)),
        ) is None,
        bytes.len() <= 16 && digit_count(abs(decimal_digits(bytes))) <= ty.precision_spec() ==> (
        bound_value(
            TypeView::Primitive(PrimitiveType::Decimal(ty)),
            Some(Bound::FixedLenByteArray(bytes)),
        ) matches Some(ScalarView::Decimal(data)) && data.bits_spec() == decimal_digits(bytes)
            && data.ty_spec() == ty),
{
    DecimalData::lemma_of(decimal_digits(bytes) as i128, ty);
}

/// A byte behind others counts once, and those before it 256 times; 16 bytes with the highest bit set
/// stand for a negative number.
pub proof fn law_bytes_count_from_the_most_significant(bytes: Seq<u8>, last: u8)
    ensures
        big_endian(Seq::empty()) == 0,
        big_endian(bytes.push(last)) == 256 * big_endian(bytes) + last,
        big_endian(bytes) < 0x8000_0000_0000_0000_0000_0000_0000_0000int ==> decimal_digits(bytes)
            == big_endian(bytes),
        big_endian(bytes) >= 0x8000_0000_0000_0000_0000_0000_0000_0000int ==> decimal_digits(bytes)
            == big_endian(bytes) - 0x1_0000_0000_0000_0000_0000_0000_0000_0000int,
{
    assert(bytes.push(last).drop_last() =~= bytes);
}

/// Booleans and floating-point numbers stand for themselves, and a bound of another kind than the
/// type is stored in stands for nothing.
pub proof fn law_stored_kind_must_match_the_type(flag: bool, v: i32, bytes: Seq<u8>)
    ensures
        bound_value(TypeView::Primitive(PrimitiveType::Boolean), Some(Bound::Boolean(flag)))
            == Some(ScalarView::Boolean(flag)),
        bound_value(TypeView::Primitive(PrimitiveType::Boolean), Some(Bound::Int32(v))) is None,
        bound_value(TypeView::Primitive(PrimitiveType::String), Some(Bound::Int32(v))) is None,
        bound_value(TypeView::Primitive(PrimitiveType::Timestamp), Some(Bound::Int32(v))) is None,
        bound_value(TypeView::Primitive(PrimitiveType::Timestamp), Some(Bound::Int96)) is None,
        bound_value(TypeView::Primitive(PrimitiveType::Integer), Some(Bound::ByteArray(bytes)))
            is None,
        bound_value(TypeView::Primitive(PrimitiveType::Long), None) is None,
{
}

/// The least value comes from the least one that is stored, the greatest from the greatest, and the
/// number of nulls is that which is stored.
pub proof fn law_statistics_give_what_they_hold(
    ty: TypeView,
    integers: ValueStatistics<i32>,
    longs: ValueStatistics<i64>,
    texts: ValueStatistics<Vec<u8>>,
    flags: ValueStatistics<bool>,
    n: u64,
)
    ensures
        min_value(ty, Some(Statistics::Int32(integers))) == match integers.min {
            Some(v) => bound_value(ty, Some(Bound::Int32(v))),
            None => None,
        },
        max_value(ty, Some(Statistics::Int32(integers))) == match integers.max {
            Some(v) => bound_value(ty, Some(Bound::Int32(v))),
            None => None,
        },
        min_value(ty, Some(Statistics::Int64(longs))) == match longs.min {
            Some(v) => bound_value(ty, Some(Bound::Int64(v))),
            None => None,
        },
        max_value(ty, Some(Statistics::Int64(longs))) == match longs.max {
            Some(v) => bound_value(ty, Some(Bound::Int64(v))),
            None => None,
        },
        min_value(ty, Some(Statistics::ByteArray(texts))) == match texts.min {
            Some(v) => bound_value(ty, Some(Bound::ByteArray(v@))),
            None => None,
        },
        max_value(ty, Some(Statistics::ByteArray(texts))) == match texts.max {
            Some(v) => bound_value(ty, Some(Bound::ByteArray(v@))),
            None => None,
        },
        min_value(ty, Some(Statistics::FixedLenByteArray(texts))) == match texts.min {
            Some(v) => bound_value(ty, Some(Bound::FixedLenByteArray(v@))),
            None => None,
        },
        max_value(ty, Some(Statistics::FixedLenByteArray(texts))) == match texts.max {
            Some(v) => bound_value(ty, Some(Bound::FixedLenByteArray(v@))),
            None => None,
        },
        min_value(ty, Some(Statistics::Boolean(flags))) == match flags.min {
            Some(v) => bound_value(ty, Some(Bound::Boolean(v))),
            None => None,
        },
        max_value(ty, Some(Statistics::Boolean(flags))) == match flags.max {
            Some(v) => bound_value(ty, Some(Bound::Boolean(v))),
            None => None,
        },
        integers.null_count == Some(n) && n <= i64::MAX ==> (null_value(
            Some(Statistics::Int32(integers)),
        ) matches Some(m) && m == n),
        longs.null_count == Some(n) && n <= i64::MAX ==> (null_value(
            Some(Statistics::Int64(longs)),
        ) matches Some(m) && m == n),
        texts.null_count == Some(n) && n <= i64::MAX ==> (null_value(
            Some(Statistics::ByteArray(texts)),
        ) matches Some(m) && m == n),
        integers.null_count is None ==> null_value(Some(Statistics::Int32(integers))) is None,
        min_value(ty, None) is None,
        max_value(ty, None) is None,
        null_value(None) is None,
{
}

// ---------------------------------------------------------------------------------------------
// Checkpoints
// ---------------------------------------------------------------------------------------------

/// Statistics of statistics count only where no file lacks the statistic: the number of nulls is
/// known and zero.
pub proof fn law_statistics_count_only_without_nulls(stats: Statistics)
    ensures
        stats.nulls() == Some(0u64) ==> guarded(Some(stats)) == Some(stats) && !may_have_nulls(
            Some(stats),
        ),
        stats.nulls() != Some(0u64) ==> guarded(Some(stats)) is None && may_have_nulls(Some(stats)),
        guarded(None) is None,
        may_have_nulls(None),
{
}

/// A greatest time grows by 999 microseconds, or up to the last time there is; other greatest values
/// stay as they are.
pub proof fn law_only_times_are_widened(micros: i64, scalar: ScalarView)
    ensures
        micros <= i64::MAX - 999 ==> (widened(ScalarView::Timestamp(micros))
            matches ScalarView::Timestamp(later) && later == micros + 999),
        micros <= i64::MAX - 999 ==> (widened(ScalarView::TimestampNtz(micros))
            matches ScalarView::TimestampNtz(later) && later == micros + 999),
        micros > i64::MAX - 999 ==> widened(ScalarView::Timestamp(micros)) == ScalarView::Timestamp(
            i64::MAX,
        ),
        micros > i64::MAX - 999 ==> widened(ScalarView::TimestampNtz(micros))
            == ScalarView::TimestampNtz(i64::MAX),
        !(scalar is Timestamp) && !(scalar is TimestampNtz) ==> widened(scalar) == scalar,
{
}

proof fn lemma_last_at(columns: Seq<ColumnChunk>, path: Seq<Seq<char>>, n: nat, i: int)
    requires
        0 <= i < n <= columns.len(),
        names_view(columns[i].path@) == path,
    ensures
        last_at(columns, path, n) matches Some(j) && i <= j < n && names_view(columns[j].path@)
            == path,
    decreases n,
{
    if names_view(columns[n - 1].path@) != path {
        lemma_last_at(columns, path, (n - 1) as nat, i);
    }
}

/// Whether something is found at a position or after it, in a column with the path of that one.
pub open spec fn is_found_from(place: Option<int>, columns: Seq<ColumnChunk>, i: int) -> bool {
    &&& place matches Some(j)
    &&& i <= j < columns.len()
    &&& names_view(columns[j].path@) == names_view(columns[i].path@)
}

/// A column that a predicate refers to has its least values, its greatest values and its numbers of
/// nulls where the layout of checkpoints puts them, if they are there, unless it is a partition
/// column; the values of a partition column are found where the layout puts those. Of several columns
/// in one place the last counts.
pub proof fn law_checkpoint_statistics_are_found(
    columns: Seq<ColumnChunk>,
    predicate: PredView,
    partition_columns: Seq<Seq<char>>,
    column: Seq<Seq<char>>,
    i: int,
)
    requires
        0 <= i < columns.len(),
        column.len() > 0,
        pred_refers(predicate, column),
    ensures
        !is_partition_column(column, partition_columns) && names_view(columns[i].path@) == seq![
            "add"@,
            "stats_parsed"@,
            "minValues"@,
        ] + column ==> is_found_from(
            stats_places(columns, predicate, partition_columns, column, columns.len()).0,
            columns,
            i,
        ),
        !is_partition_column(column, partition_columns) && names_view(columns[i].path@) == seq![
            "add"@,
            "stats_parsed"@,
            "maxValues"@,
        ] + column ==> is_found_from(
            stats_places(columns, predicate, partition_columns, column, columns.len()).1,
            columns,
            i,
        ),
        !is_partition_column(column, partition_columns) && names_view(columns[i].path@) == seq![
            "add"@,
            "stats_parsed"@,
            "nullCount"@,
        ] + column ==> is_found_from(
            stats_places(columns, predicate, partition_columns, column, columns.len()).2,
            columns,
            i,
        ),
        is_partition_column(column, partition_columns) && names_view(columns[i].path@) == seq![
            "add"@,
            "partitionValues_parsed"@,
            column[0],
        ] ==> is_found_from(
            partition_place(columns, predicate, partition_columns, column, columns.len()),
            columns,
            i,
        ),
{
    let path = names_view(columns[i].path@);
    lemma_last_at(columns, path, columns.len(), i);
}

/// A column is a partition column where its path is one name and that is among the partition
/// columns.
pub proof fn law_partition_columns_are_not_nested(
    name: Seq<char>,
    rest: Seq<Seq<char>>,
    partition_columns: Seq<Seq<char>>,
    k: int,
)
    requires
        0 <= k < partition_columns.len(),
    ensures
        is_partition_column(seq![partition_columns[k]], partition_columns),
        rest.len() > 0 ==> !is_partition_column(seq![name] + rest, partition_columns),
        (forall|j: int| 0 <= j < partition_columns.len() ==> #[trigger] partition_columns[j] != name)
            ==> !is_partition_column(seq![name], partition_columns),
{
    assert(seq![partition_columns[k]][0] == partition_columns[k]);
    assert(seq![name][0] == name);
}

/// A row group is left out only where its statistics say that no row of it is asked for.
pub proof fn law_unknown_row_groups_are_read()
    ensures
        survives(None),
        survives(Some(true)),
        !survives(Some(false)),
{
}

} // verus!
