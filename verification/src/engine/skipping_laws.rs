//! What holds of every row group whose statistics are looked at.

use vstd::prelude::*;

use crate::engine::parquet_row_group_skipping::{
    big_endian, decimal_digits, field_index, first_at, is_partition_column, later_by_999,
    lemma_big_endian_bound, lemma_first_at_bound, lemma_last_at_bound, lemma_pow_256,
    partition_path, partition_place, stats_path, stats_places, HALF_128, MAX_VALUES, MIN_VALUES,
    NULL_COUNT,
};
use crate::engine::statistics::ColumnChunk;
use crate::expressions::column_names::names_view;
use crate::expressions::tree::PredView;
use crate::expressions::tree_walk::pred_refers;

verus! {

/// A greatest time that was cut to milliseconds, once widened, is no less than the time that it was
/// cut from.
pub proof fn law_widened_time_covers_what_was_cut(stored: i64, actual: i64)
    requires
        stored <= actual <= stored + 999,
    ensures
        actual <= later_by_999(stored),
{
}

/// Up to 16 bytes stand for a number of 128 bits with a sign, and fewer than 16 for one that is not
/// negative.
pub proof fn law_decimal_bytes_fit(bytes: Seq<u8>)
    requires
        bytes.len() <= 16,
    ensures
        i128::MIN <= decimal_digits(bytes) <= i128::MAX,
        bytes.len() < 16 ==> decimal_digits(bytes) == big_endian(bytes),
{
    lemma_big_endian_bound(bytes, bytes.len());
    lemma_pow_256(bytes.len());
    assert(bytes.take(bytes.len() as int) =~= bytes);
    if bytes.len() < 16 {
        let n = bytes.len();
        assert(vstd::arithmetic::power::pow(256, n) <= HALF_128) by {
            reveal_with_fuel(vstd::arithmetic::power::pow, 17);
        }
    }
}

/// The statistics that are read for a column are those of the first column that stands at its path,
/// and only where the predicate refers to it.
pub proof fn law_column_reads_its_own_statistics(
    columns: Seq<ColumnChunk>,
    predicate: PredView,
    column: Seq<Seq<char>>,
)
    ensures
        field_index(columns, predicate, column) matches Some(i) ==> {
            &&& pred_refers(predicate, column)
            &&& 0 <= i < columns.len()
            &&& names_view(columns[i].path@) == column
            &&& forall|j: int|
                0 <= j < i ==> names_view((#[trigger] columns[j]).path@) != column
        },
        field_index(columns, predicate, column) is None && pred_refers(predicate, column)
            ==> forall|j: int|
            0 <= j < columns.len() ==> names_view((#[trigger] columns[j]).path@) != column,
{
    lemma_first_at_bound(columns, column, columns.len());
    lemma_none_before_first(columns, column, columns.len());
}

proof fn lemma_none_before_first(columns: Seq<ColumnChunk>, path: Seq<Seq<char>>, n: nat)
    requires
        n <= columns.len(),
    ensures
        match first_at(columns, path, n) {
            Some(i) => forall|j: int|
                0 <= j < i ==> names_view((#[trigger] columns[j]).path@) != path,
            None => forall|j: int|
                0 <= j < n ==> names_view((#[trigger] columns[j]).path@) != path,
        },
    decreases n,
{
    if n > 0 {
        lemma_none_before_first(columns, path, (n - 1) as nat);
    }
}

/// No column is looked up both among the statistics and among the partition values of a checkpoint,
/// and each place that is looked at is where the layout of checkpoints puts it.
pub proof fn law_checkpoint_places_are_apart(
    columns: Seq<ColumnChunk>,
    predicate: PredView,
    partition_columns: Seq<Seq<char>>,
    column: Seq<Seq<char>>,
)
    ensures
        ({
            let n = columns.len();
            let (min, max, nulls) = stats_places(columns, predicate, partition_columns, column, n);
            let partition = partition_place(columns, predicate, partition_columns, column, n);
            &&& partition is Some ==> is_partition_column(column, partition_columns) && min is None
                && max is None && nulls is None
            &&& min matches Some(i) ==> 0 <= i < n && names_view(columns[i].path@) == stats_path(
                MIN_VALUES@,
                column,
            )
            &&& max matches Some(i) ==> 0 <= i < n && names_view(columns[i].path@) == stats_path(
                MAX_VALUES@,
                column,
            )
            &&& nulls matches Some(i) ==> 0 <= i < n && names_view(columns[i].path@) == stats_path(
                NULL_COUNT@,
                column,
            )
            &&& partition matches Some(i) ==> 0 <= i < n && names_view(columns[i].path@)
                == partition_path(column[0])
        }),
{
    let n = columns.len();
    lemma_last_at_bound(columns, stats_path(MIN_VALUES@, column), n);
    lemma_last_at_bound(columns, stats_path(MAX_VALUES@, column), n);
    lemma_last_at_bound(columns, stats_path(NULL_COUNT@, column), n);
    lemma_last_at_bound(columns, partition_path(column[0]), n);
}

} // verus!
