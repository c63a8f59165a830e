//! What holds of aggregates.

use vstd::prelude::*;

use super::aggs::{
    aggs_view, binds_failure, read, read_long, AggView, Aggregate, Comparison, StateView,
};
use super::batch::{BatchView, Failure, Key};
use super::groups::{
    lemma_keys_are_distinct, lemma_keys_have_members, lemma_members_push, Job,
};

verus! {

/// Whether one value is at least as good as another.
pub open spec fn as_good(comparison: Comparison, a: i64, b: i64) -> bool {
    match comparison {
        Comparison::Min => a <= b,
        Comparison::Max => a >= b,
    }
}

/// The best value of some rows is one of their values, and none is better; there is none where no
/// row has a value.
pub proof fn law_best_is_the_best(
    comparison: Comparison,
    path: Seq<Seq<char>>,
    input: Seq<BatchView>,
    rows: Seq<(int, int)>,
)
    ensures
        match AggView::Best(comparison, path).state_of(input, rows) {
            Ok(StateView::Long(Some(best))) => {
                &&& exists|i: int|
                    0 <= i < rows.len() && read_long(input, #[trigger] rows[i], path) == Some(best)
                &&& forall|i: int|
                    0 <= i < rows.len() ==> (read_long(input, #[trigger] rows[i], path) matches Some(
                        value,
                    ) ==> as_good(comparison, best, value))
            },
            Ok(StateView::Long(None)) => forall|i: int|
                0 <= i < rows.len() ==> read_long(input, #[trigger] rows[i], path) is None,
            _ => false,
        },
    decreases rows.len(),
{
    if rows.len() > 0 {
        let before = rows.drop_last();
        law_best_is_the_best(comparison, path, input, before);
        let agg = AggView::Best(comparison, path);
        let last = rows[rows.len() - 1];
        assert forall|i: int| 0 <= i < before.len() implies before[i] == #[trigger] rows[i] by {
        }
        match agg.state_of(input, before) {
            Ok(StateView::Long(Some(best))) => {
                let i = choose|i: int|
                    0 <= i < before.len() && read_long(input, #[trigger] before[i], path) == Some(
                        best,
                    );
                assert(read_long(input, rows[i], path) == Some(best));
                assert forall|j: int| 0 <= j < before.len() implies (read_long(
                    input,
                    #[trigger] rows[j],
                    path,
                ) matches Some(value) ==> as_good(comparison, best, value)) by {
                    assert(before[j] == rows[j]);
                }
            },
            _ => {
                assert forall|j: int| 0 <= j < before.len() implies read_long(
                    input,
                    #[trigger] rows[j],
                    path,
                ) is None by {
                    assert(before[j] == rows[j]);
                }
            },
        }
        assert(read_long(input, last, path) == read_long(input, rows[rows.len() - 1], path));
    }
}

/// The sum of the values that some rows have.
pub open spec fn total(input: Seq<BatchView>, rows: Seq<(int, int)>, path: Seq<Seq<char>>) -> int
    decreases rows.len(),
{
    if rows.len() == 0 {
        0
    } else {
        total(input, rows.drop_last(), path) + (match read_long(input, rows.last(), path) {
            Some(value) => value as int,
            None => 0,
        })
    }
}

/// A sum that fits 64 bits all along is the sum of the values; there is none where no row has a
/// value.
pub proof fn law_sum_is_the_total(
    path: Seq<Seq<char>>,
    input: Seq<BatchView>,
    rows: Seq<(int, int)>,
)
    ensures
        match AggView::Sum(path).state_of(input, rows) {
            Ok(StateView::Long(Some(sum))) => sum == total(input, rows, path),
            Ok(StateView::Long(None)) => total(input, rows, path) == 0 && forall|i: int|
                0 <= i < rows.len() ==> read_long(input, #[trigger] rows[i], path) is None,
            Ok(_) => false,
            Err(failure) => failure == Failure::Generic(
                "SyncPlanExecutor SUM aggregate overflowed i64"@,
            ),
        },
    decreases rows.len(),
{
    if rows.len() > 0 {
        let before = rows.drop_last();
        law_sum_is_the_total(path, input, before);
        if AggView::Sum(path).state_of(input, rows) == Ok::<StateView, Failure>(
            StateView::Long(None),
        ) {
            assert forall|i: int| 0 <= i < rows.len() implies read_long(
                input,
                #[trigger] rows[i],
                path,
            ) is None by {
                if i < before.len() {
                    assert(before[i] == rows[i]);
                }
            }
        }
    }
}

/// A count is the number of rows, or of those that have a value.
pub proof fn law_count_counts(path: Seq<Seq<char>>, input: Seq<BatchView>, rows: Seq<(int, int)>)
    requires
        rows.len() <= i64::MAX,
    ensures
        AggView::CountStar.state_of(input, rows) == Ok::<StateView, Failure>(
            StateView::Count(rows.len() as i64),
        ),
        AggView::Count(path).state_of(input, rows) == Ok::<StateView, Failure>(
            StateView::Count(
                rows.filter(|at: (int, int)| read(input, at, path) is Some).len() as i64,
            ),
        ),
        rows.filter(|at: (int, int)| read(input, at, path) is Some).len() <= rows.len(),
    decreases rows.len(),
{
    reveal(Seq::filter);
    if rows.len() > 0 {
        law_count_counts(path, input, rows.drop_last());
    }
}

/// Whether a row takes part in a choice by key.
pub open spec fn qualifies(
    input: Seq<BatchView>,
    at: (int, int),
    null_sentinel: Seq<Seq<char>>,
    key: Seq<Seq<char>>,
) -> bool {
    read(input, at, null_sentinel) is Some && read_long(input, at, key) is Some
}

/// The row that a choice by key picks is the first of those with the best key: it has a sentinel and
/// a key, no row with both has a better key, and those before it have worse ones. There is none
/// where no row has both.
pub proof fn law_winner_is_the_first_best(
    comparison: Comparison,
    value: Seq<Seq<char>>,
    null_sentinel: Seq<Seq<char>>,
    key: Seq<Seq<char>>,
    input: Seq<BatchView>,
    rows: Seq<(int, int)>,
)
    ensures
        match (AggView::NonNullBy { comparison, value, null_sentinel, key }).state_of(input, rows) {
            Ok(StateView::Winner(Some((at, best)))) => exists|w: int|
                {
                    &&& 0 <= w < rows.len()
                    &&& #[trigger] rows[w] == at
                    &&& qualifies(input, at, null_sentinel, key)
                    &&& read_long(input, at, key) == Some(best)
                    &&& forall|i: int|
                        0 <= i < rows.len() && qualifies(
                            input,
                            #[trigger] rows[i],
                            null_sentinel,
                            key,
                        ) ==> as_good(comparison, best, read_long(input, rows[i], key)->0) && (i < w
                            ==> best != read_long(input, rows[i], key)->0)
                },
            Ok(StateView::Winner(None)) => forall|i: int|
                0 <= i < rows.len() ==> !qualifies(input, #[trigger] rows[i], null_sentinel, key),
            _ => false,
        },
    decreases rows.len(),
{
    if rows.len() > 0 {
        let before = rows.drop_last();
        let agg = AggView::NonNullBy { comparison, value, null_sentinel, key };
        law_winner_is_the_first_best(comparison, value, null_sentinel, key, input, before);
        let last = rows[rows.len() - 1];
        match agg.state_of(input, before) {
            Ok(StateView::Winner(Some((at, best)))) => {
                let w = choose|w: int|
                    {
                        &&& 0 <= w < before.len()
                        &&& #[trigger] before[w] == at
                        &&& qualifies(input, at, null_sentinel, key)
                        &&& read_long(input, at, key) == Some(best)
                        &&& forall|i: int|
                            0 <= i < before.len() && qualifies(
                                input,
                                #[trigger] before[i],
                                null_sentinel,
                                key,
                            ) ==> as_good(comparison, best, read_long(input, before[i], key)->0)
                                && (i < w ==> best != read_long(input, before[i], key)->0)
                    };
                assert(rows[w] == at);
                assert forall|i: int| 0 <= i < before.len() && qualifies(
                    input,
                    #[trigger] rows[i],
                    null_sentinel,
                    key,
                ) implies as_good(comparison, best, read_long(input, rows[i], key)->0) && (i < w
                    ==> best != read_long(input, rows[i], key)->0) by {
                    assert(before[i] == rows[i]);
                }
                if qualifies(input, last, null_sentinel, key) && comparison.replaced(
                    Some(best),
                    read_long(input, last, key)->0,
                ) {
                    let w2 = rows.len() - 1;
                    assert(rows[w2] == last);
                } else {
                    assert(agg.state_of(input, rows) == agg.state_of(input, before));
                }
            },
            _ => {
                assert forall|i: int| 0 <= i < before.len() implies !qualifies(
                    input,
                    #[trigger] rows[i],
                    null_sentinel,
                    key,
                ) by {
                    assert(before[i] == rows[i]);
                }
                let w2 = rows.len() - 1;
                assert(rows[w2] == last);
            },
        }
    }
}

/// Each row belongs to one group, the one with its key, and no group is empty.
pub proof fn law_each_row_is_in_one_group(job: Job, rows: Seq<(int, int)>, i: int)
    requires
        0 <= i < rows.len(),
    ensures
        job.keys(rows).contains(job.key_of(rows[i])),
        job.keys(rows).no_duplicates(),
        forall|k: int|
            0 <= k < job.keys(rows).len() ==> job.members(#[trigger] job.keys(rows)[k], rows).len()
                > 0,
{
    lemma_keys_are_distinct(job, rows);
    lemma_row_is_a_member(job, rows, i);
    lemma_keys_have_members(job, job.key_of(rows[i]), rows);
    assert forall|k: int| 0 <= k < job.keys(rows).len() implies job.members(
        #[trigger] job.keys(rows)[k],
        rows,
    ).len() > 0 by {
        lemma_keys_have_members(job, job.keys(rows)[k], rows);
    }
}

proof fn lemma_row_is_a_member(job: Job, rows: Seq<(int, int)>, i: int)
    requires
        0 <= i < rows.len(),
    ensures
        job.members(job.key_of(rows[i]), rows).len() > 0,
    decreases rows.len(),
{
    let before = rows.drop_last();
    assert(before.push(rows.last()) =~= rows);
    lemma_members_push(job, job.key_of(rows[i]), before, rows.last());
    if i < before.len() {
        assert(before[i] == rows[i]);
        lemma_row_is_a_member(job, before, i);
    }
}

/// How many rows the groups with the first `n` of some keys have.
pub open spec fn rows_in(job: Job, keys: Seq<Key>, n: nat, rows: Seq<(int, int)>) -> nat
    decreases n,
{
    if n == 0 || n > keys.len() {
        0
    } else {
        rows_in(job, keys, (n - 1) as nat, rows) + job.members(keys[n - 1], rows).len()
    }
}

/// The groups together have as many rows as there are.
pub proof fn law_groups_share_the_rows(job: Job, rows: Seq<(int, int)>)
    ensures
        rows_in(job, job.keys(rows), job.keys(rows).len(), rows) == rows.len(),
    decreases rows.len(),
{
    if rows.len() > 0 {
        let before = rows.drop_last();
        let last = rows.last();
        let key = job.key_of(last);
        let keys = job.keys(before);
        assert(before.push(last) =~= rows);
        law_groups_share_the_rows(job, before);
        lemma_keys_are_distinct(job, before);
        if keys.contains(key) {
            let k = choose|k: int| 0 <= k < keys.len() && keys[k] == key;
            lemma_one_group_grows(job, keys, keys.len(), before, last, k);
        } else {
            lemma_no_group_grows(job, keys, keys.len(), before, last);
            lemma_keys_have_members(job, key, before);
            lemma_members_push(job, key, before, last);
            lemma_rows_in_prefix(job, keys, keys.push(key), keys.len(), rows);
        }
    }
}

proof fn lemma_rows_in_prefix(
    job: Job,
    keys: Seq<Key>,
    longer: Seq<Key>,
    n: nat,
    rows: Seq<(int, int)>,
)
    requires
        n <= keys.len() <= longer.len(),
        forall|i: int| 0 <= i < n ==> #[trigger] keys[i] == longer[i],
    ensures
        rows_in(job, keys, n, rows) == rows_in(job, longer, n, rows),
    decreases n,
{
    if n > 0 {
        lemma_rows_in_prefix(job, keys, longer, (n - 1) as nat, rows);
        assert(keys[n - 1] == longer[n - 1]);
    }
}

proof fn lemma_one_group_grows(
    job: Job,
    keys: Seq<Key>,
    n: nat,
    rows: Seq<(int, int)>,
    at: (int, int),
    k: int,
)
    requires
        n <= keys.len(),
        keys.no_duplicates(),
        0 <= k < keys.len(),
        keys[k] == job.key_of(at),
    ensures
        rows_in(job, keys, n, rows.push(at)) == rows_in(job, keys, n, rows) + (if k < n {
            1nat
        } else {
            0nat
        }),
    decreases n,
{
    if n > 0 {
        lemma_one_group_grows(job, keys, (n - 1) as nat, rows, at, k);
        lemma_members_push(job, keys[n - 1], rows, at);
    }
}

proof fn lemma_no_group_grows(
    job: Job,
    keys: Seq<Key>,
    n: nat,
    rows: Seq<(int, int)>,
    at: (int, int),
)
    requires
        n <= keys.len(),
        !keys.contains(job.key_of(at)),
    ensures
        rows_in(job, keys, n, rows.push(at)) == rows_in(job, keys, n, rows),
    decreases n,
{
    if n > 0 {
        lemma_no_group_grows(job, keys, (n - 1) as nat, rows, at);
        lemma_members_push(job, keys[n - 1], rows, at);
        assert(keys.contains(keys[n - 1]));
    }
}

/// Without input there is no group, and no batch, unless the rows are not grouped: then there is one
/// row of what the aggregates are without rows.
pub proof fn law_no_input(aggregate: Aggregate)
    requires
        binds_failure(
            aggs_view(aggregate.aggs@),
            aggregate.schema@.skip(aggregate.group_by@.len() as int),
            aggregate.job(Seq::empty()).aggs.len(),
        ) is None,
    ensures
        aggregate.group_by@.len() > 0 ==> aggregate.result(Seq::empty()) == Ok::<
            Seq<BatchView>,
            Failure,
        >(Seq::empty()),
        aggregate.group_by@.len() == 0 ==> (aggregate.result(Seq::empty()) matches Ok(batches)
            ==> batches.len() == 1 && batches[0].rows == seq![
            Seq::new(
                aggregate.job(Seq::empty()).aggs.len(),
                |j: int|
                    aggregate.job(Seq::empty()).aggs[j].output(
                        Seq::empty(),
                        aggregate.schema@[j].ty,
                        aggregate.job(Seq::empty()).aggs[j].initial(),
                    ),
            ),
        ]),
{
    let job = aggregate.job(Seq::empty());
    assert(job.all_rows() =~= Seq::empty());
    assert(job.keys(job.all_rows()) =~= Seq::empty());
    if aggregate.group_by@.len() == 0 {
        reveal(Seq::filter);
        let key: Key = Seq::empty();
        assert(job.group_keys() =~= seq![key]);
        let row = Seq::new(
            job.aggs.len(),
            |j: int|
                job.aggs[j].output(
                    Seq::empty(),
                    aggregate.schema@[j].ty,
                    job.aggs[j].initial(),
                ),
        );
        assert(job.members(key, job.all_rows()) =~= Seq::empty());
        assert(job.output_row(aggregate.schema@, key) =~= row);
        assert(job.output_rows(aggregate.schema@) =~= seq![row]);
    }
}

} // verus!
