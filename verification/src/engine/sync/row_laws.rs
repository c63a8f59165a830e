//! What holds of the rows that a plan reads, joins, filters and groups, in terms of the values that
//! the rows have.

use vstd::prelude::*;

use super::agg_laws::{
    as_good, law_best_is_the_best, law_winner_is_the_first_best, qualifies,
};
use super::aggs::{
    read, read_long, Agg, AggView, Aggregate, Comparison, NonNullByOperands, StateView,
};
use super::batch::{
    key_at, paths_view, position_from, type_at, value_at, BatchView, Failure, Key,
};
use super::groups::Job;
use super::plan::{batch_keys, has_key, holds_mask, kept, SemiJoin};
use crate::expressions::column_names::ColumnName;
use crate::expressions::scalars::ScalarView;
use crate::schema::{FieldView, PrimitiveType, TypeView};

verus! {

// ---------------------------------------------------------------------------------------------
// Values
// ---------------------------------------------------------------------------------------------

/// Whether a field is the first with its name.
pub open spec fn is_first(fields: Seq<FieldView>, k: int) -> bool {
    &&& 0 <= k < fields.len()
    &&& forall|j: int| 0 <= j < k ==> (#[trigger] fields[j]).name != fields[k].name
}

proof fn lemma_position_of_first(fields: Seq<FieldView>, k: int, from: int)
    requires
        is_first(fields, k),
        0 <= from <= k,
    ensures
        position_from(fields, fields[k].name, from) == Some(k),
    decreases k - from,
{
    if from < k {
        lemma_position_of_first(fields, k, from + 1);
    }
}

proof fn lemma_position_of_none(fields: Seq<FieldView>, name: Seq<char>, from: int)
    requires
        0 <= from <= fields.len(),
        forall|j: int| 0 <= j < fields.len() ==> (#[trigger] fields[j]).name != name,
    ensures
        position_from(fields, name, from) is None,
    decreases fields.len() - from,
{
    if from < fields.len() {
        lemma_position_of_none(fields, name, from + 1);
    }
}

/// A path of one name leads to the value in the place of the first field with that name; a null
/// there is no value.
pub proof fn law_name_leads_to_its_field(fields: Seq<FieldView>, row: Seq<ScalarView>, k: int)
    requires
        is_first(fields, k),
        k < row.len(),
    ensures
        row[k] is Null ==> value_at(fields, row, seq![fields[k].name]) is None,
        !(row[k] is Null) ==> value_at(fields, row, seq![fields[k].name]) == Some(row[k]),
        type_at(fields, seq![fields[k].name]) == Ok::<TypeView, Failure>(fields[k].ty),
{
    lemma_position_of_first(fields, k, 0);
}

/// A longer path leads on within the struct that its first name leads to, and to nothing within a
/// null.
pub proof fn law_path_leads_into_structs(
    fields: Seq<FieldView>,
    row: Seq<ScalarView>,
    k: int,
    rest: Seq<Seq<char>>,
)
    requires
        is_first(fields, k),
        k < row.len(),
        rest.len() > 0,
    ensures
        row[k] is Null ==> value_at(fields, row, seq![fields[k].name] + rest) is None,
        row[k] matches ScalarView::Struct(_, values) ==> (fields[k].ty matches TypeView::Struct(
            inner,
        ) ==> value_at(fields, row, seq![fields[k].name] + rest) == value_at(inner, values, rest)),
        fields[k].ty matches TypeView::Struct(inner) ==> type_at(
            fields,
            seq![fields[k].name] + rest,
        ) == type_at(inner, rest),
{
    lemma_position_of_first(fields, k, 0);
    let path = seq![fields[k].name] + rest;
    assert(path.skip(1) =~= rest);
    assert(path[0] == fields[k].name);
}

/// A path whose first name is that of no field leads nowhere.
pub proof fn law_unknown_name_leads_nowhere(
    fields: Seq<FieldView>,
    row: Seq<ScalarView>,
    path: Seq<Seq<char>>,
)
    requires
        path.len() > 0,
        forall|j: int| 0 <= j < fields.len() ==> (#[trigger] fields[j]).name != path[0],
    ensures
        value_at(fields, row, path) is None,
        type_at(fields, path) == Err::<TypeView, Failure>(
            Failure::Missing("No such field: "@ + path[0]),
        ),
{
    lemma_position_of_none(fields, path[0], 0);
}

// ---------------------------------------------------------------------------------------------
// Keys
// ---------------------------------------------------------------------------------------------

/// Whether a row has, at each of some paths, the value that another row has at the path in the same
/// place, or neither has one.
pub open spec fn agree(
    fields: Seq<FieldView>,
    row: Seq<ScalarView>,
    paths: Seq<Seq<Seq<char>>>,
    other_fields: Seq<FieldView>,
    other: Seq<ScalarView>,
    other_paths: Seq<Seq<Seq<char>>>,
) -> bool {
    &&& paths.len() == other_paths.len()
    &&& forall|j: int|
        0 <= j < paths.len() ==> value_at(fields, row, #[trigger] paths[j]) == value_at(
            other_fields,
            other,
            other_paths[j],
        )
}

/// Two rows have the same key exactly where they have the same value, or none, at every one of the
/// key paths; the part of a key in a place is the value of the row at the path in that place.
pub proof fn law_keys_are_equal_where_all_values_are(
    fields: Seq<FieldView>,
    row: Seq<ScalarView>,
    paths: Seq<Seq<Seq<char>>>,
    other_fields: Seq<FieldView>,
    other: Seq<ScalarView>,
    other_paths: Seq<Seq<Seq<char>>>,
)
    ensures
        key_at(fields, row, paths) == key_at(other_fields, other, other_paths) <==> agree(
            fields,
            row,
            paths,
            other_fields,
            other,
            other_paths,
        ),
        key_at(fields, row, paths).len() == paths.len(),
        forall|j: int|
            0 <= j < paths.len() ==> #[trigger] key_at(fields, row, paths)[j] == value_at(
                fields,
                row,
                paths[j],
            ),
{
    let a = key_at(fields, row, paths);
    let b = key_at(other_fields, other, other_paths);
    assert(a.len() == paths.len());
    assert(b.len() == other_paths.len());
    if a == b {
        assert forall|j: int| 0 <= j < paths.len() implies value_at(
            fields,
            row,
            #[trigger] paths[j],
        ) == value_at(other_fields, other, other_paths[j]) by {
            assert(a[j] == value_at(fields, row, paths[j]));
            assert(b[j] == value_at(other_fields, other, other_paths[j]));
        }
    }
    if agree(fields, row, paths, other_fields, other, other_paths) {
        assert forall|j: int| 0 <= j < a.len() implies a[j] == b[j] by {
            assert(a[j] == value_at(fields, row, paths[j]));
            assert(b[j] == value_at(other_fields, other, other_paths[j]));
        }
        assert(a =~= b);
    }
}

// ---------------------------------------------------------------------------------------------
// Masks
// ---------------------------------------------------------------------------------------------

/// How many of the first `n` rows a mask keeps.
pub open spec fn kept_before(mask: Seq<bool>, n: int) -> int
    decreases n,
{
    if n <= 0 {
        0
    } else {
        kept_before(mask, n - 1) + if mask[n - 1] {
            1int
        } else {
            0int
        }
    }
}

proof fn lemma_kept_before_skip(mask: Seq<bool>, n: int)
    requires
        0 < n <= mask.len(),
    ensures
        kept_before(mask, n) == kept_before(mask.skip(1), n - 1) + if mask[0] {
            1int
        } else {
            0int
        },
    decreases n,
{
    if n > 1 {
        lemma_kept_before_skip(mask, n - 1);
        assert(mask.skip(1)[n - 2] == mask[n - 1]);
    } else {
        assert(kept_before(mask, 0) == 0);
    }
}

/// A mask keeps the rows that it marks, in their order and as they are, and no others: a row that is
/// kept stands behind the kept ones before it.
pub proof fn law_kept_rows_are_those_marked(
    rows: Seq<Seq<ScalarView>>,
    mask: Seq<bool>,
    r: int,
)
    requires
        mask.len() == rows.len(),
        0 <= r < rows.len(),
    ensures
        kept(rows, mask).len() == kept_before(mask, rows.len() as int),
        mask[r] ==> 0 <= kept_before(mask, r) < kept(rows, mask).len() && kept(rows, mask)[
            kept_before(mask, r)
        ] == rows[r],
    decreases rows.len(),
{
    let rest = rows.skip(1);
    let others = mask.skip(1);
    lemma_kept_before_skip(mask, rows.len() as int);
    if rest.len() > 0 {
        if r > 0 {
            law_kept_rows_are_those_marked(rest, others, r - 1);
            lemma_kept_before_skip(mask, r);
            assert(others[r - 1] == mask[r]);
            assert(rest[r - 1] == rows[r]);
        } else {
            law_kept_rows_are_those_marked(rest, others, 0);
        }
    } else {
        assert(kept(rest, others).len() == 0);
        assert(kept_before(others, 0) == 0);
    }
    lemma_kept_before_is_natural(others, rest.len() as int);
    if r > 0 {
        lemma_kept_before_is_natural(others, r - 1);
    }
}

proof fn lemma_kept_before_is_natural(mask: Seq<bool>, n: int)
    ensures
        0 <= kept_before(mask, n),
    decreases n,
{
    if n > 0 {
        lemma_kept_before_is_natural(mask, n - 1);
    }
}

/// A filter keeps the rows for which the predicate holds: neither those for which it does not nor
/// those for which it is unknown.
pub proof fn law_filter_keeps_rows_that_hold(verdicts: Seq<Option<bool>>, r: int)
    requires
        0 <= r < verdicts.len(),
    ensures
        holds_mask(verdicts).len() == verdicts.len(),
        verdicts[r] == Some(true) ==> holds_mask(verdicts)[r],
        verdicts[r] == Some(false) ==> !holds_mask(verdicts)[r],
        verdicts[r] is None ==> !holds_mask(verdicts)[r],
{
}

// ---------------------------------------------------------------------------------------------
// Semi-joins
// ---------------------------------------------------------------------------------------------

/// Whether some row of some batches has, at each of the paths `build_paths`, the value that a row
/// has at the path of `paths` in the same place.
pub open spec fn has_match(
    fields: Seq<FieldView>,
    row: Seq<ScalarView>,
    paths: Seq<Seq<Seq<char>>>,
    build: Seq<BatchView>,
    build_paths: Seq<Seq<Seq<char>>>,
) -> bool {
    exists|b: int, i: int|
        0 <= b < build.len() && 0 <= i < build[b].rows.len() && agree(
            fields,
            row,
            paths,
            build[b].fields,
            #[trigger] build[b].rows[i],
            build_paths,
        )
}

/// A semi-join keeps the rows that have a match: a row on the other side with the same values, or
/// none, at all of the key paths. An inverted one keeps those that have none.
pub proof fn law_join_keeps_the_rows_with_a_match(
    join: SemiJoin,
    batch: BatchView,
    build: Seq<BatchView>,
    r: int,
)
    requires
        0 <= r < batch.rows.len(),
    ensures
        join.mask(batch, build).len() == batch.rows.len(),
        !join.inverted ==> (join.mask(batch, build)[r] <==> has_match(
            batch.fields,
            batch.rows[r],
            paths_view(join.probe_keys@),
            build,
            paths_view(join.build_keys@),
        )),
        join.inverted ==> (join.mask(batch, build)[r] <==> !has_match(
            batch.fields,
            batch.rows[r],
            paths_view(join.probe_keys@),
            build,
            paths_view(join.build_keys@),
        )),
{
    let paths = paths_view(join.probe_keys@);
    let build_paths = paths_view(join.build_keys@);
    let row = batch.rows[r];
    let key = key_at(batch.fields, row, paths);
    assert(batch_keys(batch, paths)[r] == key);
    if has_key(build, build_paths, key) {
        let (b, i) = choose|b: int, i: int|
            0 <= b < build.len() && 0 <= i < build[b].rows.len() && #[trigger] batch_keys(
                build[b],
                build_paths,
            )[i] == key;
        assert(batch_keys(build[b], build_paths)[i] == key_at(
            build[b].fields,
            build[b].rows[i],
            build_paths,
        ));
        law_keys_are_equal_where_all_values_are(
            batch.fields,
            row,
            paths,
            build[b].fields,
            build[b].rows[i],
            build_paths,
        );
    }
    if has_match(batch.fields, row, paths, build, build_paths) {
        let (b, i) = choose|b: int, i: int|
            0 <= b < build.len() && 0 <= i < build[b].rows.len() && agree(
                batch.fields,
                row,
                paths,
                build[b].fields,
                #[trigger] build[b].rows[i],
                build_paths,
            );
        law_keys_are_equal_where_all_values_are(
            batch.fields,
            row,
            paths,
            build[b].fields,
            build[b].rows[i],
            build_paths,
        );
        assert(batch_keys(build[b], build_paths)[i] == key);
    }
}

/// Where a join succeeds it gives a batch for each batch, with the same columns; a row that it keeps
/// stands there as it is, behind the kept ones before it.
pub proof fn law_joined_batches_hold_the_kept_rows(
    join: SemiJoin,
    probe: Seq<BatchView>,
    build: Seq<BatchView>,
    b: int,
    r: int,
)
    requires
        join.result(probe, build) is Ok,
        0 <= b < probe.len(),
        0 <= r < probe[b].rows.len(),
    ensures
        join.result(probe, build)->Ok_0.len() == probe.len(),
        join.result(probe, build)->Ok_0[b].fields == probe[b].fields,
        join.result(probe, build)->Ok_0[b].rows.len() == kept_before(
            join.mask(probe[b], build),
            probe[b].rows.len() as int,
        ),
        join.mask(probe[b], build)[r] ==> join.result(probe, build)->Ok_0[b].rows[
            kept_before(join.mask(probe[b], build), r)
        ] == probe[b].rows[r],
{
    law_join_keeps_the_rows_with_a_match(join, probe[b], build, r);
    law_kept_rows_are_those_marked(probe[b].rows, join.mask(probe[b], build), r);
}

// ---------------------------------------------------------------------------------------------
// Groups
// ---------------------------------------------------------------------------------------------

/// How many rows the first `n` batches have.
pub open spec fn rows_of_first(input: Seq<BatchView>, n: int) -> int
    decreases n,
{
    if n <= 0 {
        0
    } else {
        rows_of_first(input, n - 1) + input[n - 1].rows.len()
    }
}

pub(crate) proof fn lemma_rows_of_first_increase(input: Seq<BatchView>, n: int, m: int)
    requires
        0 <= n <= m,
    ensures
        0 <= rows_of_first(input, n) <= rows_of_first(input, m),
    decreases m,
{
    if n < m {
        lemma_rows_of_first_increase(input, n, m - 1);
    } else if n > 0 {
        lemma_rows_of_first_increase(input, n - 1, n - 1);
    }
}

proof fn lemma_rows_before(job: Job, b: int, r: int)
    requires
        0 <= b <= job.input.len(),
        0 <= r,
        r > 0 ==> b < job.input.len() && r <= job.input[b].rows.len(),
    ensures
        job.rows_before(b, r).len() == rows_of_first(job.input, b) + r,
        forall|c: int, i: int|
            0 <= i && 0 <= c && ((c < b && i < job.input[c].rows.len()) || (c == b && i < r))
                ==> #[trigger] in_place(job.input, job.rows_before(b, r), c, i),
    decreases b, r,
{
    if r > 0 {
        lemma_rows_before(job, b, r - 1);
        let before = job.rows_before(b, r - 1);
        let rows = job.rows_before(b, r);
        assert forall|c: int, i: int|
            0 <= i && 0 <= c && ((c < b && i < job.input[c].rows.len()) || (c == b && i
                < r)) implies #[trigger] in_place(job.input, rows, c, i) by {
            if c < b {
                assert(in_place(job.input, before, c, i));
                lemma_rows_of_first_increase(job.input, c + 1, b);
                lemma_rows_of_first_increase(job.input, 0, c);
            } else if i < r - 1 {
                assert(in_place(job.input, before, c, i));
                lemma_rows_of_first_increase(job.input, 0, c);
            }
        }
    } else if b > 0 {
        let n = job.input[b - 1].rows.len() as int;
        lemma_rows_before(job, b - 1, n);
        assert forall|c: int, i: int|
            0 <= i && 0 <= c && ((c < b && i < job.input[c].rows.len()) || (c == b && i
                < r)) implies #[trigger] in_place(job.input, job.rows_before(b, r), c, i) by {
            assert(in_place(job.input, job.rows_before(b - 1, n), c, i));
        }
    }
}

/// Whether a row of a batch stands where the rows before it leave off.
pub open spec fn in_place(
    input: Seq<BatchView>,
    rows: Seq<(int, int)>,
    b: int,
    r: int,
) -> bool {
    rows[rows_of_first(input, b) + r] == (b, r)
}

/// All rows are taken, batch by batch and each once.
pub proof fn law_all_rows_are_taken_in_order(job: Job, b: int, r: int)
    requires
        0 <= b < job.input.len(),
        0 <= r < job.input[b].rows.len(),
    ensures
        job.all_rows().len() == rows_of_first(job.input, job.input.len() as int),
        job.all_rows()[rows_of_first(job.input, b) + r] == (b, r),
{
    lemma_rows_before(job, job.input.len() as int, 0);
    assert(in_place(job.input, job.all_rows(), b, r));
}

/// Two rows are in the same group exactly where they have the same value, or none, in every column
/// to group by.
pub proof fn law_rows_of_a_group_agree(job: Job, a: (int, int), b: (int, int))
    ensures
        job.key_of(a) == job.key_of(b) <==> agree(
            job.input[a.0].fields,
            job.input[a.0].rows[a.1],
            job.group_by,
            job.input[b.0].fields,
            job.input[b.0].rows[b.1],
            job.group_by,
        ),
{
    law_keys_are_equal_where_all_values_are(
        job.input[a.0].fields,
        job.input[a.0].rows[a.1],
        job.group_by,
        job.input[b.0].fields,
        job.input[b.0].rows[b.1],
        job.group_by,
    );
}

/// The group of a row has that row, and of the others those that agree with it in every column to
/// group by.
pub proof fn law_group_holds_the_rows_that_agree(
    job: Job,
    rows: Seq<(int, int)>,
    a: (int, int),
    b: (int, int),
)
    requires
        rows.contains(b),
    ensures
        job.members(job.key_of(a), rows).contains(b) <==> agree(
            job.input[b.0].fields,
            job.input[b.0].rows[b.1],
            job.group_by,
            job.input[a.0].fields,
            job.input[a.0].rows[a.1],
            job.group_by,
        ),
{
    law_rows_of_a_group_agree(job, b, a);
    let key = job.key_of(a);
    let pred = |at: (int, int)| job.key_of(at) == key;
    if job.key_of(b) == key {
        rows.lemma_filter_contains(pred, rows.index_of(b));
    }
    if job.members(key, rows).contains(b) {
        let i = choose|i: int|
            0 <= i < job.members(key, rows).len() && job.members(key, rows)[i] == b;
        rows.lemma_filter_pred(pred, i);
    }
}

/// A row whose values in the columns to group by no row before it has makes a new group, which comes
/// last; another row makes none.
pub proof fn law_new_groups_come_last(job: Job, rows: Seq<(int, int)>, at: (int, int))
    ensures
        job.keys(Seq::empty()) == Seq::<Key>::empty(),
        (exists|i: int| 0 <= i < rows.len() && job.key_of(#[trigger] rows[i]) == job.key_of(at))
            ==> job.keys(rows.push(at)) == job.keys(rows),
        (forall|i: int| 0 <= i < rows.len() ==> job.key_of(#[trigger] rows[i]) != job.key_of(at))
            ==> job.keys(rows.push(at)) == job.keys(rows).push(job.key_of(at)),
{
    let key = job.key_of(at);
    assert(rows.push(at).drop_last() =~= rows);
    lemma_keys_of_rows(job, rows, key);
}

proof fn lemma_keys_of_rows(job: Job, rows: Seq<(int, int)>, key: Key)
    ensures
        job.keys(rows).contains(key) <==> exists|i: int|
            0 <= i < rows.len() && job.key_of(#[trigger] rows[i]) == key,
    decreases rows.len(),
{
    if rows.len() > 0 {
        let fewer = rows.drop_last();
        let last = job.key_of(rows.last());
        let before = job.keys(fewer);
        lemma_keys_of_rows(job, fewer, key);
        if before.contains(key) {
            let i = choose|i: int| 0 <= i < fewer.len() && job.key_of(#[trigger] fewer[i]) == key;
            assert(job.key_of(rows[i]) == key);
            if !before.contains(last) {
                let k = choose|k: int| 0 <= k < before.len() && before[k] == key;
                assert(before.push(last)[k] == key);
            }
        } else if key == last {
            assert(job.key_of(rows[rows.len() - 1]) == key);
            assert(before.push(last)[before.len() as int] == key);
        } else {
            assert forall|i: int| 0 <= i < rows.len() implies job.key_of(#[trigger] rows[i])
                != key by {
                if i < fewer.len() {
                    assert(fewer[i] == rows[i]);
                }
            }
            if job.keys(rows).contains(key) {
                let k = choose|k: int| 0 <= k < job.keys(rows).len() && job.keys(rows)[k] == key;
                assert(before[k] == key);
            }
        }
    }
}

/// The rows of a group stand in the order of all rows: a further one comes last where it agrees with
/// the group in every column to group by, and makes no difference to the group where it does not.
pub proof fn law_rows_of_a_group_keep_their_order(
    job: Job,
    rows: Seq<(int, int)>,
    a: (int, int),
    at: (int, int),
)
    ensures
        job.members(job.key_of(a), Seq::empty()) == Seq::<(int, int)>::empty(),
        job.members(job.key_of(a), rows.push(at)) == if agree(
            job.input[at.0].fields,
            job.input[at.0].rows[at.1],
            job.group_by,
            job.input[a.0].fields,
            job.input[a.0].rows[a.1],
            job.group_by,
        ) {
            job.members(job.key_of(a), rows).push(at)
        } else {
            job.members(job.key_of(a), rows)
        },
{
    reveal(Seq::filter);
    law_rows_of_a_group_agree(job, at, a);
    assert(rows.push(at).drop_last() =~= rows);
    assert(job.members(job.key_of(a), Seq::empty()) =~= Seq::<(int, int)>::empty());
}

/// The row of a group begins with the values that its rows have in the columns to group by, nulls of
/// the expected type for those that are missing, and goes on with the result of each aggregate.
pub proof fn law_group_row_begins_with_the_values_grouped_by(
    job: Job,
    output: Seq<FieldView>,
    at: (int, int),
    j: int,
)
    requires
        0 <= j < job.group_by.len(),
    ensures
        job.output_row(output, job.key_of(at)).len() == job.group_by.len() + job.aggs.len(),
        job.output_row(output, job.key_of(at))[j] == match value_at(
            job.input[at.0].fields,
            job.input[at.0].rows[at.1],
            job.group_by[j],
        ) {
            Some(value) => value,
            None => ScalarView::Null(output[j].ty),
        },
{
}

// ---------------------------------------------------------------------------------------------
// Aggregates
// ---------------------------------------------------------------------------------------------

/// Whether a row has a 64-bit integer at a path.
pub open spec fn has_long(
    input: Seq<BatchView>,
    at: (int, int),
    path: Seq<Seq<char>>,
    value: i64,
) -> bool {
    value_at(input[at.0].fields, input[at.0].rows[at.1], path) == Some(ScalarView::Long(value))
}

/// What an aggregate of some rows comes to, as a value of a type.
pub open spec fn aggregated(
    agg: AggView,
    input: Seq<BatchView>,
    rows: Seq<(int, int)>,
    ty: TypeView,
) -> ScalarView {
    agg.output(input, ty, agg.state_of(input, rows)->Ok_0)
}

/// The least value of some rows is a value of one of them, and no row has a lesser one; it is null
/// where no row has a value.
pub proof fn law_least_value_is_least(
    path: ColumnName,
    input: Seq<BatchView>,
    rows: Seq<(int, int)>,
    ty: TypeView,
    i: int,
    value: i64,
)
    requires
        0 <= i < rows.len(),
        has_long(input, rows[i], path@, value),
    ensures
        Agg::Min(path)@.state_of(input, rows) is Ok,
        exists|best: i64, w: int|
            {
                &&& aggregated(Agg::Min(path)@, input, rows, ty) == ScalarView::Long(best)
                &&& best <= value
                &&& 0 <= w < rows.len()
                &&& #[trigger] has_long(input, rows[w], path@, best)
            },
{
    law_best_is_the_best(Comparison::Min, path@, input, rows);
    assert(read_long(input, rows[i], path@) == Some(value));
    let best = AggView::Best(Comparison::Min, path@).state_of(input, rows)->Ok_0->Long_0->0;
    let w = choose|w: int|
        0 <= w < rows.len() && read_long(input, #[trigger] rows[w], path@) == Some(best);
    assert(has_long(input, rows[w], path@, best));
}

/// The greatest value of some rows is a value of one of them, and no row has a greater one.
pub proof fn law_greatest_value_is_greatest(
    path: ColumnName,
    input: Seq<BatchView>,
    rows: Seq<(int, int)>,
    ty: TypeView,
    i: int,
    value: i64,
)
    requires
        0 <= i < rows.len(),
        has_long(input, rows[i], path@, value),
    ensures
        Agg::Max(path)@.state_of(input, rows) is Ok,
        exists|best: i64, w: int|
            {
                &&& aggregated(Agg::Max(path)@, input, rows, ty) == ScalarView::Long(best)
                &&& best >= value
                &&& 0 <= w < rows.len()
                &&& #[trigger] has_long(input, rows[w], path@, best)
            },
{
    law_best_is_the_best(Comparison::Max, path@, input, rows);
    assert(read_long(input, rows[i], path@) == Some(value));
    let best = AggView::Best(Comparison::Max, path@).state_of(input, rows)->Ok_0->Long_0->0;
    let w = choose|w: int|
        0 <= w < rows.len() && read_long(input, #[trigger] rows[w], path@) == Some(best);
    assert(has_long(input, rows[w], path@, best));
}

/// Where no row has a value, the least and the greatest value and the sum are null.
pub proof fn law_no_values_give_null(
    path: ColumnName,
    input: Seq<BatchView>,
    rows: Seq<(int, int)>,
    ty: TypeView,
)
    requires
        forall|i: int|
            0 <= i < rows.len() ==> read(input, #[trigger] rows[i], path@) is None,
    ensures
        aggregated(Agg::Min(path)@, input, rows, ty) == ScalarView::Null(
            TypeView::Primitive(PrimitiveType::Long),
        ),
        aggregated(Agg::Max(path)@, input, rows, ty) == ScalarView::Null(
            TypeView::Primitive(PrimitiveType::Long),
        ),
        aggregated(Agg::Sum(path)@, input, rows, ty) == ScalarView::Null(
            TypeView::Primitive(PrimitiveType::Long),
        ),
        Agg::Min(path)@.state_of(input, rows) == Ok::<StateView, Failure>(StateView::Long(None)),
        Agg::Max(path)@.state_of(input, rows) == Ok::<StateView, Failure>(StateView::Long(None)),
        Agg::Sum(path)@.state_of(input, rows) == Ok::<StateView, Failure>(StateView::Long(None)),
    decreases rows.len(),
{
    if rows.len() > 0 {
        let before = rows.drop_last();
        assert forall|i: int| 0 <= i < before.len() implies read(
            input,
            #[trigger] before[i],
            path@,
        ) is None by {
            assert(before[i] == rows[i]);
        }
        law_no_values_give_null(path, input, before, ty);
        assert(read(input, rows[rows.len() - 1], path@) is None);
    }
}

/// A row adds its value to the sum of those before it, and nothing where it has none; a sum that
/// does not fit 64 bits is an error.
pub proof fn law_row_adds_its_value(
    path: ColumnName,
    input: Seq<BatchView>,
    rows: Seq<(int, int)>,
    at: (int, int),
    sum: i64,
    value: i64,
)
    requires
        Agg::Sum(path)@.state_of(input, rows) == Ok::<StateView, Failure>(
            StateView::Long(Some(sum)),
        ),
    ensures
        read(input, at, path@) is None ==> Agg::Sum(path)@.state_of(input, rows.push(at)) == Ok::<
            StateView,
            Failure,
        >(StateView::Long(Some(sum))),
        has_long(input, at, path@, value) && i64::MIN <= sum + value <= i64::MAX ==> Agg::Sum(
            path,
        )@.state_of(input, rows.push(at)) == Ok::<StateView, Failure>(
            StateView::Long(Some((sum + value) as i64)),
        ),
        has_long(input, at, path@, value) && !(i64::MIN <= sum + value <= i64::MAX) ==> Agg::Sum(
            path,
        )@.state_of(input, rows.push(at)) is Err,
{
    assert(rows.push(at).drop_last() =~= rows);
}

/// The first value is the sum of itself.
pub proof fn law_first_value_is_its_sum(
    path: ColumnName,
    input: Seq<BatchView>,
    rows: Seq<(int, int)>,
    at: (int, int),
    value: i64,
)
    requires
        Agg::Sum(path)@.state_of(input, rows) == Ok::<StateView, Failure>(StateView::Long(None)),
        has_long(input, at, path@, value),
    ensures
        Agg::Sum(path)@.state_of(input, rows.push(at)) == Ok::<StateView, Failure>(
            StateView::Long(Some(value)),
        ),
{
    assert(rows.push(at).drop_last() =~= rows);
}

/// Counting rows counts each one; counting a column counts those that have a value there, of
/// whatever type.
pub proof fn law_row_is_counted_where_it_has_a_value(
    path: ColumnName,
    input: Seq<BatchView>,
    rows: Seq<(int, int)>,
    at: (int, int),
    n: i64,
)
    requires
        0 <= n < i64::MAX,
    ensures
        Agg::CountStar@.state_of(input, rows) == Ok::<StateView, Failure>(StateView::Count(n))
            ==> Agg::CountStar@.state_of(input, rows.push(at)) == Ok::<StateView, Failure>(
            StateView::Count((n + 1) as i64),
        ),
        Agg::Count(path)@.state_of(input, rows) == Ok::<StateView, Failure>(StateView::Count(n))
            ==> Agg::Count(path)@.state_of(input, rows.push(at)) == Ok::<StateView, Failure>(
            StateView::Count(
                if value_at(input[at.0].fields, input[at.0].rows[at.1], path@) is Some {
                    (n + 1) as i64
                } else {
                    n
                },
            ),
        ),
        Agg::CountStar@.state_of(input, Seq::empty()) == Ok::<StateView, Failure>(
            StateView::Count(0),
        ),
        Agg::Count(path)@.state_of(input, Seq::empty()) == Ok::<StateView, Failure>(
            StateView::Count(0),
        ),
        Agg::CountStar@.output(input, TypeView::Primitive(PrimitiveType::Long), StateView::Count(n))
            == ScalarView::Long(n),
{
    assert(rows.push(at).drop_last() =~= rows);
}

/// Whether a row takes part in a choice by a key: it has a sentinel and a key.
pub open spec fn takes_part(
    input: Seq<BatchView>,
    at: (int, int),
    operands: NonNullByOperands,
    key: i64,
) -> bool {
    value_at(input[at.0].fields, input[at.0].rows[at.1], operands.null_sentinel@) is Some
        && has_long(input, at, operands.key@, key)
}

/// A choice by the least key gives the value of a row whose key is no greater than that of any other
/// row that takes part; a choice by the greatest key that of one whose key is no less.
pub proof fn law_choice_gives_the_value_with_the_best_key(
    operands: NonNullByOperands,
    input: Seq<BatchView>,
    rows: Seq<(int, int)>,
    ty: TypeView,
    i: int,
    key: i64,
)
    requires
        0 <= i < rows.len(),
        takes_part(input, rows[i], operands, key),
    ensures
        exists|w: int, best: i64|
            {
                &&& 0 <= w < rows.len()
                &&& #[trigger] takes_part(input, rows[w], operands, best)
                &&& best <= key
                &&& aggregated(Agg::MinNonNullBy(operands)@, input, rows, ty) == match value_at(
                    input[rows[w].0].fields,
                    input[rows[w].0].rows[rows[w].1],
                    operands.value@,
                ) {
                    Some(value) => value,
                    None => ScalarView::Null(ty),
                }
            },
        exists|w: int, best: i64|
            {
                &&& 0 <= w < rows.len()
                &&& #[trigger] takes_part(input, rows[w], operands, best)
                &&& best >= key
                &&& aggregated(Agg::MaxNonNullBy(operands)@, input, rows, ty) == match value_at(
                    input[rows[w].0].fields,
                    input[rows[w].0].rows[rows[w].1],
                    operands.value@,
                ) {
                    Some(value) => value,
                    None => ScalarView::Null(ty),
                }
            },
{
    lemma_choice(Comparison::Min, operands, input, rows, ty, i, key);
    lemma_choice(Comparison::Max, operands, input, rows, ty, i, key);
}

spec fn choice(comparison: Comparison, operands: NonNullByOperands) -> AggView {
    AggView::NonNullBy {
        comparison,
        value: operands.value@,
        null_sentinel: operands.null_sentinel@,
        key: operands.key@,
    }
}

proof fn lemma_choice(
    comparison: Comparison,
    operands: NonNullByOperands,
    input: Seq<BatchView>,
    rows: Seq<(int, int)>,
    ty: TypeView,
    i: int,
    key: i64,
)
    requires
        0 <= i < rows.len(),
        takes_part(input, rows[i], operands, key),
    ensures
        exists|w: int, best: i64|
            {
                &&& 0 <= w < rows.len()
                &&& #[trigger] takes_part(input, rows[w], operands, best)
                &&& as_good(comparison, best, key)
                &&& aggregated(choice(comparison, operands), input, rows, ty) == match value_at(
                    input[rows[w].0].fields,
                    input[rows[w].0].rows[rows[w].1],
                    operands.value@,
                ) {
                    Some(value) => value,
                    None => ScalarView::Null(ty),
                }
            },
{
    law_winner_is_the_first_best(
        comparison,
        operands.value@,
        operands.null_sentinel@,
        operands.key@,
        input,
        rows,
    );
    assert(qualifies(input, rows[i], operands.null_sentinel@, operands.key@));
    match choice(comparison, operands).state_of(input, rows) {
        Ok(StateView::Winner(Some((at, best)))) => {
            let w = choose|w: int|
                {
                    &&& 0 <= w < rows.len()
                    &&& #[trigger] rows[w] == at
                    &&& qualifies(
                        input,
                        at,
                        operands.null_sentinel@,
                        operands.key@,
                    )
                    &&& read_long(input, at, operands.key@) == Some(best)
                    &&& forall|i: int|
                        0 <= i < rows.len() && qualifies(
                            input,
                            #[trigger] rows[i],
                            operands.null_sentinel@,
                            operands.key@,
                        ) ==> as_good(comparison, best, read_long(input, rows[i], operands.key@)->0)
                            && (i < w ==> best != read_long(input, rows[i], operands.key@)->0)
                };
            assert(takes_part(input, rows[w], operands, best));
        },
        _ => {},
    }
}

/// An aggregation groups by the columns that it names, in their order, and computes the aggregates
/// that its schema has fields for.
pub proof fn law_aggregation_does_what_it_names(aggregate: Aggregate, input: Seq<BatchView>, j: int)
    ensures
        aggregate.job(input).input == input,
        aggregate.job(input).group_by.len() == aggregate.group_by@.len(),
        0 <= j < aggregate.group_by@.len() ==> aggregate.job(input).group_by[j]
            == aggregate.group_by@[j]@,
        aggregate.schema@.len() >= aggregate.group_by@.len() + aggregate.aggs@.len()
            ==> aggregate.job(input).aggs.len() == aggregate.aggs@.len(),
        0 <= j < aggregate.aggs@.len() && aggregate.group_by@.len() + j < aggregate.schema@.len()
            ==> j < aggregate.job(input).aggs.len() && aggregate.job(input).aggs[j]
            == aggregate.aggs@[j]@,
{
}

/// Where an aggregation gives a batch, the batch has a row for each group: the values of the group
/// in the columns to group by, then what each aggregate comes to over the rows of the group.
pub proof fn law_aggregation_gives_a_row_for_each_group(
    aggregate: Aggregate,
    input: Seq<BatchView>,
    k: int,
    a: int,
)
    requires
        aggregate.result(input) is Ok,
        aggregate.result(input)->Ok_0.len() > 0,
        0 <= k < aggregate.job(input).group_keys().len(),
        0 <= a < aggregate.job(input).aggs.len(),
    ensures
        ({
            let job = aggregate.job(input);
            let batch = aggregate.result(input)->Ok_0[0];
            let key = job.group_keys()[k];
            &&& aggregate.result(input)->Ok_0.len() == 1
            &&& batch.fields == aggregate.schema@
            &&& batch.rows.len() == job.group_keys().len()
            &&& batch.rows[k][job.group_by.len() + a] == aggregated(
                job.aggs[a],
                input,
                job.members(key, job.all_rows()),
                aggregate.schema@[job.group_by.len() + a].ty,
            )
        }),
{
}

} // verus!
