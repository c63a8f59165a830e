//! When the nodes of a plan succeed: which columns, types and values they need.

use vstd::prelude::*;

use super::aggregation::{column_types, missing_failure, mixed_failure, sources_failure};
use super::aggs::{binds_failure, prepares_failure, Agg, AggView};
use super::batch::{
    has_null, nulls_failure, paths_failure, paths_view, type_at, value_at, BatchView, Failure,
};
use super::groups::Job;
use super::plan::{batches_failure, SemiJoin};
use super::query::{plan_wf, PlanNode};
use super::scan::{
    column_of, constant_at, narrowed, values_batch, values_failure, DynamicScan, ScanFileView,
};
use crate::expressions::column_names::ColumnName;
use crate::expressions::parse_laws::law_list_elements_fit;
use crate::expressions::scalar_data::elements_problem;
use crate::expressions::scalars::ScalarView;
use crate::schema::{FieldView, PrimitiveType, TypeView};

verus! {

// ---------------------------------------------------------------------------------------------
// Joins
// ---------------------------------------------------------------------------------------------

/// Whether all of some paths lead to columns of a batch.
pub open spec fn has_columns(fields: Seq<FieldView>, paths: Seq<Seq<Seq<char>>>) -> bool {
    forall|j: int| 0 <= j < paths.len() ==> type_at(fields, #[trigger] paths[j]) is Ok
}

pub(crate) proof fn lemma_paths_failure(
    fields: Seq<FieldView>,
    paths: Seq<Seq<Seq<char>>>,
    n: nat,
)
    requires
        n <= paths.len(),
    ensures
        paths_failure(fields, paths, n) is None <==> forall|j: int|
            0 <= j < n ==> type_at(fields, #[trigger] paths[j]) is Ok,
    decreases n,
{
    if n > 0 {
        lemma_paths_failure(fields, paths, (n - 1) as nat);
        assert(type_at(fields, paths[n - 1]) is Ok || type_at(fields, paths[n - 1]) is Err);
    }
}

proof fn lemma_batches_failure(batches: Seq<BatchView>, paths: Seq<Seq<Seq<char>>>, n: nat)
    requires
        n <= batches.len(),
    ensures
        batches_failure(batches, paths, n) is None <==> forall|b: int|
            0 <= b < n ==> has_columns((#[trigger] batches[b]).fields, paths),
    decreases n,
{
    if n > 0 {
        lemma_batches_failure(batches, paths, (n - 1) as nat);
        lemma_paths_failure(batches[n - 1].fields, paths, paths.len());
        assert(has_columns(batches[n - 1].fields, paths) <==> paths_failure(
            batches[n - 1].fields,
            paths,
            paths.len(),
        ) is None);
    }
}

/// A join succeeds exactly where every batch has the key columns of its side.
pub proof fn law_join_needs_its_key_columns(
    join: SemiJoin,
    probe: Seq<BatchView>,
    build: Seq<BatchView>,
)
    ensures
        join.result(probe, build) is Ok <==> (forall|b: int|
            0 <= b < build.len() ==> has_columns(
                (#[trigger] build[b]).fields,
                paths_view(join.build_keys@),
            )) && forall|b: int|
            0 <= b < probe.len() ==> has_columns(
                (#[trigger] probe[b]).fields,
                paths_view(join.probe_keys@),
            ),
{
    lemma_batches_failure(build, paths_view(join.build_keys@), build.len());
    lemma_batches_failure(probe, paths_view(join.probe_keys@), probe.len());
}

// ---------------------------------------------------------------------------------------------
// Scans
// ---------------------------------------------------------------------------------------------

/// A batch can name files exactly where its path is text, its size and time are 64-bit integers, and
/// it has a column for deletion vectors.
pub proof fn law_batch_names_files_by_text_and_numbers(scan: DynamicScan, fields: Seq<FieldView>)
    ensures
        scan.batch_failure(fields) is None <==> type_at(fields, scan.path_column@) == Ok::<
            TypeView,
            Failure,
        >(TypeView::Primitive(PrimitiveType::String)) && type_at(fields, scan.file_size_column@)
            == Ok::<TypeView, Failure>(TypeView::Primitive(PrimitiveType::Long)) && type_at(
            fields,
            scan.last_modified_column@,
        ) == Ok::<TypeView, Failure>(TypeView::Primitive(PrimitiveType::Long)) && type_at(
            fields,
            scan.dv_column@,
        ) is Ok,
{
}

/// A value in a column of constants is one where it is text, a 64-bit integer or null.
pub proof fn law_constants_are_texts_and_longs(
    fields: Seq<FieldView>,
    row: Seq<ScalarView>,
    name: Seq<char>,
)
    requires
        type_at(fields, seq![name]) is Ok,
    ensures
        constant_at(fields, row, name) is Ok <==> match value_at(fields, row, seq![name]) {
            Some(value) => value is String || value is Long,
            None => true,
        },
{
}

proof fn lemma_with_rows(scan: DynamicScan, before: Seq<ScanFileView>, batch: BatchView, n: nat)
    requires
        n <= batch.rows.len(),
    ensures
        scan.with_rows(before, batch, n) is Ok <==> forall|r: int|
            0 <= r < n ==> scan.file(batch.fields, #[trigger] batch.rows[r]) is Ok,
    decreases n,
{
    if n > 0 {
        lemma_with_rows(scan, before, batch, (n - 1) as nat);
        assert(scan.file(batch.fields, batch.rows[n - 1]) is Ok || scan.file(
            batch.fields,
            batch.rows[n - 1],
        ) is Err);
    }
}

/// Whether a batch can name files, and each of its rows names one.
pub open spec fn names_files(scan: DynamicScan, batch: BatchView) -> bool {
    scan.batch_failure(batch.fields) is None && forall|r: int|
        0 <= r < batch.rows.len() ==> scan.file(batch.fields, #[trigger] batch.rows[r]) is Ok
}

proof fn lemma_files_succeed(scan: DynamicScan, input: Seq<BatchView>, n: nat)
    requires
        n <= input.len(),
    ensures
        scan.files(input, n) is Ok <==> forall|b: int|
            0 <= b < n ==> names_files(scan, #[trigger] input[b]),
    decreases n,
{
    if n > 0 {
        lemma_files_succeed(scan, input, (n - 1) as nat);
        if let Ok(before) = scan.files(input, (n - 1) as nat) {
            lemma_with_rows(scan, before, input[n - 1], input[n - 1].rows.len());
        } else {
            let b = choose|b: int|
                0 <= b < n - 1 && !names_files(scan, #[trigger] input[b]);
            assert(!names_files(scan, input[b]));
        }
    }
}

/// A scan succeeds exactly where every batch can name files and every row names one.
pub proof fn law_scan_succeeds_where_every_row_names_a_file(
    scan: DynamicScan,
    input: Seq<BatchView>,
)
    ensures
        scan.files(input, input.len()) is Ok <==> forall|b: int|
            0 <= b < input.len() ==> names_files(scan, #[trigger] input[b]),
{
    lemma_files_succeed(scan, input, input.len());
}

// ---------------------------------------------------------------------------------------------
// Literal rows
// ---------------------------------------------------------------------------------------------

proof fn lemma_nulls(output: Seq<FieldView>, rows: Seq<Seq<ScalarView>>, n: nat)
    requires
        n <= output.len(),
    ensures
        nulls_failure(output, rows, n) is None <==> forall|j: int|
            0 <= j < n && !(#[trigger] output[j]).nullable ==> !has_null(rows, j),
    decreases n,
{
    if n > 0 {
        lemma_nulls(output, rows, (n - 1) as nat);
        let _ = output[n - 1];
    }
}

/// Whether a value in each of some rows has a type.
pub open spec fn column_has_type(rows: Seq<Seq<ScalarView>>, j: int, ty: TypeView) -> bool {
    forall|i: int| 0 <= i < rows.len() ==> (#[trigger] rows[i])[j].data_type() == ty
}

proof fn lemma_values(fields: Seq<FieldView>, rows: Seq<Seq<ScalarView>>, n: nat)
    requires
        n <= fields.len(),
    ensures
        values_failure(fields, rows, n) is None <==> forall|j: int|
            0 <= j < n ==> column_has_type(rows, j, (#[trigger] fields[j]).ty),
    decreases n,
{
    if n > 0 {
        lemma_values(fields, rows, (n - 1) as nat);
        let j = n - 1;
        let column = column_of(rows, j);
        assert(column.len() == rows.len());
        law_list_elements_fit(fields[j].ty, true, column, rows.len());
        if elements_problem(fields[j].ty, true, column, rows.len()) is None {
            assert forall|i: int| 0 <= i < rows.len() implies (#[trigger] rows[i])[j].data_type()
                == fields[j].ty by {
                assert(column[i] == rows[i][j]);
            }
        }
        if column_has_type(rows, j, fields[j].ty) {
            assert forall|i: int| 0 <= i < rows.len() implies (#[trigger] column[i]).data_type()
                == fields[j].ty by {
                assert(column[i] == rows[i][j]);
            }
        }
    }
}

/// Literal rows make a batch exactly where there is a field, each value has the type of its field,
/// and none is null that must not be.
pub proof fn law_literal_rows_must_fit_their_fields(
    fields: Seq<FieldView>,
    rows: Seq<Seq<ScalarView>>,
)
    requires
        forall|i: int| 0 <= i < rows.len() ==> (#[trigger] rows[i]).len() >= fields.len(),
    ensures
        values_batch(fields, rows) is Ok <==> fields.len() > 0 && (forall|j: int|
            0 <= j < fields.len() ==> column_has_type(rows, j, (#[trigger] fields[j]).ty))
            && forall|j: int|
            0 <= j < fields.len() && !(#[trigger] fields[j]).nullable ==> !has_null(rows, j),
{
    let cells = narrowed(rows, fields.len());
    lemma_values(fields, cells, fields.len());
    lemma_nulls(fields, cells, fields.len());
    assert forall|j: int| 0 <= j < fields.len() implies has_null(cells, j) == has_null(rows, j)
        && column_has_type(cells, j, (#[trigger] fields[j]).ty) == column_has_type(
        rows,
        j,
        fields[j].ty,
    ) by {
        assert forall|i: int| 0 <= i < rows.len() implies (#[trigger] cells[i])[j] == rows[i][j] by {
            let _ = rows[i];
        }
        if has_null(rows, j) {
            let i = choose|i: int| 0 <= i < rows.len() && (#[trigger] rows[i])[j] is Null;
            assert(cells[i][j] is Null);
        }
        if column_has_type(cells, j, fields[j].ty) {
            assert forall|i: int| 0 <= i < rows.len() implies (#[trigger] rows[i])[j].data_type()
                == fields[j].ty by {
                assert(cells[i][j] == rows[i][j]);
            }
        }
    }
}

// ---------------------------------------------------------------------------------------------
// Aggregates
// ---------------------------------------------------------------------------------------------

/// The least value, the greatest and the sum need a column of 64-bit integers and give such a column;
/// counting needs a column of any type, or none.
pub proof fn law_aggregates_need_their_columns(
    path: ColumnName,
    fields: Seq<FieldView>,
    output: TypeView,
)
    ensures
        Agg::Min(path)@.prepare_failure(fields) is None <==> type_at(fields, path@) == Ok::<
            TypeView,
            Failure,
        >(TypeView::Primitive(PrimitiveType::Long)),
        Agg::Max(path)@.prepare_failure(fields) is None <==> type_at(fields, path@) == Ok::<
            TypeView,
            Failure,
        >(TypeView::Primitive(PrimitiveType::Long)),
        Agg::Sum(path)@.prepare_failure(fields) is None <==> type_at(fields, path@) == Ok::<
            TypeView,
            Failure,
        >(TypeView::Primitive(PrimitiveType::Long)),
        Agg::Count(path)@.prepare_failure(fields) is None <==> type_at(fields, path@) is Ok,
        Agg::CountStar@.prepare_failure(fields) is None,
        Agg::Min(path)@.bind_failure(output) is None <==> output == TypeView::Primitive(
            PrimitiveType::Long,
        ),
        Agg::Max(path)@.bind_failure(output) is None <==> output == TypeView::Primitive(
            PrimitiveType::Long,
        ),
        Agg::Sum(path)@.bind_failure(output) is None <==> output == TypeView::Primitive(
            PrimitiveType::Long,
        ),
        Agg::Count(path)@.bind_failure(output) is None <==> output == TypeView::Primitive(
            PrimitiveType::Long,
        ),
        Agg::CountStar@.bind_failure(output) is None <==> output == TypeView::Primitive(
            PrimitiveType::Long,
        ),
{
}

proof fn lemma_binds(aggs: Seq<AggView>, output: Seq<FieldView>, n: nat)
    requires
        n <= aggs.len(),
        n <= output.len(),
    ensures
        binds_failure(aggs, output, n) is None <==> forall|a: int|
            0 <= a < n ==> (#[trigger] aggs[a]).bind_failure(output[a].ty) is None,
    decreases n,
{
    if n > 0 {
        lemma_binds(aggs, output, (n - 1) as nat);
        let _ = aggs[n - 1];
    }
}

proof fn lemma_prepares(aggs: Seq<AggView>, fields: Seq<FieldView>, n: nat)
    requires
        n <= aggs.len(),
    ensures
        prepares_failure(aggs, fields, n) is None <==> forall|a: int|
            0 <= a < n ==> (#[trigger] aggs[a]).prepare_failure(fields) is None,
    decreases n,
{
    if n > 0 {
        lemma_prepares(aggs, fields, (n - 1) as nat);
        let _ = aggs[n - 1];
    }
}

/// Aggregates can have their results exactly where each can have those of the type of its field, and
/// can read a batch exactly where each can.
pub proof fn law_every_aggregate_must_fit(
    aggs: Seq<AggView>,
    output: Seq<FieldView>,
    fields: Seq<FieldView>,
)
    requires
        aggs.len() <= output.len(),
    ensures
        binds_failure(aggs, output, aggs.len()) is None <==> forall|a: int|
            0 <= a < aggs.len() ==> (#[trigger] aggs[a]).bind_failure(output[a].ty) is None,
        prepares_failure(aggs, fields, aggs.len()) is None <==> forall|a: int|
            0 <= a < aggs.len() ==> (#[trigger] aggs[a]).prepare_failure(fields) is None,
{
    lemma_binds(aggs, output, aggs.len());
    lemma_prepares(aggs, fields, aggs.len());
}

proof fn lemma_scan_reads(job: Job, n: nat, b: int)
    requires
        0 <= b < n <= job.input.len(),
        job.scan_failure(n) is None,
    ensures
        job.batch_failure(job.input[b]) is None,
    decreases n,
{
    if b < n - 1 {
        lemma_scan_reads(job, (n - 1) as nat, b);
    }
}

/// Rows can be grouped only where every batch has the columns to group by, and every aggregate can
/// read it.
pub proof fn law_grouping_needs_its_columns(job: Job, b: int)
    requires
        job.scan_failure(job.input.len()) is None,
        0 <= b < job.input.len(),
    ensures
        has_columns(job.input[b].fields, job.group_by),
        forall|a: int|
            0 <= a < job.aggs.len() ==> (#[trigger] job.aggs[a]).prepare_failure(
                job.input[b].fields,
            ) is None,
{
    lemma_scan_reads(job, job.input.len(), b);
    lemma_paths_failure(job.input[b].fields, job.group_by, job.group_by.len());
    lemma_prepares(job.aggs, job.input[b].fields, job.aggs.len());
}

proof fn lemma_rows_can_be_grouped(job: Job, rows: Seq<(int, int)>)
    requires
        job.aggs.len() == 0,
    ensures
        job.rows_failure(rows) is None,
    decreases rows.len(),
{
    if rows.len() > 0 {
        lemma_rows_can_be_grouped(job, rows.drop_last());
    }
}

/// Without aggregates rows can be grouped wherever every batch has the columns to group by.
pub proof fn law_grouping_alone_needs_only_its_columns(job: Job, n: nat)
    requires
        job.aggs.len() == 0,
        n <= job.input.len(),
        forall|b: int| 0 <= b < n ==> has_columns((#[trigger] job.input[b]).fields, job.group_by),
    ensures
        job.scan_failure(n) is None,
    decreases n,
{
    if n > 0 {
        law_grouping_alone_needs_only_its_columns(job, (n - 1) as nat);
        let batch = job.input[n - 1];
        assert(has_columns(batch.fields, job.group_by));
        lemma_paths_failure(batch.fields, job.group_by, job.group_by.len());
        lemma_rows_can_be_grouped(job, job.rows_before(n as int, 0));
    }
}

proof fn lemma_missing(input: Seq<BatchView>, path: Seq<Seq<char>>, n: nat)
    requires
        n <= input.len(),
    ensures
        missing_failure(input, path, n) is None <==> forall|b: int|
            0 <= b < n ==> type_at((#[trigger] input[b]).fields, path) is Ok,
    decreases n,
{
    if n > 0 {
        lemma_missing(input, path, (n - 1) as nat);
        let _ = input[n - 1];
    }
}

proof fn lemma_mixed(types: Seq<TypeView>, n: nat)
    requires
        n <= types.len(),
    ensures
        mixed_failure(types, n) is None <==> forall|i: int|
            0 <= i < n ==> #[trigger] types[i] == types[0],
    decreases n,
{
    if n > 0 {
        lemma_mixed(types, (n - 1) as nat);
        let _ = types[n - 1];
    }
}

/// Values of several batches can stand in one column exactly where every batch has the column and it
/// has one type in all of them.
pub proof fn law_one_column_has_one_type(input: Seq<BatchView>, path: Seq<Seq<char>>)
    ensures
        sources_failure(input, path, None) is None <==> (forall|b: int|
            0 <= b < input.len() ==> type_at((#[trigger] input[b]).fields, path) is Ok) && forall|
            b: int,
        |
            0 <= b < input.len() ==> type_at((#[trigger] input[b]).fields, path) == type_at(
                input[0].fields,
                path,
            ),
{
    lemma_missing(input, path, input.len());
    let types = column_types(input, path);
    lemma_mixed(types, types.len());
    if forall|b: int| 0 <= b < input.len() ==> type_at((#[trigger] input[b]).fields, path) is Ok {
        assert forall|b: int| 0 <= b < input.len() implies (types[b] == types[0]) == (type_at(
            (#[trigger] input[b]).fields,
            path,
        ) == type_at(input[0].fields, path)) by {
            let _ = input[0];
            assert(types[b] == type_at(input[b].fields, path)->Ok_0);
            assert(types[0] == type_at(input[0].fields, path)->Ok_0);
        }
        if sources_failure(input, path, None) is None {
            assert forall|b: int| 0 <= b < input.len() implies type_at(
                (#[trigger] input[b]).fields,
                path,
            ) == type_at(input[0].fields, path) by {
                assert(types[b] == types[0]);
            }
        }
        if forall|b: int|
            0 <= b < input.len() ==> type_at((#[trigger] input[b]).fields, path) == type_at(
                input[0].fields,
                path,
            ) {
            assert forall|i: int| 0 <= i < types.len() implies #[trigger] types[i] == types[0] by {
                let _ = input[i];
            }
        }
    }
}

// ---------------------------------------------------------------------------------------------
// Plans
// ---------------------------------------------------------------------------------------------

/// In a valid plan each node takes the inputs that it looks at from the nodes before it: a join two,
/// a union all that it names, and the others one, but for scans of given files and literal rows.
pub proof fn law_inputs_come_before_a_node(nodes: Seq<PlanNode>, k: int, i: int)
    requires
        plan_wf(nodes),
        0 <= k < nodes.len(),
        0 <= i,
    ensures
        nodes[k].op is SemiJoin ==> nodes[k].inputs@.len() >= 2 && nodes[k].inputs@[0] < k
            && nodes[k].inputs@[1] < k,
        nodes[k].op is UnionAll && i < nodes[k].inputs@.len() ==> nodes[k].inputs@[i] < k,
        nodes[k].op is Filter || nodes[k].op is Project || nodes[k].op is DynamicScan
            || nodes[k].op is Aggregate ==> nodes[k].inputs@.len() >= 1 && nodes[k].inputs@[0] < k,
{
    assert(nodes[k].wf(k));
}

} // verus!
