//! What holds of the files that a scan reads and of the rows that come of them, in terms of the rows
//! that were given.

use vstd::prelude::*;

use super::batch::{value_at, BatchView, Failure};
use super::query::{
    node_outcome, query_outcome, united, NodeView, Operator, PlanNode, QueryView, TaskView,
};
use super::row_laws::{lemma_rows_of_first_increase, rows_of_first};
use super::scan::{
    constant_at, constants_at, joined_url, read_fields, slot_from, spliced, spliced_batch,
    values_batch, DynamicScan, ScanFileView,
};
use super::storage::{in_order, is_listed_file, listing_sorted, parent, prefix_of};
use crate::error::DeltaResult;
use crate::expressions::comparison_laws::law_texts_compare_at_their_first_difference;
use crate::expressions::scalars::{logical_order, ScalarView};
use crate::schema::FieldView;
use crate::FileMeta;

verus! {

// ---------------------------------------------------------------------------------------------
// Files named by rows
// ---------------------------------------------------------------------------------------------

/// Whether a file is the one that a row names: it is at the URL that joins the base with the path in
/// the row, and has the size, the time and the constants of that row. A null in a column of
/// constants is a null there.
pub open spec fn is_file_of_row(
    scan: DynamicScan,
    fields: Seq<FieldView>,
    row: Seq<ScalarView>,
    file: ScanFileView,
) -> bool {
    &&& value_at(fields, row, scan.path_column@) matches Some(ScalarView::String(path))
    &&& joined_url(scan.base_url@, path) == Ok::<Seq<char>, Seq<char>>(file.location)
    &&& value_at(fields, row, scan.dv_column@) is None
    &&& value_at(fields, row, scan.file_size_column@) matches Some(ScalarView::Long(size))
    &&& size > 0
    &&& size == file.size
    &&& value_at(fields, row, scan.last_modified_column@) == Some(
        ScalarView::Long(file.last_modified),
    )
    &&& file.file_constants.len() == scan.file_constant_columns@.len()
    &&& forall|j: int|
        0 <= j < file.file_constants.len() ==> is_constant_of_row(
            fields,
            row,
            scan.file_constant_columns@[j]@,
            #[trigger] file.file_constants[j],
        )
}

/// Whether a constant is what a row has in a column.
pub open spec fn is_constant_of_row(
    fields: Seq<FieldView>,
    row: Seq<ScalarView>,
    name: Seq<char>,
    constant: ScalarView,
) -> bool {
    match value_at(fields, row, seq![name]) {
        Some(value) => constant == value,
        None => constant is Null,
    }
}

proof fn lemma_constants(
    fields: Seq<FieldView>,
    row: Seq<ScalarView>,
    names: Seq<Seq<char>>,
    n: nat,
)
    requires
        n <= names.len(),
        constants_at(fields, row, names, n) is Ok,
    ensures
        constants_at(fields, row, names, n)->Ok_0.len() == n,
        forall|j: int|
            0 <= j < n ==> is_constant_of_row(
                fields,
                row,
                names[j],
                #[trigger] constants_at(fields, row, names, n)->Ok_0[j],
            ),
    decreases n,
{
    if n > 0 {
        lemma_constants(fields, row, names, (n - 1) as nat);
        assert(constant_at(fields, row, names[n - 1]) is Ok);
    }
}

proof fn lemma_file_of_row(scan: DynamicScan, fields: Seq<FieldView>, row: Seq<ScalarView>)
    requires
        scan.file(fields, row) is Ok,
    ensures
        is_file_of_row(scan, fields, row, scan.file(fields, row)->Ok_0),
{
    let file = scan.file(fields, row)->Ok_0;
    let names = crate::expressions::column_names::names_view(scan.file_constant_columns@);
    lemma_constants(fields, row, names, names.len());
    assert forall|j: int| 0 <= j < file.file_constants.len() implies is_constant_of_row(
        fields,
        row,
        scan.file_constant_columns@[j]@,
        #[trigger] file.file_constants[j],
    ) by {
        assert(names[j] == scan.file_constant_columns@[j]@);
    }
}

proof fn lemma_files_of_rows(
    scan: DynamicScan,
    before: Seq<ScanFileView>,
    batch: BatchView,
    n: nat,
)
    requires
        n <= batch.rows.len(),
        scan.with_rows(before, batch, n) is Ok,
    ensures
        scan.with_rows(before, batch, n)->Ok_0.len() == before.len() + n,
        forall|i: int|
            0 <= i < before.len() ==> #[trigger] scan.with_rows(before, batch, n)->Ok_0[i]
                == before[i],
        forall|i: int|
            before.len() <= i < before.len() + n ==> is_file_of_row(
                scan,
                batch.fields,
                batch.rows[i - before.len()],
                #[trigger] scan.with_rows(before, batch, n)->Ok_0[i],
            ),
    decreases n,
{
    if n > 0 {
        lemma_files_of_rows(scan, before, batch, (n - 1) as nat);
        let fewer = scan.with_rows(before, batch, (n - 1) as nat)->Ok_0;
        let files = scan.with_rows(before, batch, n)->Ok_0;
        lemma_file_of_row(scan, batch.fields, batch.rows[n - 1]);
        assert forall|i: int| before.len() <= i < before.len() + n implies is_file_of_row(
            scan,
            batch.fields,
            batch.rows[i - before.len()],
            #[trigger] files[i],
        ) by {
            if i < fewer.len() {
                assert(files[i] == fewer[i]);
            }
        }
    }
}

proof fn lemma_files(scan: DynamicScan, input: Seq<BatchView>, n: nat)
    requires
        n <= input.len(),
        scan.files(input, n) is Ok,
    ensures
        scan.files(input, n)->Ok_0.len() == rows_of_first(input, n as int),
        forall|b: int, r: int|
            0 <= b < n && 0 <= r < input[b].rows.len() ==> #[trigger] has_file(
                scan,
                input,
                scan.files(input, n)->Ok_0,
                b,
                r,
            ),
    decreases n,
{
    if n > 0 {
        lemma_files(scan, input, (n - 1) as nat);
        let before = scan.files(input, (n - 1) as nat)->Ok_0;
        let batch = input[n - 1];
        lemma_files_of_rows(scan, before, batch, batch.rows.len());
        let files = scan.files(input, n)->Ok_0;
        assert forall|b: int, r: int|
            0 <= b < n && 0 <= r < input[b].rows.len() implies #[trigger] has_file(
            scan,
            input,
            files,
            b,
            r,
        ) by {
            lemma_rows_of_first_increase(input, 0, b);
            if b < n - 1 {
                assert(has_file(scan, input, before, b, r));
                lemma_rows_of_first_increase(input, b + 1, n - 1);
                assert(files[rows_of_first(input, b) + r] == before[rows_of_first(input, b) + r]);
            } else {
                let i = before.len() + r;
                assert(is_file_of_row(scan, batch.fields, batch.rows[i - before.len()], files[i]));
            }
        }
    }
}

/// Whether the file of a row stands behind those of the rows before it.
pub open spec fn has_file(
    scan: DynamicScan,
    input: Seq<BatchView>,
    files: Seq<ScanFileView>,
    b: int,
    r: int,
) -> bool {
    is_file_of_row(
        scan,
        input[b].fields,
        input[b].rows[r],
        files[rows_of_first(input, b) + r],
    )
}

/// A scan that succeeds gives a file for each row of each batch, in the order of the batches and
/// rows: it is where the path of that same row leads, and has its size, time and constants.
pub proof fn law_scan_reads_the_file_of_each_row(
    scan: DynamicScan,
    input: Seq<BatchView>,
    b: int,
    r: int,
)
    requires
        scan.files(input, input.len()) is Ok,
        0 <= b < input.len(),
        0 <= r < input[b].rows.len(),
    ensures
        scan.files(input, input.len())->Ok_0.len() == rows_of_first(input, input.len() as int),
        is_file_of_row(
            scan,
            input[b].fields,
            input[b].rows[r],
            scan.files(input, input.len())->Ok_0[rows_of_first(input, b) + r],
        ),
{
    lemma_files(scan, input, input.len());
    assert(has_file(scan, input, scan.files(input, input.len())->Ok_0, b, r));
}

/// A scan of batches without rows gives no files, and without batches it succeeds.
pub proof fn law_scan_of_no_rows_reads_nothing(scan: DynamicScan, input: Seq<BatchView>)
    requires
        scan.files(input, input.len()) is Ok,
        forall|b: int| 0 <= b < input.len() ==> (#[trigger] input[b]).rows.len() == 0,
    ensures
        scan.files(input, input.len())->Ok_0.len() == 0,
        scan.files(Seq::empty(), 0) == Ok::<Seq<ScanFileView>, Failure>(Seq::empty()),
{
    lemma_files(scan, input, input.len());
    lemma_no_rows(input, input.len() as int);
}

proof fn lemma_no_rows(input: Seq<BatchView>, n: int)
    requires
        0 <= n <= input.len(),
        forall|b: int| 0 <= b < input.len() ==> (#[trigger] input[b]).rows.len() == 0,
    ensures
        rows_of_first(input, n) == 0,
    decreases n,
{
    if n > 0 {
        lemma_no_rows(input, n - 1);
        assert(input[n - 1].rows.len() == 0);
    }
}

/// A row with a path that makes a URL, no deletion vector, a positive size and a time, and with
/// texts, 64-bit integers or nulls in the columns of constants, names a file.
pub proof fn law_complete_row_names_a_file(
    scan: DynamicScan,
    fields: Seq<FieldView>,
    row: Seq<ScalarView>,
    path: Seq<char>,
    size: i64,
    last_modified: i64,
)
    requires
        value_at(fields, row, scan.path_column@) == Some(ScalarView::String(path)),
        value_at(fields, row, scan.dv_column@) is None,
        joined_url(scan.base_url@, path) is Ok,
        value_at(fields, row, scan.file_size_column@) == Some(ScalarView::Long(size)),
        size > 0,
        value_at(fields, row, scan.last_modified_column@) == Some(
            ScalarView::Long(last_modified),
        ),
        forall|j: int|
            0 <= j < scan.file_constant_columns@.len() ==> constant_at(
                fields,
                row,
                (#[trigger] scan.file_constant_columns@[j])@,
            ) is Ok,
    ensures
        scan.file(fields, row) is Ok,
{
    let names = crate::expressions::column_names::names_view(scan.file_constant_columns@);
    assert forall|j: int| 0 <= j < names.len() implies constant_at(
        fields,
        row,
        #[trigger] names[j],
    ) is Ok by {
        assert(names[j] == scan.file_constant_columns@[j]@);
    }
    lemma_all_constants(fields, row, names, names.len());
}

proof fn lemma_all_constants(
    fields: Seq<FieldView>,
    row: Seq<ScalarView>,
    names: Seq<Seq<char>>,
    n: nat,
)
    requires
        n <= names.len(),
        forall|j: int|
            0 <= j < names.len() ==> constant_at(fields, row, #[trigger] names[j]) is Ok,
    ensures
        constants_at(fields, row, names, n) is Ok,
    decreases n,
{
    if n > 0 {
        lemma_all_constants(fields, row, names, (n - 1) as nat);
        assert(constant_at(fields, row, names[n - 1]) is Ok);
    }
}

/// A row without a path, with a deletion vector, or without a positive size or a time names no file.
pub proof fn law_incomplete_row_names_no_file(
    scan: DynamicScan,
    fields: Seq<FieldView>,
    row: Seq<ScalarView>,
    size: i64,
)
    ensures
        value_at(fields, row, scan.path_column@) is None ==> scan.file(fields, row) is Err,
        value_at(fields, row, scan.dv_column@) is Some ==> scan.file(fields, row) is Err,
        value_at(fields, row, scan.file_size_column@) is None ==> scan.file(fields, row) is Err,
        value_at(fields, row, scan.file_size_column@) == Some(ScalarView::Long(size)) && size <= 0
            ==> scan.file(fields, row) is Err,
        value_at(fields, row, scan.last_modified_column@) is None ==> scan.file(fields, row) is Err,
{
}

// ---------------------------------------------------------------------------------------------
// Constants
// ---------------------------------------------------------------------------------------------

/// How many of the first `n` fields have none of some names.
pub open spec fn others_before(fields: Seq<FieldView>, names: Seq<Seq<char>>, n: int) -> int
    decreases n,
{
    if n <= 0 {
        0
    } else {
        others_before(fields, names, n - 1) + if names.contains(fields[n - 1].name) {
            0int
        } else {
            1int
        }
    }
}

proof fn lemma_slot(names: Seq<Seq<char>>, name: Seq<char>, from: int)
    requires
        0 <= from <= names.len(),
    ensures
        match slot_from(names, name, from) {
            Some(i) => from <= i < names.len() && names[i] == name && forall|j: int|
                from <= j < i ==> #[trigger] names[j] != name,
            None => forall|j: int| from <= j < names.len() ==> #[trigger] names[j] != name,
        },
    decreases names.len() - from,
{
    if from < names.len() && names[from] != name {
        lemma_slot(names, name, from + 1);
    }
}

proof fn lemma_others_before(fields: Seq<FieldView>, names: Seq<Seq<char>>, n: nat)
    requires
        n <= fields.len(),
    ensures
        read_fields(fields, names, n).len() == others_before(fields, names, n as int),
    decreases n,
{
    if n > 0 {
        lemma_others_before(fields, names, (n - 1) as nat);
        lemma_slot(names, fields[n - 1].name, 0);
        let name = fields[n - 1].name;
        if let Some(i) = slot_from(names, name, 0) {
            assert(names[i] == name);
        } else if names.contains(name) {
            let i = choose|i: int| 0 <= i < names.len() && names[i] == name;
            assert(names[i] != name);
        }
    }
}

proof fn lemma_spliced_value(
    fields: Seq<FieldView>,
    names: Seq<Seq<char>>,
    constants: Seq<ScalarView>,
    row: Seq<ScalarView>,
    n: nat,
    j: int,
)
    requires
        0 <= j < n <= fields.len(),
    ensures
        spliced(fields, names, constants, row, n).len() == n,
        spliced(fields, names, constants, row, n)[j] == spliced(
            fields,
            names,
            constants,
            row,
            (j + 1) as nat,
        )[j],
        spliced(fields, names, constants, row, j as nat).len() == j,
    decreases n,
{
    if j < n - 1 {
        lemma_spliced_value(fields, names, constants, row, (n - 1) as nat, j);
    } else if j > 0 {
        lemma_spliced_value(fields, names, constants, row, j as nat, j - 1);
    } else {
        assert(spliced(fields, names, constants, row, 0).len() == 0);
    }
}

/// A batch with constants put in has the fields of the schema and as many rows as were read. A field
/// with the name of a constant has that constant in each row, the first one where two have the name;
/// another field has the value that was read for it: those fields are read in the order of the
/// schema.
pub proof fn law_constants_stand_beside_what_was_read(
    batch: BatchView,
    fields: Seq<FieldView>,
    names: Seq<Seq<char>>,
    constants: Seq<ScalarView>,
    r: int,
    j: int,
    k: int,
)
    requires
        spliced_batch(batch, fields, names, constants) is Ok,
        0 <= r < batch.rows.len(),
        0 <= j < fields.len(),
    ensures
        ({
            let whole = spliced_batch(batch, fields, names, constants)->Ok_0;
            &&& whole.fields == fields
            &&& whole.rows.len() == batch.rows.len()
            &&& whole.rows[r].len() == fields.len()
            &&& 0 <= k < names.len() && names[k] == fields[j].name && (forall|i: int|
                0 <= i < k ==> #[trigger] names[i] != names[k]) ==> whole.rows[r][j] == constants[k]
            &&& !names.contains(fields[j].name) && others_before(fields, names, j)
                < batch.rows[r].len() ==> whole.rows[r][j] == batch.rows[r][
                others_before(fields, names, j)
            ]
        }),
{
    let row = batch.rows[r];
    lemma_spliced_value(fields, names, constants, row, fields.len(), j);
    lemma_others_before(fields, names, j as nat);
    lemma_slot(names, fields[j].name, 0);
    if 0 <= k < names.len() && names[k] == fields[j].name && (forall|i: int|
        0 <= i < k ==> #[trigger] names[i] != names[k]) {
        let i = slot_from(names, fields[j].name, 0)->0;
        assert(names[k] == fields[j].name);
        assert(i == k);
    }
    if !names.contains(fields[j].name) {
        if let Some(i) = slot_from(names, fields[j].name, 0) {
            assert(names.contains(names[i]));
        }
    }
}

/// Constants can be put into a batch unless it has fewer columns than are read.
pub proof fn law_batch_needs_the_columns_that_are_read(
    batch: BatchView,
    fields: Seq<FieldView>,
    names: Seq<Seq<char>>,
    constants: Seq<ScalarView>,
)
    ensures
        spliced_batch(batch, fields, names, constants) is Ok <==> others_before(
            fields,
            names,
            fields.len() as int,
        ) <= batch.fields.len(),
{
    lemma_others_before(fields, names, fields.len());
}

// ---------------------------------------------------------------------------------------------
// Literal rows
// ---------------------------------------------------------------------------------------------

/// Literal rows make a batch with those fields and those rows, each value in its place; values
/// beyond the fields are left out.
pub proof fn law_literal_rows_are_given_as_they_are(
    fields: Seq<FieldView>,
    rows: Seq<Seq<ScalarView>>,
    r: int,
    j: int,
)
    requires
        values_batch(fields, rows) is Ok,
        0 <= r < rows.len(),
        0 <= j < fields.len() <= rows[r].len(),
    ensures
        values_batch(fields, rows)->Ok_0.fields == fields,
        values_batch(fields, rows)->Ok_0.rows.len() == rows.len(),
        values_batch(fields, rows)->Ok_0.rows[r].len() == fields.len(),
        values_batch(fields, rows)->Ok_0.rows[r][j] == rows[r][j],
        !fields[j].nullable ==> !(rows[r][j] is Null),
{
    let cells = super::scan::narrowed(rows, fields.len());
    if !fields[j].nullable {
        lemma_no_nulls(fields, cells, fields.len(), j);
        assert(cells[r][j] == rows[r][j]);
        if rows[r][j] is Null {
            assert(super::batch::has_null(cells, j));
        }
    }
}

proof fn lemma_no_nulls(
    fields: Seq<FieldView>,
    rows: Seq<Seq<ScalarView>>,
    n: nat,
    j: int,
)
    requires
        0 <= j < n <= fields.len(),
        !fields[j].nullable,
        super::batch::nulls_failure(fields, rows, n) is None,
    ensures
        !super::batch::has_null(rows, j),
    decreases n,
{
    if j < n - 1 {
        lemma_no_nulls(fields, rows, (n - 1) as nat, j);
    }
}

// ---------------------------------------------------------------------------------------------
// Plans
// ---------------------------------------------------------------------------------------------

/// A union of one input gives the batches of that input.
pub proof fn law_union_of_one_input(k: usize, results: Seq<Seq<BatchView>>)
    ensures
        united(seq![k], results, 1) == results[k as int],
{
    reveal_with_fuel(united, 2);
    assert(Seq::<BatchView>::empty() + results[k as int] =~= results[k as int]);
}

/// A node works on what its inputs gave: a join keeps rows of its first input by those of its
/// second, an aggregation groups the rows of its input, and a scan by rows reads the files that the
/// rows of its input name.
pub proof fn law_node_works_on_its_inputs(node: PlanNode, results: Seq<Seq<BatchView>>)
    ensures
        node.op matches Operator::SemiJoin(join) ==> node_outcome(node, results)
            == match join.result(
            results[node.inputs@[0] as int],
            results[node.inputs@[1] as int],
        ) {
            Ok(batches) => Ok(NodeView::Ready(batches)),
            Err(failure) => Err(failure),
        },
        node.op matches Operator::Aggregate(aggregate) ==> node_outcome(node, results)
            == match aggregate.result(results[node.inputs@[0] as int]) {
            Ok(batches) => Ok(NodeView::Ready(batches)),
            Err(failure) => Err(failure),
        },
        node.op matches Operator::DynamicScan { scan, .. } ==> node_outcome(node, results)
            == match scan.files(
            results[node.inputs@[0] as int],
            results[node.inputs@[0] as int].len(),
        ) {
            Ok(files) => Ok(NodeView::Outside(TaskView::DynamicScan(files))),
            Err(failure) => Err(failure),
        },
        node.op is Scan ==> node_outcome(node, results) == Ok::<NodeView, Failure>(
            NodeView::Outside(TaskView::Scan),
        ),
        node.op is Filter && results[node.inputs@[0] as int].len() > 0 ==> node_outcome(
            node,
            results,
        ) == Ok::<NodeView, Failure>(NodeView::Outside(TaskView::Filter(node.inputs@[0] as int))),
        node.op is Project && results[node.inputs@[0] as int].len() > 0 ==> node_outcome(
            node,
            results,
        ) == Ok::<NodeView, Failure>(NodeView::Outside(TaskView::Project(node.inputs@[0] as int))),
        (node.op is Filter || node.op is Project) && results[node.inputs@[0] as int].len() == 0
            ==> node_outcome(node, results) == Ok::<NodeView, Failure>(
            NodeView::Ready(Seq::empty()),
        ),
{
}

/// A query gives what its last node gave, and fails as soon as a node does; a node that gives batches
/// is followed by the next one.
pub proof fn law_query_goes_on_node_by_node(
    nodes: Seq<PlanNode>,
    outputs: Seq<Seq<BatchView>>,
    batches: Seq<BatchView>,
    failure: Failure,
)
    ensures
        outputs.len() == nodes.len() > 0 ==> query_outcome(nodes, outputs) == Ok::<
            QueryView,
            Failure,
        >(QueryView::Done(outputs[outputs.len() - 1])),
        outputs.len() < nodes.len() && node_outcome(nodes[outputs.len() as int], outputs) == Ok::<
            NodeView,
            Failure,
        >(NodeView::Ready(batches)) ==> query_outcome(nodes, outputs) == query_outcome(
            nodes,
            outputs.push(batches),
        ),
        outputs.len() < nodes.len() && node_outcome(nodes[outputs.len() as int], outputs) == Err::<
            NodeView,
            Failure,
        >(failure) ==> query_outcome(nodes, outputs) == Err::<QueryView, Failure>(failure),
{
}

// ---------------------------------------------------------------------------------------------
// Listings
// ---------------------------------------------------------------------------------------------

/// In a sorted listing a path is not after a later one: where two of them differ first, the earlier
/// has the lesser character, or ends.
pub proof fn law_listing_goes_by_the_characters_of_paths(
    objects: Seq<FileMeta>,
    i: int,
    j: int,
    n: int,
)
    requires
        listing_sorted(objects),
        0 <= i < j < objects.len(),
        0 <= n <= objects[i].location@.len(),
        n <= objects[j].location@.len(),
        forall|k: int| 0 <= k < n ==> objects[i].location@[k] == objects[j].location@[k],
    ensures
        n < objects[i].location@.len() && n < objects[j].location@.len() ==> (
        objects[i].location@[n] as int) <= (objects[j].location@[n] as int),
        n < objects[i].location@.len() ==> n < objects[j].location@.len(),
{
    let x = objects[i].location@;
    let y = objects[j].location@;
    assert(in_order(objects[i], objects[j]));
    law_texts_compare_at_their_first_difference(x, y, n);
    let order = logical_order(ScalarView::String(x), ScalarView::String(y));
    assert(order != Some(crate::expressions::order::Order::Greater));
}

/// The path above a name without slashes is what stands before the slash; a name alone is below the
/// empty path.
pub proof fn law_parent_is_what_stands_before_the_last_slash(above: Seq<char>, name: Seq<char>)
    requires
        forall|i: int| 0 <= i < name.len() ==> #[trigger] name[i] != '/',
    ensures
        parent(above + seq!['/'] + name) == above,
        parent(name) == Seq::<char>::empty(),
    decreases name.len(),
{
    let path = above + seq!['/'] + name;
    if name.len() == 0 {
        assert(path.last() == '/');
        assert(path.drop_last() =~= above);
    } else {
        let shorter = name.drop_last();
        assert(name.last() == name[name.len() - 1]);
        assert(path.last() == name.last());
        assert(path.drop_last() =~= above + seq!['/'] + shorter);
        assert forall|i: int| 0 <= i < shorter.len() implies #[trigger] shorter[i] != '/' by {
            assert(shorter[i] == name[i]);
        }
        law_parent_is_what_stands_before_the_last_slash(above, shorter);
    }
}

/// Objects are listed below the path of a URL that ends with a slash, else below its parent.
pub proof fn law_directory_is_listed_itself(url_path: Seq<char>, offset: Seq<char>)
    ensures
        url_path.len() > 0 && url_path[url_path.len() - 1] == '/' ==> prefix_of(url_path, offset)
            == offset,
        url_path.len() == 0 || url_path[url_path.len() - 1] != '/' ==> prefix_of(url_path, offset)
            == parent(offset),
{
}

/// An object of a store is listed as the file at the URL that joins the base with its path, with its
/// own time and size; where there is no such URL, the listing holds an error in its place.
pub proof fn law_listed_file_is_its_object(
    base_url: Seq<char>,
    object: FileMeta,
    r: DeltaResult<FileMeta>,
)
    requires
        is_listed_file(base_url, object, r),
    ensures
        r is Ok <==> joined_url(base_url, object.location@) is Ok,
        r matches Ok(file) ==> joined_url(base_url, object.location@) == Ok::<
            Seq<char>,
            Seq<char>,
        >(file.location@) && file.last_modified == object.last_modified && file.size
            == object.size,
{
}

} // verus!
