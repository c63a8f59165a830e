use delta_kernel::engine::sync::aggregation::eval_aggregate;
use delta_kernel::engine::sync::aggs::{Agg, AggState, Aggregate, Comparison, NonNullByOperands};
use delta_kernel::engine::sync::batch::{extract_type, extract_value, identical, Batch};
use delta_kernel::engine::sync::plan::{
    encode_keys_as_rows, eval_filter, eval_semi_join, filter_rows, SemiJoin,
};
use delta_kernel::engine::sync::query::{
    eval_node, execute_query, is_valid_plan, union_all, FileType, NodeStep, Operator, PlanNode,
    QueryStep, Task,
};
use delta_kernel::engine::sync::scan::{
    dynamic_scan_files, read_schema, scalar_value, splice_file_constants, values_to_record_batch,
    DynamicScan, ScanFile,
};
use delta_kernel::engine::sync::storage::{listed_files, listing_prefix, sort_listing};
use delta_kernel::error::{DeltaResult, Error};
use delta_kernel::expressions::tree::Predicate;
use delta_kernel::expressions::{ColumnName, Scalar, StructData};
use delta_kernel::schema::{DataType, PrimitiveType, StructField, StructType};
use delta_kernel::FileMeta;

fn long_type() -> DataType {
    DataType::Primitive(PrimitiveType::Long)
}

fn string_type() -> DataType {
    DataType::Primitive(PrimitiveType::String)
}

fn boolean_type() -> DataType {
    DataType::Primitive(PrimitiveType::Boolean)
}

fn column_name(path: &str) -> ColumnName {
    ColumnName::new(path.split('.').map(|s| s.to_string()).collect())
}

fn text(value: &str) -> Scalar {
    Scalar::String(value.to_string())
}

fn maybe_text(value: Option<&str>) -> Scalar {
    value.map_or(Scalar::Null(string_type()), text)
}

fn long(value: Option<i64>) -> Scalar {
    value.map_or(Scalar::Null(long_type()), Scalar::Long)
}

fn boolean(value: Option<bool>) -> Scalar {
    value.map_or(Scalar::Null(boolean_type()), Scalar::Boolean)
}

fn nullable(name: &str, data_type: DataType) -> StructField {
    StructField::nullable(name, data_type)
}

fn not_null(name: &str, data_type: DataType) -> StructField {
    StructField::not_null(name, data_type)
}

fn batch(fields: Vec<StructField>, rows: Vec<Vec<Scalar>>) -> Batch {
    Batch {
        schema: StructType::new(fields),
        rows,
    }
}

fn by(value: &str, null_sentinel: &str, key: &str) -> NonNullByOperands {
    NonNullByOperands {
        value: column_name(value),
        null_sentinel: column_name(null_sentinel),
        key: column_name(key),
    }
}

fn value_fields() -> Vec<StructField> {
    vec![
        nullable("value", string_type()),
        nullable("sentinel", boolean_type()),
        nullable("key", long_type()),
    ]
}

/// The rows of the one batch, sorted by how they are written.
fn rows(batches: Vec<Batch>) -> Vec<Vec<String>> {
    assert_eq!(batches.len(), 1);
    let mut rows: Vec<Vec<String>> = batches[0]
        .rows
        .iter()
        .map(|row| row.iter().map(|value| value.to_string()).collect())
        .collect();
    rows.sort();
    rows
}

#[test]
fn grouped_aggregate_routes_rows_to_every_agg() {
    let mut fields = vec![not_null("group", string_type())];
    fields.extend(value_fields());
    let input = batch(
        fields,
        vec![
            vec![text("a"), text("low"), boolean(Some(true)), long(Some(1))],
            vec![text("a"), text("high"), boolean(Some(true)), long(Some(3))],
            vec![text("b"), text("none"), boolean(None), long(None)],
        ],
    );
    let aggregate = Aggregate {
        group_by: vec![column_name("group")],
        aggs: vec![
            Agg::MaxNonNullBy(by("value", "sentinel", "key")),
            Agg::MinNonNullBy(by("value", "sentinel", "key")),
            Agg::Max(column_name("key")),
            Agg::Min(column_name("key")),
            Agg::Sum(column_name("key")),
            Agg::Count(column_name("sentinel")),
            Agg::CountStar,
        ],
        schema: StructType::new(vec![
            not_null("group", string_type()),
            nullable("maximum", string_type()),
            nullable("minimum", string_type()),
            nullable("max_key", long_type()),
            nullable("min_key", long_type()),
            nullable("sum_key", long_type()),
            not_null("qualified", long_type()),
            not_null("rows", long_type()),
        ]),
    };
    assert_eq!(
        rows(eval_aggregate(&aggregate, &[input]).unwrap()),
        [
            ["'a'", "'high'", "'low'", "3", "1", "4", "2", "2"],
            ["'b'", "null", "null", "null", "null", "null", "0", "1"],
        ]
    );
}

fn first_and_last() -> Aggregate {
    Aggregate {
        group_by: vec![],
        aggs: vec![
            Agg::MinNonNullBy(by("value", "sentinel", "key")),
            Agg::MaxNonNullBy(by("value", "sentinel", "key")),
        ],
        schema: StructType::new(vec![
            nullable("minimum", string_type()),
            nullable("maximum", string_type()),
        ]),
    }
}

fn one_row(value: &str, key: i64) -> Batch {
    batch(
        value_fields(),
        vec![vec![text(value), boolean(Some(true)), long(Some(key))]],
    )
}

#[test]
fn non_null_by_selects_across_batches() {
    let input = [one_row("low", 1), one_row("high", 2)];
    assert_eq!(
        rows(eval_aggregate(&first_and_last(), &input).unwrap()),
        [["'low'", "'high'"]]
    );
}

#[test]
fn empty_input_distinguishes_grouped_and_ungrouped_aggregates() {
    let ungrouped = Aggregate {
        group_by: vec![],
        aggs: vec![
            Agg::Min(column_name("key")),
            Agg::Max(column_name("key")),
            Agg::Sum(column_name("key")),
            Agg::Count(column_name("sentinel")),
            Agg::CountStar,
            Agg::MinNonNullBy(by("value", "sentinel", "key")),
            Agg::MaxNonNullBy(by("value", "sentinel", "key")),
        ],
        schema: StructType::new(vec![
            nullable("minimum", long_type()),
            nullable("maximum", long_type()),
            nullable("total", long_type()),
            not_null("qualified", long_type()),
            not_null("rows", long_type()),
            nullable("first", string_type()),
            nullable("last", string_type()),
        ]),
    };
    assert_eq!(
        rows(eval_aggregate(&ungrouped, &[]).unwrap()),
        [["null", "null", "null", "0", "0", "null", "null"]]
    );

    let grouped = Aggregate {
        group_by: vec![column_name("group")],
        aggs: vec![Agg::Max(column_name("key"))],
        schema: StructType::new(vec![
            not_null("group", string_type()),
            nullable("max_key", long_type()),
        ]),
    };
    assert!(eval_aggregate(&grouped, &[]).unwrap().is_empty());
}

#[test]
fn sum_and_count_null_patterns() {
    for (values, expected) in [
        (vec![None, None], ["null", "0", "2"]),
        (vec![None, Some(3), Some(1)], ["4", "2", "3"]),
        (vec![Some(3), Some(1), Some(2)], ["6", "3", "3"]),
    ] {
        let input = batch(
            vec![nullable("value", long_type())],
            values.into_iter().map(|value| vec![long(value)]).collect(),
        );
        let aggregate = Aggregate {
            group_by: vec![],
            aggs: vec![
                Agg::Sum(column_name("value")),
                Agg::Count(column_name("value")),
                Agg::CountStar,
            ],
            schema: StructType::new(vec![
                nullable("total", long_type()),
                not_null("non_nulls", long_type()),
                not_null("rows", long_type()),
            ]),
        };
        assert_eq!(
            rows(eval_aggregate(&aggregate, &[input]).unwrap()),
            [expected]
        );
    }
}

fn struct_of(fields: Vec<StructField>, values: Vec<Scalar>) -> Scalar {
    Scalar::Struct(StructData::try_new(fields, values).unwrap())
}

fn struct_type(fields: Vec<StructField>) -> DataType {
    DataType::Struct(Box::new(StructType::new(fields)))
}

#[test]
fn count_over_struct_counts_non_null_structs() {
    let inner = || vec![nullable("x", long_type())];
    let input = batch(
        vec![nullable("payload", struct_type(inner()))],
        vec![
            vec![struct_of(inner(), vec![long(Some(1))])],
            vec![Scalar::Null(struct_type(inner()))],
            vec![struct_of(inner(), vec![long(Some(3))])],
        ],
    );
    let aggregate = Aggregate {
        group_by: vec![],
        aggs: vec![Agg::Count(column_name("payload")), Agg::CountStar],
        schema: StructType::new(vec![
            not_null("payloads", long_type()),
            not_null("rows", long_type()),
        ]),
    };
    assert_eq!(
        rows(eval_aggregate(&aggregate, &[input]).unwrap()),
        [["2", "3"]]
    );
}

#[test]
fn aggregate_resolves_nested_columns_over_top_level_traps() {
    let inner = || {
        vec![
            not_null("group", string_type()),
            not_null("value", string_type()),
            nullable("sentinel", boolean_type()),
            nullable("key", long_type()),
        ]
    };
    let mut fields = inner();
    fields.push(nullable("outer", struct_type(inner())));
    let outer = struct_of(
        inner(),
        vec![
            text("nested_group"),
            text("nested_value"),
            boolean(Some(true)),
            long(Some(7)),
        ],
    );
    let input = batch(
        fields,
        vec![vec![
            text("trap_group"),
            text("trap_value"),
            boolean(None),
            long(Some(99)),
            outer,
        ]],
    );
    let aggregate = Aggregate {
        group_by: vec![column_name("outer.group")],
        aggs: vec![
            Agg::Min(column_name("outer.key")),
            Agg::Count(column_name("outer.sentinel")),
            Agg::MaxNonNullBy(by("outer.value", "outer.sentinel", "outer.key")),
        ],
        schema: StructType::new(vec![
            not_null("group", string_type()),
            nullable("minimum", long_type()),
            not_null("qualified", long_type()),
            nullable("winner", string_type()),
        ]),
    };
    assert_eq!(
        rows(eval_aggregate(&aggregate, &[input]).unwrap()),
        [["'nested_group'", "7", "1", "'nested_value'"]]
    );
}

#[test]
fn non_null_by_can_select_a_null_value() {
    let input = batch(
        value_fields(),
        vec![
            vec![maybe_text(Some("fallback")), boolean(Some(true)), long(Some(1))],
            vec![maybe_text(None), boolean(Some(true)), long(Some(2))],
        ],
    );
    let aggregate = Aggregate {
        group_by: vec![],
        aggs: vec![Agg::MaxNonNullBy(by("value", "sentinel", "key"))],
        schema: StructType::new(vec![nullable("winner", string_type())]),
    };
    assert_eq!(
        rows(eval_aggregate(&aggregate, &[input]).unwrap()),
        [["null"]]
    );
}

fn message(result: DeltaResult<Vec<Batch>>) -> String {
    result.unwrap_err().to_string()
}

fn single(agg: Agg, field: StructField) -> Aggregate {
    Aggregate {
        group_by: vec![],
        aggs: vec![agg],
        schema: StructType::new(vec![field]),
    }
}

#[test]
fn aggregates_say_what_they_cannot_do() {
    let input = [one_row("x", 1)];
    let key = || column_name("key");
    for (aggregate, expected) in [
        (
            single(Agg::Min(key()), nullable("m", string_type())),
            "min/max/sum aggregate with non-LONG value",
        ),
        (
            single(Agg::CountStar, nullable("m", string_type())),
            "count aggregate with non-LONG output",
        ),
        (
            single(Agg::Sum(column_name("value")), nullable("m", long_type())),
            "aggregate operand `value` has non-LONG type",
        ),
        (
            single(Agg::Sum(column_name("none")), nullable("m", long_type())),
            "No such field: none",
        ),
        (
            single(
                Agg::MaxNonNullBy(by("none", "sentinel", "key")),
                nullable("m", string_type()),
            ),
            "No such field: none",
        ),
        (
            single(
                Agg::MaxNonNullBy(by("value", "sentinel", "key")),
                nullable("m", long_type()),
            ),
            "interleave arrays of different data types (string and long)",
        ),
        (
            Aggregate {
                group_by: vec![],
                aggs: vec![],
                schema: StructType::new(vec![]),
            },
            "must either specify a row count or at least one column",
        ),
        (
            Aggregate {
                group_by: vec![],
                aggs: vec![],
                schema: StructType::new(vec![nullable("m", long_type())]),
            },
            "number of columns(0) must match number of fields(1) in schema",
        ),
        (
            Aggregate {
                group_by: vec![column_name("value")],
                aggs: vec![],
                schema: StructType::new(vec![nullable("m", long_type())]),
            },
            "expected long but found string at column index 0",
        ),
    ] {
        let message = message(eval_aggregate(&aggregate, &input));
        assert!(message.contains(expected), "{message}");
    }
    let nulls = [batch(
        vec![nullable("key", long_type())],
        vec![vec![long(None)]],
    )];
    let message = message(eval_aggregate(
        &single(Agg::Min(key()), not_null("m", long_type())),
        &nulls,
    ));
    assert!(message.contains("Column 'm' is declared as non-nullable"), "{message}");
}

#[test]
fn sums_do_not_wrap() {
    let sum = single(Agg::Sum(column_name("key")), nullable("total", long_type()));
    let input = |values: &[i64]| {
        batch(
            vec![nullable("key", long_type())],
            values.iter().map(|value| vec![long(Some(*value))]).collect(),
        )
    };
    assert_eq!(
        rows(eval_aggregate(&sum, &[input(&[i64::MAX, -1])]).unwrap()),
        [["9223372036854775806"]]
    );
    let message = message(eval_aggregate(&sum, &[input(&[i64::MAX, 1, -1])]));
    assert!(message.contains("SUM aggregate overflowed i64"), "{message}");
    let error = Agg::CountStar
        .update(AggState::Count(i64::MAX), &[input(&[1])], (0, 0))
        .unwrap_err();
    assert!(error.to_string().contains("COUNT aggregate overflowed i64"));
    let error = Agg::CountStar
        .update(AggState::Long(None), &[input(&[1])], (0, 0))
        .unwrap_err();
    assert!(error.to_string().contains("of another aggregate"));
}

#[test]
fn the_first_of_equal_keys_wins() {
    let input = [one_row("first", 1), one_row("second", 1)];
    assert_eq!(
        rows(eval_aggregate(&first_and_last(), &input).unwrap()),
        [["'first'", "'first'"]]
    );
    assert!(Comparison::Min.replaces(None, 0));
    assert!(!Comparison::Min.replaces(Some(0), 0));
    assert!(Comparison::Max.replaces(Some(0), 1));
}

#[test]
fn nulls_are_one_group() {
    let input = batch(
        vec![nullable("g", string_type())],
        vec![
            vec![maybe_text(None)],
            vec![maybe_text(Some("a"))],
            vec![maybe_text(None)],
        ],
    );
    let aggregate = Aggregate {
        group_by: vec![column_name("g")],
        aggs: vec![Agg::CountStar],
        schema: StructType::new(vec![
            nullable("g", string_type()),
            not_null("rows", long_type()),
        ]),
    };
    assert_eq!(
        rows(eval_aggregate(&aggregate, &[input]).unwrap()),
        [["'a'", "1"], ["null", "2"]]
    );
}

#[test]
fn encode_keys_as_rows_synthesizes_empty_keys_when_ungrouped() {
    let batch = batch(
        vec![nullable("x", long_type())],
        vec![vec![long(Some(1))], vec![long(Some(2))], vec![long(Some(3))]],
    );
    let keys = encode_keys_as_rows(&batch, &[]).unwrap();
    assert_eq!(keys.len(), 3);
    assert!(keys.iter().all(|key| key == &keys[0]));
    assert!(encode_keys_as_rows(&batch, &[column_name("y")]).is_err());
    let keys = encode_keys_as_rows(&batch, &[column_name("x")]).unwrap();
    assert_eq!(keys[1], [Some(Scalar::Long(2))]);
}

fn numbers(values: &[Option<i64>]) -> Batch {
    batch(
        vec![nullable("x", long_type())],
        values.iter().map(|value| vec![long(*value)]).collect(),
    )
}

fn written(batches: &[Batch]) -> Vec<Vec<String>> {
    batches
        .iter()
        .map(|batch| batch.rows.iter().map(|row| row[0].to_string()).collect())
        .collect()
}

#[test]
fn semi_joins_keep_one_side_or_the_other() {
    let probe = [numbers(&[Some(1), Some(2), None]), numbers(&[Some(3)])];
    let build = [numbers(&[Some(2)]), numbers(&[None, Some(2)])];
    let join = |inverted| SemiJoin {
        probe_keys: vec![column_name("x")],
        build_keys: vec![column_name("x")],
        inverted,
    };
    let found = eval_semi_join(&join(false), &probe, &build).unwrap();
    assert_eq!(written(&found), [vec!["2", "null"], vec![]]);
    let others = eval_semi_join(&join(true), &probe, &build).unwrap();
    assert_eq!(written(&others), [vec!["1"], vec!["3"]]);
    let missing = SemiJoin {
        probe_keys: vec![column_name("x")],
        build_keys: vec![column_name("y")],
        inverted: false,
    };
    assert!(matches!(
        eval_semi_join(&missing, &probe, &build),
        Err(Error::MissingColumn(_))
    ));
}

#[test]
fn filters_keep_what_holds() {
    let input = numbers(&[Some(1), Some(2), Some(3)]);
    let kept = eval_filter(&input, &[Some(true), None, Some(false)]);
    assert_eq!(written(&[kept]), [vec!["1"]]);
    let kept = filter_rows(&input, &[false, true, true]);
    assert_eq!(written(&[kept]), [vec!["2", "3"]]);
}

fn dv_fields() -> Vec<StructField> {
    vec![nullable("storageType", string_type())]
}

fn null_dv() -> Scalar {
    Scalar::Null(struct_type(dv_fields()))
}

fn present_dv() -> Scalar {
    struct_of(dv_fields(), vec![text("i")])
}

fn dynamic_scan(dv_column: &str) -> DynamicScan {
    DynamicScan {
        base_url: "memory:///".to_string(),
        file_constant_columns: vec![],
        path_column: column_name("path"),
        file_size_column: column_name("size"),
        last_modified_column: column_name("filemod"),
        dv_column: column_name(dv_column),
    }
}

fn file_fields() -> Vec<StructField> {
    vec![
        nullable("path", string_type()),
        nullable("size", long_type()),
        nullable("filemod", long_type()),
        nullable("dv", struct_type(dv_fields())),
    ]
}

fn dynamic_scan_files_result(
    path: Scalar,
    size: Scalar,
    last_modified: Scalar,
    dv: Scalar,
) -> DeltaResult<Vec<ScanFile>> {
    let input = values_to_record_batch(
        StructType::new(file_fields()),
        vec![vec![path, size, last_modified, dv]],
    )
    .unwrap();
    dynamic_scan_files(&dynamic_scan("dv"), &[input])
}

#[test]
fn dynamic_scan_executor_rejects_non_null_deletion_vector() {
    let err = dynamic_scan_files_result(
        text("file.parquet"),
        long(Some(1)),
        long(Some(0)),
        present_dv(),
    )
    .unwrap_err();
    assert!(err.to_string().contains("with deletion vectors"), "{err:?}");
}

#[test]
fn dynamic_scan_executor_rejects_null_required_field() {
    for (path, size, last_modified, needle) in [
        (
            maybe_text(None),
            long(Some(1)),
            long(Some(0)),
            "path must not be null",
        ),
        (
            text("file.parquet"),
            long(None),
            long(Some(0)),
            "file size must not be null",
        ),
        (
            text("file.parquet"),
            long(Some(1)),
            long(None),
            "last-modified time must not be null",
        ),
    ] {
        let err = dynamic_scan_files_result(path, size, last_modified, null_dv()).unwrap_err();
        assert!(err.to_string().contains(needle), "{err:?}");
    }
}

#[test]
fn dynamic_scan_executor_rejects_invalid_size() {
    for size in [0, -1] {
        let err = dynamic_scan_files_result(
            text("file.parquet"),
            long(Some(size)),
            long(Some(0)),
            null_dv(),
        )
        .unwrap_err();
        assert!(err.to_string().contains("file size must be positive"), "{err:?}");
    }
}

#[test]
fn dynamic_scan_executor_accepts_i64_max_file_size() {
    let err = dynamic_scan_files_result(
        text("file.parquet"),
        long(Some(i64::MAX)),
        long(None),
        null_dv(),
    )
    .unwrap_err();
    assert!(
        err.to_string().contains("last-modified time must not be null"),
        "got a size validation error before last-modified validation: {err:?}"
    );
}

#[test]
fn dynamic_scan_threads_last_modified_into_file_meta() {
    let files = dynamic_scan_files_result(
        text("file.parquet"),
        long(Some(1)),
        long(Some(1_700_000_000_123)),
        null_dv(),
    )
    .unwrap();

    assert_eq!(files[0].meta.last_modified, 1_700_000_000_123);
    assert_eq!(files[0].meta.location, "memory:///file.parquet");
    assert_eq!(files[0].meta.size, 1);
}

#[test]
fn dynamic_scan_treats_dv_under_null_ancestor_as_null() {
    let metadata = struct_type(vec![nullable("dv", struct_type(dv_fields()))]);
    let input = batch(
        vec![
            not_null("path", string_type()),
            not_null("size", long_type()),
            not_null("filemod", long_type()),
            nullable("metadata", metadata.clone()),
        ],
        vec![vec![
            text("file.parquet"),
            long(Some(1)),
            long(Some(0)),
            Scalar::Null(metadata),
        ]],
    );
    let files = dynamic_scan_files(&dynamic_scan("metadata.dv"), &[input]).unwrap();
    assert_eq!(files.len(), 1);
}

#[test]
fn dynamic_scans_join_paths_and_carry_constants() {
    let mut fields = file_fields();
    fields.push(nullable("p", string_type()));
    fields.push(nullable("flag", boolean_type()));
    let row = |path: &str, flag| {
        vec![
            text(path),
            long(Some(5)),
            long(Some(6)),
            null_dv(),
            text("x"),
            boolean(flag),
        ]
    };
    let mut scan = dynamic_scan("dv");
    scan.base_url = "https://example.com/a/b/".to_string();
    scan.file_constant_columns = vec!["p".to_string(), "flag".to_string()];
    let input = || batch(fields.clone(), vec![row("../c d.parquet", None)]);
    let files = dynamic_scan_files(&scan, &[input(), input()]).unwrap();
    assert_eq!(files.len(), 2);
    assert_eq!(files[1].meta.location, "https://example.com/a/c%20d.parquet");
    assert_eq!(
        files[0].file_constants,
        [text("x"), Scalar::Null(boolean_type())]
    );

    let unsupported = batch(fields.clone(), vec![row("c", Some(true))]);
    let err = dynamic_scan_files(&scan, &[unsupported]).unwrap_err();
    assert_eq!(
        err.to_string(),
        "Unsupported: Scalar conversion from array type boolean"
    );

    scan.base_url = "not a url".to_string();
    let err = dynamic_scan_files(&scan, &[input()]).unwrap_err();
    assert!(matches!(err, Error::InvalidUrl(_)), "{err:?}");
    assert_eq!(err.to_string(), "Invalid url: relative URL without a base");

    let err = scan
        .file_of(
            &StructType::new(fields.clone()),
            &row("c", None),
            Err("no".to_string()),
        )
        .unwrap_err();
    assert_eq!(err.to_string(), "Invalid url: no");
    let path = scan.path_of(&StructType::new(fields.clone()), &row("c", None));
    assert_eq!(path.unwrap(), "c");

    scan.path_column = column_name("size");
    let err = dynamic_scan_files(&scan, &[input()]).unwrap_err();
    assert!(err.to_string().ends_with("Expected STRING Load path, got long"));
}

#[test]
fn constants_stand_beside_what_was_read() {
    let schema = StructType::new(vec![
        nullable("a", long_type()),
        nullable("p", string_type()),
        nullable("b", long_type()),
    ]);
    let constants = ["p".to_string()];
    let read = read_schema(&schema, &constants);
    assert_eq!(read.num_fields(), 2);
    let input = Batch {
        schema: read,
        rows: vec![vec![long(Some(1)), long(Some(2))]],
    };
    let whole = splice_file_constants(&input, &schema, &constants, &[text("x")]).unwrap();
    assert_eq!(whole.rows, [[long(Some(1)), text("x"), long(Some(2))]]);
    let err = splice_file_constants(&numbers(&[None]), &schema, &constants, &[text("x")]);
    assert!(err
        .unwrap_err()
        .to_string()
        .contains("scan output has fewer columns than schema"));
    let value = scalar_value(&schema, &[long(Some(7))], "a").unwrap();
    assert_eq!(value, Scalar::Long(7));
}

#[test]
fn literal_rows_fit_their_schema() {
    let schema = || StructType::new(vec![not_null("a", long_type())]);
    let values = values_to_record_batch(schema(), vec![vec![long(Some(1))]]).unwrap();
    assert_eq!(values.rows, [[long(Some(1))]]);
    assert!(values_to_record_batch(schema(), vec![]).unwrap().rows.is_empty());
    let err = values_to_record_batch(schema(), vec![vec![text("x")]]).unwrap_err();
    assert!(matches!(err, Error::Schema(_)), "{err:?}");
    let err = values_to_record_batch(schema(), vec![vec![long(None)]]).unwrap_err();
    assert!(matches!(err, Error::Arrow(_)), "{err:?}");
    let err = values_to_record_batch(StructType::new(vec![]), vec![]).unwrap_err();
    assert!(matches!(err, Error::Arrow(_)), "{err:?}");
}

#[test]
fn columns_are_found_by_their_path() {
    let inner = vec![nullable("x", long_type())];
    let schema = StructType::new(vec![
        nullable("s", struct_type(inner.clone())),
        nullable("x", string_type()),
    ]);
    let row = [struct_of(inner, vec![long(Some(4))]), text("t")];
    let found = extract_value(&schema, &row, &column_name("s.x")).unwrap();
    assert!(identical(found, &Scalar::Long(4)));
    assert_eq!(
        extract_type(&schema, &column_name("s.x")).unwrap().to_string(),
        "long"
    );
    for (path, expected) in [
        ("y", "No such field: y"),
        ("x.y", "No such field: y"),
        ("s.y", "No such field: y"),
    ] {
        let error = extract_type(&schema, &column_name(path)).unwrap_err();
        assert_eq!(error.to_string(), expected);
        assert!(extract_value(&schema, &row, &column_name(path)).is_none());
    }
    let error = extract_type(&schema, &ColumnName::new(vec![])).unwrap_err();
    assert_eq!(error.to_string(), "Empty column path");
}

fn node(op: Operator, inputs: &[usize]) -> PlanNode {
    PlanNode {
        op,
        inputs: inputs.to_vec(),
    }
}

fn literal(values: &[i64]) -> PlanNode {
    let op = Operator::Values {
        schema: StructType::new(vec![nullable("n", long_type())]),
        rows: values.iter().map(|n| vec![long(Some(*n))]).collect(),
    };
    node(op, &[])
}

fn filter(input: usize) -> PlanNode {
    let predicate = Predicate::literal(true);
    node(Operator::Filter { predicate }, &[input])
}

fn scan() -> PlanNode {
    let op = Operator::Scan {
        file_type: FileType::Json,
        files: vec![],
        file_constant_columns: vec![],
        schema: StructType::new(vec![nullable("n", long_type())]),
    };
    node(op, &[])
}

fn join(inputs: &[usize], inverted: bool) -> PlanNode {
    let join = SemiJoin {
        probe_keys: vec![column_name("n")],
        build_keys: vec![column_name("n")],
        inverted,
    };
    node(Operator::SemiJoin(join), inputs)
}

fn done(step: DeltaResult<QueryStep>) -> Vec<Vec<String>> {
    match step.unwrap() {
        QueryStep::Done(batches) => written(&batches),
        other => panic!("{other:?}"),
    }
}

#[test]
fn unions_follow_their_inputs() {
    let results = [
        vec![numbers(&[Some(1)]), numbers(&[Some(2)])],
        vec![],
        vec![numbers(&[Some(3)])],
    ];
    assert_eq!(
        written(&union_all(&[2, 0, 1, 2], &results)),
        [vec!["3"], vec!["1"], vec!["2"], vec!["3"]]
    );
    assert!(union_all(&[], &results).is_empty());
}

#[test]
fn plans_are_evaluated_in_order() {
    let plan = [
        literal(&[1, 2, 3]),
        literal(&[2]),
        join(&[0, 1], true),
        node(Operator::UnionAll, &[2, 1]),
    ];
    assert!(is_valid_plan(&plan));
    assert_eq!(done(execute_query(&plan, vec![])), [vec!["1", "3"], vec!["2"]]);
    assert_eq!(
        execute_query(&[], vec![]).unwrap_err().to_string(),
        "Generic delta kernel error: plan has no nodes"
    );
    let broken = [literal(&[1]), node(Operator::Aggregate(first_and_last()), &[0])];
    assert!(execute_query(&broken, vec![]).is_err());
}

#[test]
fn plans_stop_where_something_has_to_be_read() {
    let plan = [literal(&[1, 2]), scan(), filter(1), node(Operator::UnionAll, &[0, 2])];
    let step = execute_query(&plan, vec![]).unwrap();
    let QueryStep::Outside { mut outputs, task } = step else {
        panic!("{step:?}");
    };
    assert!(matches!(task, Task::Scan));
    assert_eq!(outputs.len(), 1);
    outputs.push(vec![numbers(&[Some(7), None])]);
    let step = execute_query(&plan, outputs).unwrap();
    let QueryStep::Outside { mut outputs, task } = step else {
        panic!("{step:?}");
    };
    assert!(matches!(task, Task::Filter(1)));
    assert_eq!(written(&outputs[1]), [vec!["7", "null"]]);
    let kept = eval_filter(&outputs[1][0], &[Some(true), None]);
    outputs.push(vec![kept]);
    assert_eq!(done(execute_query(&plan, outputs)), [vec!["1", "2"], vec!["7"]]);
    // Nothing has to be evaluated on nothing.
    let nothing = vec![vec![numbers(&[Some(1)])], vec![]];
    assert_eq!(done(execute_query(&plan, nothing)), [vec!["1"]]);
}

#[test]
fn files_named_by_rows_have_to_be_read() {
    let fields = file_fields();
    let row = vec![text("file.parquet"), long(Some(5)), long(Some(6)), null_dv()];
    let op = Operator::DynamicScan {
        scan: dynamic_scan("dv"),
        file_type: FileType::Parquet,
        schema: StructType::new(vec![]),
    };
    let results = [vec![batch(fields, vec![row])]];
    let step = eval_node(&node(op, &[0]), &results).unwrap();
    let NodeStep::Outside(Task::DynamicScan(files)) = step else {
        panic!("{step:?}");
    };
    assert_eq!(files.len(), 1);
    assert_eq!((files[0].meta.size, files[0].meta.last_modified), (5, 6));
}

#[test]
fn nodes_take_their_inputs_from_those_before_them() {
    assert!(!is_valid_plan(&[filter(0)]));
    assert!(!is_valid_plan(&[literal(&[]), node(Operator::UnionAll, &[0, 1])]));
    assert!(!is_valid_plan(&[literal(&[]), join(&[0], false)]));
    assert!(is_valid_plan(&[literal(&[]), join(&[0, 0, 9], false)]));
    let narrow = Operator::Values {
        schema: StructType::new(vec![nullable("n", long_type())]),
        rows: vec![vec![]],
    };
    assert!(!is_valid_plan(&[node(narrow, &[])]));
}

fn object(location: &str, size: u64) -> FileMeta {
    FileMeta {
        location: location.to_string(),
        last_modified: 1,
        size,
    }
}

#[test]
fn listings_begin_below_a_directory() {
    for (url_path, offset, expected) in [
        ("/a/b/", "a/b", "a/b"),
        ("/a/b/c.json", "a/b/c.json", "a/b"),
        ("/c.json", "c.json", ""),
        ("/", "", ""),
        ("", "", ""),
    ] {
        assert_eq!(listing_prefix(url_path, offset), expected);
    }
}

#[test]
fn listings_are_sorted_by_path() {
    let objects = vec![
        object("a/sub/file2.json", 2),
        object("a/file1.json", 1),
        object("a", 0),
        object("a/file1.json", 3),
    ];
    let sorted = sort_listing(objects);
    let names: Vec<&str> = sorted.iter().map(|file| file.location.as_str()).collect();
    assert_eq!(names, ["a", "a/file1.json", "a/file1.json", "a/sub/file2.json"]);
    let mut sizes: Vec<u64> = sorted.iter().map(|file| file.size).collect();
    sizes.sort();
    assert_eq!(sizes, [0, 1, 2, 3]);
    assert!(sort_listing(vec![]).is_empty());
}

#[test]
fn listed_objects_are_files_at_urls() {
    let objects = || vec![object("a/sub/file2.json", 2), object("a/file1.json", 1)];
    let files: Vec<FileMeta> = listed_files("memory:///", objects())
        .into_iter()
        .map(Result::unwrap)
        .collect();
    let names: Vec<&str> = files.iter().map(|file| file.location.as_str()).collect();
    assert_eq!(names, ["memory:///a/file1.json", "memory:///a/sub/file2.json"]);
    assert_eq!((files[0].size, files[1].size), (1, 2));
    for failed in listed_files("no url", objects()) {
        let message = failed.unwrap_err().to_string();
        assert!(
            message.starts_with("Generic delta kernel error: Failed to construct URL: "),
            "{message}"
        );
    }
}
