use delta_kernel::engine::parquet_row_group_skipping::{
    adjust_stats_for_truncation, column_has_nulls, compute_checkpoint_field_indices,
    compute_field_indices, decimal_from_bytes, extract_max_i64, extract_max_scalar,
    extract_min_scalar, extract_nullcount, is_top_level_partition_column, row_group_survives,
    surviving_row_groups, timestamp_from_date, CheckpointRowGroupFilter, RowGroupFilter,
};
use delta_kernel::engine::statistics::{
    ColumnChunk, FloatBound, RowGroup, Statistics, ValueStatistics,
};
use delta_kernel::expressions::column_names::ColumnName;
use delta_kernel::expressions::floats::{Float32, Float64};
use delta_kernel::expressions::scalars::Scalar;
use delta_kernel::expressions::tree::{Expression, Predicate};
use delta_kernel::schema::{DataType, DecimalType, PrimitiveType, StructField, StructType};

fn name(path: &str) -> ColumnName {
    ColumnName::new(path.split('.').map(str::to_string).collect())
}

fn column(path: &str) -> Expression {
    Expression::column(parts(path))
}

fn parts(path: &str) -> Vec<String> {
    path.split('.').map(str::to_string).collect()
}

fn float(value: f32) -> FloatBound {
    FloatBound {
        value: Float32 {
            bits: value.to_bits(),
            text: value.to_string(),
        },
        widened: double(value as f64),
    }
}

fn double(value: f64) -> Float64 {
    Float64 {
        bits: value.to_bits(),
        text: value.to_string(),
    }
}

fn stats<T>(min: T, max: T, null_count: u64) -> ValueStatistics<T> {
    ValueStatistics {
        min: Some(min),
        max: Some(max),
        distinct_count: None,
        null_count: Some(null_count),
        is_min_max_deprecated: false,
    }
}

fn chunk(path: &str, statistics: Option<Statistics>) -> ColumnChunk {
    ColumnChunk {
        path: parts(path),
        statistics,
    }
}

fn primitive(ty: PrimitiveType) -> DataType {
    DataType::Primitive(ty)
}

fn decimal(precision: u8, scale: u8) -> DataType {
    DataType::decimal(precision, scale).unwrap()
}

fn unshredded_variant() -> DataType {
    DataType::Variant(Box::new(StructType::new(vec![
        StructField::not_null("metadata", primitive(PrimitiveType::Binary)),
        StructField::not_null("value", primitive(PrimitiveType::Binary)),
    ])))
}

/// A row group with a column for each way in which values are stored.
fn every_type() -> RowGroup {
    let mut low = vec![0u8; 14];
    low[12] = 0x2b;
    low[13] = 0x78;
    let mut high = vec![0u8; 14];
    high[12] = 0x3b;
    high[13] = 0x18;
    RowGroup {
        columns: vec![
            chunk("bool", Some(Statistics::Boolean(stats(false, true, 3)))),
            chunk("chrono.date32", Some(Statistics::Int32(stats(365, 369, 0)))),
            chunk("chrono.timestamp", None),
            chunk(
                "chrono.timestamp_ntz",
                Some(Statistics::Int64(stats(86_400_000_000, 86_640_000_000, 0))),
            ),
            chunk(
                "numeric.decimals.decimal128",
                Some(Statistics::FixedLenByteArray(stats(low, high, 0))),
            ),
            chunk(
                "numeric.decimals.decimal32",
                Some(Statistics::Int32(stats(11032, 15032, 0))),
            ),
            chunk(
                "numeric.decimals.decimal64",
                Some(Statistics::Int64(stats(11064, 15064, 0))),
            ),
            chunk(
                "numeric.floats.float32",
                Some(Statistics::Float(stats(float(139.0), float(1048699.0), 0))),
            ),
            chunk(
                "numeric.floats.float64",
                Some(Statistics::Double(stats(double(1147.0), double(1125899906842747.0), 0))),
            ),
            chunk("numeric.ints.int16", Some(Statistics::Int32(stats(1000, 1004, 0)))),
            chunk(
                "numeric.ints.int32",
                Some(Statistics::Int32(stats(1000000, 1000004, 0))),
            ),
            chunk(
                "numeric.ints.int64",
                Some(Statistics::Int64(stats(1000000000, 1000000004, 0))),
            ),
            chunk("numeric.ints.int8", Some(Statistics::Int32(stats(0, 4, 0)))),
            chunk(
                "varlen.binary",
                Some(Statistics::ByteArray(stats(vec![], vec![0, 0, 0, 0], 0))),
            ),
            chunk(
                "varlen.utf8",
                Some(Statistics::ByteArray(stats(b"a".to_vec(), b"e".to_vec(), 0))),
            ),
        ],
        num_rows: 5,
    }
}

/// The statistics of one row group, read as each of the types that they can be read as. The values
/// are those of a file with a column for each primitive type.
#[test]
fn stat_values_are_read_by_type() {
    let group = every_type();
    let paths = [
        "varlen.utf8",
        "numeric.ints.int64",
        "numeric.ints.int32",
        "numeric.ints.int16",
        "numeric.ints.int8",
        "numeric.floats.float32",
        "numeric.floats.float64",
        "bool",
        "varlen.binary",
        "numeric.decimals.decimal32",
        "numeric.decimals.decimal64",
        "numeric.decimals.decimal128",
        "chrono.date32",
        "chrono.timestamp",
        "chrono.timestamp_ntz",
    ];
    let columns =
        Predicate::and_from(paths.iter().map(|path| Predicate::column(parts(path))).collect());
    let filter = RowGroupFilter::new(&group, &columns);

    assert_eq!(filter.get_parquet_rowcount_stat(), Some(5));
    assert_eq!(filter.get_parquet_nullcount_stat(&name("bool")), Some(3));
    assert_eq!(filter.get_parquet_nullcount_stat(&name("varlen.utf8")), Some(0));
    assert_eq!(filter.get_parquet_nullcount_stat(&name("nowhere")), None);
    assert_eq!(filter.get_parquet_nullcount_stat(&name("chrono.timestamp")), None);

    let date = |text: &str| {
        let floats = no_floats();
        PrimitiveType::Date.parse_scalar(text, &floats).unwrap()
    };
    let ntz = |text: &str| {
        let floats = no_floats();
        PrimitiveType::TimestampNtz.parse_scalar(text, &floats).unwrap()
    };
    let timestamp = |text: &str| {
        let floats = no_floats();
        PrimitiveType::Timestamp.parse_scalar(text, &floats).unwrap()
    };
    let string = |text: &str| Scalar::String(text.to_string());
    let cases: Vec<(&str, DataType, Option<Scalar>, Option<Scalar>)> = vec![
        (
            "varlen.utf8",
            primitive(PrimitiveType::String),
            Some(string("a")),
            Some(string("e")),
        ),
        (
            "numeric.decimals.decimal128",
            primitive(PrimitiveType::String),
            Some(string("\0\0\0\0\0\0\0\0\0\0\0\0+x")),
            Some(string("\0\0\0\0\0\0\0\0\0\0\0\0;\u{18}")),
        ),
        (
            "numeric.ints.int64",
            primitive(PrimitiveType::Long),
            Some(Scalar::Long(1000000000)),
            Some(Scalar::Long(1000000004)),
        ),
        (
            "numeric.ints.int32",
            primitive(PrimitiveType::Long),
            Some(Scalar::Long(1000000)),
            Some(Scalar::Long(1000004)),
        ),
        (
            "numeric.ints.int32",
            primitive(PrimitiveType::Integer),
            Some(Scalar::Integer(1000000)),
            Some(Scalar::Integer(1000004)),
        ),
        (
            "numeric.ints.int16",
            primitive(PrimitiveType::Short),
            Some(Scalar::Short(1000)),
            Some(Scalar::Short(1004)),
        ),
        (
            "numeric.ints.int8",
            primitive(PrimitiveType::Byte),
            Some(Scalar::Byte(0)),
            Some(Scalar::Byte(4)),
        ),
        (
            "numeric.floats.float64",
            primitive(PrimitiveType::Double),
            Some(Scalar::Double(double(1147.0))),
            Some(Scalar::Double(double(1125899906842747.0))),
        ),
        (
            "numeric.floats.float32",
            primitive(PrimitiveType::Double),
            Some(Scalar::Double(double(139.0))),
            Some(Scalar::Double(double(1048699.0))),
        ),
        (
            "numeric.floats.float32",
            primitive(PrimitiveType::Float),
            Some(Scalar::Float(float(139.0).value)),
            Some(Scalar::Float(float(1048699.0).value)),
        ),
        (
            "bool",
            primitive(PrimitiveType::Boolean),
            Some(Scalar::Boolean(false)),
            Some(Scalar::Boolean(true)),
        ),
        (
            "varlen.binary",
            primitive(PrimitiveType::Binary),
            Some(Scalar::Binary(vec![])),
            Some(Scalar::Binary(vec![0, 0, 0, 0])),
        ),
        (
            "numeric.decimals.decimal128",
            primitive(PrimitiveType::Binary),
            Some(Scalar::Binary(vec![0, 0, 0, 0, 0, 0, 0, 0, 0, 0, 0, 0, 0x2b, 0x78])),
            Some(Scalar::Binary(vec![0, 0, 0, 0, 0, 0, 0, 0, 0, 0, 0, 0, 0x3b, 0x18])),
        ),
        (
            "numeric.decimals.decimal32",
            decimal(8, 3),
            Some(Scalar::decimal(11032, 8, 3).unwrap()),
            Some(Scalar::decimal(15032, 8, 3).unwrap()),
        ),
        (
            "numeric.decimals.decimal64",
            decimal(16, 3),
            Some(Scalar::decimal(11064, 16, 3).unwrap()),
            Some(Scalar::decimal(15064, 16, 3).unwrap()),
        ),
        (
            "numeric.decimals.decimal32",
            decimal(16, 3),
            Some(Scalar::decimal(11032, 16, 3).unwrap()),
            Some(Scalar::decimal(15032, 16, 3).unwrap()),
        ),
        (
            "numeric.decimals.decimal128",
            decimal(32, 3),
            Some(Scalar::decimal(11128, 32, 3).unwrap()),
            Some(Scalar::decimal(15128, 32, 3).unwrap()),
        ),
        (
            "numeric.decimals.decimal64",
            decimal(32, 3),
            Some(Scalar::decimal(11064, 32, 3).unwrap()),
            Some(Scalar::decimal(15064, 32, 3).unwrap()),
        ),
        (
            "numeric.decimals.decimal32",
            decimal(32, 3),
            Some(Scalar::decimal(11032, 32, 3).unwrap()),
            Some(Scalar::decimal(15032, 32, 3).unwrap()),
        ),
        (
            "chrono.date32",
            primitive(PrimitiveType::Date),
            Some(date("1971-01-01")),
            Some(date("1971-01-05")),
        ),
        ("chrono.timestamp", primitive(PrimitiveType::Timestamp), None, None),
        ("chrono.date32", unshredded_variant(), None, None),
        (
            "chrono.timestamp_ntz",
            primitive(PrimitiveType::Timestamp),
            Some(timestamp("1970-01-02 00:00:00.000000")),
            Some(timestamp("1970-01-02 00:04:00.000000")),
        ),
        (
            "chrono.timestamp_ntz",
            primitive(PrimitiveType::TimestampNtz),
            Some(ntz("1970-01-02 00:00:00.000000")),
            Some(ntz("1970-01-02 00:04:00.000000")),
        ),
        (
            "chrono.date32",
            primitive(PrimitiveType::TimestampNtz),
            Some(ntz("1971-01-01 00:00:00.000000")),
            Some(ntz("1971-01-05 00:00:00.000000")),
        ),
        // Stored in a way that the type cannot be read from.
        ("bool", primitive(PrimitiveType::Long), None, None),
        ("numeric.ints.int64", primitive(PrimitiveType::Integer), None, None),
        ("numeric.floats.float64", primitive(PrimitiveType::Float), None, None),
        ("varlen.utf8", primitive(PrimitiveType::Void), None, None),
        // Digits that are too many for the type.
        ("numeric.decimals.decimal32", decimal(4, 3), None, None),
    ];
    for (path, ty, min, max) in cases {
        assert_eq!(filter.get_parquet_min_stat(&name(path), &ty), min, "least of {path}");
        assert_eq!(filter.get_parquet_max_stat(&name(path), &ty), max, "greatest of {path}");
    }

    // A column that the predicate does not refer to is not looked up.
    let other = RowGroupFilter::new(&group, &Predicate::column(parts("bool")));
    assert_eq!(
        other.get_parquet_min_stat(&name("varlen.utf8"), &primitive(PrimitiveType::String)),
        None
    );
    assert!(other.get_stats(&name("varlen.utf8")).is_none());
    assert!(matches!(other.get_stats(&name("bool")), Some(Some(_))));
    assert!(matches!(filter.get_stats(&name("chrono.timestamp")), Some(None)));
}

fn no_floats() -> delta_kernel::expressions::scalar_parse::FloatReading {
    delta_kernel::expressions::scalar_parse::FloatReading::none()
}

#[test]
fn test_extract_nullcount_distinguishes_missing_from_zero() {
    let stats = |null_count| Statistics::int64(Some(1), Some(2), None, null_count, false);
    assert_eq!(extract_nullcount(None), None);
    assert_eq!(extract_nullcount(Some(&stats(None))), None);
    assert_eq!(extract_nullcount(Some(&stats(Some(0)))), Some(0));
    assert_eq!(extract_nullcount(Some(&stats(Some(3)))), Some(3));
}

#[test]
fn test_interval_skipping_unsupported_for_any_footer_stats() {
    let variants = [
        Statistics::int32(Some(0), Some(1), None, Some(0), false),
        Statistics::int64(Some(0), Some(1), None, Some(0), false),
        Statistics::fixed_len_byte_array(
            Some(vec![0u8; 12]),
            Some(vec![0u8; 12]),
            None,
            Some(0),
            false,
        ),
    ];
    for dt in [
        primitive(PrimitiveType::IntervalYearMonth),
        primitive(PrimitiveType::IntervalDayTime),
    ] {
        for stats in &variants {
            assert_eq!(extract_min_scalar(&dt, stats), None);
            assert_eq!(extract_max_scalar(&dt, stats), None);
        }
    }
}

/// The statistics in a footer of 64-bit integers that may be missing.
fn footer(values: &[Option<i64>]) -> Statistics {
    let present: Vec<i64> = values.iter().flatten().copied().collect();
    let nulls = values.len() - present.len();
    Statistics::int64(
        present.iter().min().copied(),
        present.iter().max().copied(),
        None,
        Some(nulls as u64),
        false,
    )
}

/// The statistics in a footer of strings that may be missing.
fn text_footer(values: &[Option<&str>]) -> Statistics {
    let present: Vec<&str> = values.iter().flatten().copied().collect();
    let nulls = values.len() - present.len();
    Statistics::byte_array(
        present.iter().min().map(|s| s.as_bytes().to_vec()),
        present.iter().max().map(|s| s.as_bytes().to_vec()),
        None,
        Some(nulls as u64),
        false,
    )
}

/// A row group of a checkpoint with the statistics of one column, a row for each file.
fn checkpoint_row_group(
    min_values: &[Option<i64>],
    max_values: &[Option<i64>],
    null_counts: &[Option<i64>],
    col_path: &str,
    part_values: Option<&[Option<&str>]>,
) -> RowGroup {
    let mut columns = vec![
        chunk(
            &format!("add.stats_parsed.minValues.{col_path}"),
            Some(footer(min_values)),
        ),
        chunk(
            &format!("add.stats_parsed.maxValues.{col_path}"),
            Some(footer(max_values)),
        ),
        chunk(
            &format!("add.stats_parsed.nullCount.{col_path}"),
            Some(footer(null_counts)),
        ),
    ];
    if let Some(part_values) = part_values {
        columns.push(chunk(
            "add.partitionValues_parsed.part_col",
            Some(text_footer(part_values)),
        ));
    }
    RowGroup {
        columns,
        num_rows: min_values.len() as i64,
    }
}

fn long() -> DataType {
    primitive(PrimitiveType::Long)
}

fn gt(path: &str, value: i64) -> Predicate {
    Predicate::gt(column(path), Expression::literal(Scalar::Long(value)))
}

#[test]
fn checkpoint_filter_returns_stats_when_no_nulls_in_stat_columns() {
    let group = checkpoint_row_group(
        &[Some(10), Some(20)],
        &[Some(100), Some(200)],
        &[Some(2), Some(0)],
        "x",
        Some(&[Some("a"), Some("b")]),
    );
    let predicate = gt("x", 50);
    let filter = CheckpointRowGroupFilter::new(&group, &predicate, &[]);

    assert_eq!(
        filter.get_parquet_min_stat(&name("x"), &long()),
        Some(Scalar::Long(10))
    );
    assert_eq!(
        filter.get_parquet_max_stat(&name("x"), &long()),
        Some(Scalar::Long(200))
    );
    assert_eq!(filter.get_parquet_nullcount_stat(&name("x")), Some(2));
    assert_eq!(filter.get_parquet_rowcount_stat(), None);
}

#[test]
fn checkpoint_filter_returns_none_when_stat_column_has_nulls() {
    let group = checkpoint_row_group(
        &[Some(10), None, Some(20)],
        &[Some(100), None, Some(200)],
        &[Some(2), None, Some(0)],
        "x",
        Some(&[Some("a"), Some("b"), Some("b")]),
    );
    let predicate = gt("x", 50);
    let filter = CheckpointRowGroupFilter::new(&group, &predicate, &[]);

    assert_eq!(filter.get_parquet_min_stat(&name("x"), &long()), None);
    assert_eq!(filter.get_parquet_max_stat(&name("x"), &long()), None);
    assert_eq!(filter.get_parquet_nullcount_stat(&name("x")), None);
}

#[test]
fn checkpoint_filter_partition_columns_always_available() {
    let group = checkpoint_row_group(
        &[Some(10), None],
        &[Some(100), None],
        &[Some(2), None],
        "x",
        Some(&[Some("a"), Some("b")]),
    );
    let partition_columns = ["part_col".to_string()];
    let predicate = Predicate::and(
        gt("x", 50),
        Predicate::eq(
            column("part_col"),
            Expression::literal(Scalar::String("a".to_string())),
        ),
    );
    let filter = CheckpointRowGroupFilter::new(&group, &predicate, &partition_columns);
    let string = primitive(PrimitiveType::String);

    assert_eq!(
        filter.get_parquet_min_stat(&name("part_col"), &string),
        Some(Scalar::String("a".to_string()))
    );
    assert_eq!(
        filter.get_parquet_max_stat(&name("part_col"), &string),
        Some(Scalar::String("b".to_string()))
    );
    assert_eq!(filter.get_parquet_min_stat(&name("x"), &long()), None);
}

#[test]
fn checkpoint_filter_timestamp_max_widened() {
    let group = checkpoint_row_group(
        &[Some(10), Some(20)],
        &[Some(100), Some(200)],
        &[Some(0), Some(0)],
        "x",
        Some(&[Some("a"), Some("b")]),
    );
    let predicate = Predicate::column(parts("x"));
    let filter = CheckpointRowGroupFilter::new(&group, &predicate, &[]);

    assert_eq!(
        filter.get_parquet_max_stat(&name("x"), &primitive(PrimitiveType::Timestamp)),
        Some(Scalar::Timestamp(1199))
    );
    assert_eq!(
        filter.get_parquet_max_stat(&name("x"), &primitive(PrimitiveType::TimestampNtz)),
        Some(Scalar::TimestampNtz(1199))
    );
    assert_eq!(
        filter.get_parquet_max_stat(&name("x"), &long()),
        Some(Scalar::Long(200))
    );
}

#[test]
fn checkpoint_filter_unknown_column_returns_none() {
    let group = checkpoint_row_group(&[Some(10)], &[Some(100)], &[Some(0)], "x", Some(&[Some("a")]));
    let predicate = gt("y", 50);
    let filter = CheckpointRowGroupFilter::new(&group, &predicate, &[]);

    assert_eq!(filter.get_parquet_min_stat(&name("y"), &long()), None);
    assert_eq!(filter.get_parquet_max_stat(&name("y"), &long()), None);
    assert_eq!(filter.get_parquet_nullcount_stat(&name("y")), None);
}

#[test]
fn checkpoint_filter_counts_nulls_of_partition_columns() {
    let group = checkpoint_row_group(
        &[Some(10), Some(20)],
        &[Some(100), Some(200)],
        &[Some(0), Some(0)],
        "x",
        Some(&[Some("a"), None]),
    );
    let partition_columns = ["part_col".to_string()];
    let predicate = Predicate::is_null(column("part_col"));
    let filter = CheckpointRowGroupFilter::new(&group, &predicate, &partition_columns);
    assert_eq!(filter.get_parquet_nullcount_stat(&name("part_col")), Some(1));
    // The bounds of a partition column are not guarded.
    assert_eq!(
        filter.get_parquet_min_stat(&name("part_col"), &primitive(PrimitiveType::String)),
        Some(Scalar::String("a".to_string()))
    );
}

#[test]
fn checkpoint_filter_nested_column_stats() {
    let group = checkpoint_row_group(
        &[Some(10), Some(20)],
        &[Some(100), Some(200)],
        &[Some(0), Some(0)],
        "a.b",
        None,
    );
    let predicate = gt("a.b", 500);
    let filter = CheckpointRowGroupFilter::new(&group, &predicate, &[]);

    assert_eq!(
        filter.get_parquet_min_stat(&name("a.b"), &long()),
        Some(Scalar::Long(10))
    );
    assert_eq!(
        filter.get_parquet_max_stat(&name("a.b"), &long()),
        Some(Scalar::Long(200))
    );
}

#[test]
fn field_indices_are_those_of_the_first_column_at_a_path() {
    let columns = [
        chunk("a", None),
        chunk("b.c", None),
        chunk("b.c", None),
        chunk("d", None),
    ];
    let predicate = Predicate::and(gt("b.c", 1), gt("missing", 1));
    let indices = compute_field_indices(&columns, &predicate);
    assert_eq!(indices.len(), 1);
    assert_eq!(indices[0].name, name("b.c"));
    assert_eq!(indices[0].index, 1);
}

#[test]
fn checkpoint_field_indices_follow_the_layout() {
    let columns = [
        chunk("add.path", None),
        chunk("add.stats_parsed.numRecords", None),
        chunk("add.stats_parsed.minValues.x", None),
        chunk("add.stats_parsed.maxValues.x", None),
        chunk("add.stats_parsed.tightBounds.x", None),
        chunk("add.stats_parsed.minValues.p", None),
        chunk("add.partitionValues_parsed.p", None),
        chunk("add.partitionValues_parsed.q", None),
        chunk("add.stats_parsed.minValues.y", None),
    ];
    let predicate = Predicate::and_from(vec![gt("x", 1), gt("p", 1), gt("q", 1)]);
    let partitions = ["p".to_string()];
    let (stats, partition) = compute_checkpoint_field_indices(&columns, &predicate, &partitions);
    let last = stats.iter().rev().find(|s| s.name == name("x")).unwrap();
    assert_eq!(last.indices.min_index, Some(2));
    assert_eq!(last.indices.max_index, Some(3));
    assert_eq!(last.indices.nullcount_index, None);
    assert!(stats.iter().all(|s| s.name == name("x")));
    assert_eq!(partition.len(), 1);
    assert_eq!((&partition[0].name, partition[0].index), (&name("p"), 6));
}

#[test]
fn checkpoint_statistics_are_listed_for_columns_that_have_some() {
    let columns = [
        chunk("add.stats_parsed.tightBounds.x.y", None),
        chunk("add.stats_parsed.minValues.p", None),
        chunk("add.stats_parsed.minValues.unasked", None),
        chunk("add.stats_parsed.x", None),
        chunk("remove.stats_parsed.minValues.z", None),
    ];
    let asked = vec![gt("x.y", 1), gt("p", 1), gt("z", 1), gt("x", 1)];
    let predicate = Predicate::and_from(asked);
    let partitions = ["p".to_string()];
    let (stats, partition) = compute_checkpoint_field_indices(&columns, &predicate, &partitions);
    assert_eq!(stats.len(), 1);
    assert_eq!(stats[0].name, name("x.y"));
    assert_eq!(stats[0].indices.min_index, None);
    assert_eq!(stats[0].indices.max_index, None);
    assert_eq!(stats[0].indices.nullcount_index, None);
    assert!(partition.is_empty());
}

#[test]
fn only_top_level_columns_are_partition_columns() {
    let partitions = ["p".to_string(), "q".to_string()];
    assert!(is_top_level_partition_column(&name("q"), &partitions));
    assert!(!is_top_level_partition_column(&name("r"), &partitions));
    assert!(!is_top_level_partition_column(&name("p.q"), &partitions));
}

#[test]
fn decimals_are_read_from_big_endian_bytes() {
    let ty = DecimalType::try_new(38, 2).unwrap();
    let read = |bytes: &[u8]| decimal_from_bytes(Some(bytes), ty);
    assert_eq!(read(&[1, 0]), Some(Scalar::decimal(256, 38, 2).unwrap()));
    assert_eq!(read(&[]), Some(Scalar::decimal(0, 38, 2).unwrap()));
    // Fewer than 16 bytes are not negative.
    assert_eq!(read(&[0xff]), Some(Scalar::decimal(255, 38, 2).unwrap()));
    assert_eq!(read(&[0xff; 16]), Some(Scalar::decimal(-1, 38, 2).unwrap()));
    assert_eq!(read(&[0; 17]), None);
    assert_eq!(decimal_from_bytes(None, ty), None);
    // The digits are too many.
    let mut most = [0xff; 16];
    most[0] = 0x7f;
    assert_eq!(read(&most), None);
    assert_eq!(
        decimal_from_bytes(Some(&[0xff]), DecimalType::try_new(2, 0).unwrap()),
        None
    );
}

#[test]
fn dates_become_times_from_the_epoch_on() {
    assert_eq!(
        timestamp_from_date(Some(1)),
        Some(Scalar::TimestampNtz(86_400_000_000))
    );
    assert_eq!(timestamp_from_date(Some(0)), Some(Scalar::TimestampNtz(0)));
    assert_eq!(timestamp_from_date(Some(-1)), None);
    assert_eq!(timestamp_from_date(None), None);
    assert_eq!(
        timestamp_from_date(Some(95_026_236)),
        Some(Scalar::TimestampNtz(95_026_236 * 86_400_000_000))
    );
    assert_eq!(timestamp_from_date(Some(95_026_237)), None);
    assert_eq!(timestamp_from_date(Some(i32::MAX)), None);
}

#[test]
fn widening_stops_at_the_last_time() {
    assert_eq!(
        adjust_stats_for_truncation(Scalar::Timestamp(i64::MAX - 10)),
        Scalar::Timestamp(i64::MAX)
    );
    assert_eq!(
        adjust_stats_for_truncation(Scalar::TimestampNtz(-5)),
        Scalar::TimestampNtz(994)
    );
    assert_eq!(
        adjust_stats_for_truncation(Scalar::Date(5)),
        Scalar::Date(5)
    );
}

#[test]
fn text_that_is_not_utf8_has_no_bounds() {
    let stats = Statistics::byte_array(
        Some(vec![0xff, 0xfe]),
        Some("grün".as_bytes().to_vec()),
        None,
        None,
        false,
    );
    let string = primitive(PrimitiveType::String);
    assert_eq!(extract_min_scalar(&string, &stats), None);
    assert_eq!(
        extract_max_scalar(&string, &stats),
        Some(Scalar::String("grün".to_string()))
    );
}

#[test]
fn narrow_integers_are_cut_from_wider_ones() {
    let stats = Statistics::int32(Some(-1), Some(70000), None, None, false);
    assert_eq!(
        extract_max_scalar(&primitive(PrimitiveType::Short), &stats),
        Some(Scalar::Short(4464))
    );
    assert_eq!(
        extract_min_scalar(&primitive(PrimitiveType::Byte), &stats),
        Some(Scalar::Byte(-1))
    );
    assert_eq!(extract_max_i64(&stats), Some(70000));
    assert_eq!(extract_max_i64(&Statistics::byte_array(None, None, None, None, false)), None);
}

#[test]
fn a_missing_null_count_may_hide_nulls() {
    let group = |null_count| RowGroup {
        columns: vec![chunk(
            "a",
            Some(Statistics::int64(Some(1), Some(2), None, null_count, false)),
        )],
        num_rows: 2,
    };
    assert!(column_has_nulls(&group(None), 0));
    assert!(column_has_nulls(&group(Some(1)), 0));
    assert!(!column_has_nulls(&group(Some(0)), 0));
    let bare = RowGroup {
        columns: vec![chunk("a", None)],
        num_rows: 2,
    };
    assert!(column_has_nulls(&bare, 0));
}

#[test]
fn only_certain_misses_are_skipped() {
    assert!(!row_group_survives(Some(false)));
    assert!(row_group_survives(Some(true)));
    assert!(row_group_survives(None));
    assert_eq!(
        surviving_row_groups(&[Some(false), None, Some(true), Some(false)]),
        vec![1, 2]
    );
    assert!(surviving_row_groups(&[]).is_empty());
}
