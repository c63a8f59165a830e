use delta_kernel::error::{Error, ScalarConversionError};
use delta_kernel::expressions::calendar::{DAY_MICROS, DAY_MILLIS, FIRST_DAY, LAST_DAY};
use delta_kernel::expressions::literal_expression_transform::Error as TransformError;
use delta_kernel::expressions::scalar_parse::{
    date_scalar, resolve_timestamp, timestamp_scalar, FloatReading,
};
use delta_kernel::expressions::Scalar;
use delta_kernel::history_manager::error::{LogHistoryError, NearestTimestamp};
use delta_kernel::history_manager::search::Bound;
use delta_kernel::schema::{DataType, PrimitiveType};

fn long() -> DataType {
    DataType::Primitive(PrimitiveType::Long)
}

fn string() -> DataType {
    DataType::Primitive(PrimitiveType::String)
}

#[test]
fn each_error_has_its_text() {
    for (error, expected) in [
        (Error::checkpoint_write("x"), "Error writing checkpoint: x"),
        (
            Error::engine_data_type("x"),
            "Invalid engine data type. Could not convert to x",
        ),
        (Error::generic("x"), "Generic delta kernel error: x"),
        (Error::generic_err("x"), "Generic error: x"),
        (
            Error::internal_error("x"),
            "Internal error x. This is a kernel bug, please report.",
        ),
        (Error::file_not_found("x"), "File not found: x"),
        (Error::missing_column("x"), "x"),
        (
            Error::invalid_partition_values("x"),
            "Invalid partition values: x",
        ),
        (Error::unexpected_column_type("x"), "Expected column type: x"),
        (Error::missing_data("x"), "Expected is missing: x"),
        (Error::deletion_vector("x"), "Deletion Vector error: x"),
        (
            Error::InvalidSelectionVector("x".to_string()),
            "Selection vector is larger than data length: x",
        ),
        (
            Error::invalid_transaction_state("x"),
            "Invalid transaction state: x",
        ),
        (Error::invalid_url("x"), "Invalid url: x"),
        (
            Error::invalid_protocol("x"),
            "Invalid protocol action in the delta log: x",
        ),
        (Error::join_failure("x"), "Join failure: x"),
        (
            Error::invalid_column_mapping_mode("x"),
            "Invalid column mapping mode: x",
        ),
        (
            Error::invalid_table_location("x"),
            "Invalid table location: x.",
        ),
        (Error::invalid_decimal("x"), "Invalid decimal: x"),
        (Error::invalid_geo_params("x"), "Invalid geo parameters: x"),
        (Error::invalid_struct_data("x"), "Invalid struct data: x"),
        (
            Error::invalid_expression("x"),
            "Invalid expression evaluation: x",
        ),
        (Error::invalid_log_path("x"), "Invalid log path: x"),
        (
            Error::FileAlreadyExists("x".to_string()),
            "File already exists: x",
        ),
        (Error::unsupported("x"), "Unsupported: x"),
        (
            Error::ChecksumWriteUnsupported("x".to_string()),
            "Checksum write unsupported: x",
        ),
        (Error::invalid_checkpoint("x"), "Invalid Checkpoint: x"),
        (Error::schema("x"), "Schema error: x"),
        (Error::stats_validation("x"), "Stats validation error: x"),
        (
            Error::MaxCatalogVersion("x".to_string()),
            "Max catalog version error: x",
        ),
        (Error::IOError("x".to_string()), "x"),
        (Error::Parquet("x".to_string()), "Arrow error: x"),
        (
            Error::ObjectStore("x".to_string()),
            "Error interacting with object store: x",
        ),
        (
            Error::ObjectStorePath("x".to_string()),
            "Object store path error: x",
        ),
        (Error::Reqwest("x".to_string()), "Reqwest Error: x"),
        (Error::MalformedJson("x".to_string()), "x"),
        (
            Error::Utf8Error("x".to_string()),
            "Could not convert to string from utf-8: x",
        ),
        (Error::ParseIntError("x".to_string()), "Could not parse int: x"),
        (Error::engine("x"), "x"),
        (Error::Extract("a", "b"), "Error extracting type a: b"),
        (
            Error::scalar_conversion("a", "b"),
            "Cannot convert scalar: expected a, found b",
        ),
        (
            Error::LogTailVersionsNotContiguous {
                first_version: 1,
                second_version: 3,
            },
            "Log tail versions 1 and 3 are not contiguous",
        ),
        (Error::MissingVersion, "No table version found."),
        (
            Error::MissingMetadata,
            "No table metadata found in delta log.",
        ),
        (Error::MissingProtocol, "No protocol found in delta log."),
        (
            Error::MissingMetadataAndProtocol,
            "No table metadata or protocol found in delta log.",
        ),
        (
            Error::ParseError("x".to_string(), long()),
            "Failed to parse value 'x' as 'long'",
        ),
        (
            Error::change_data_feed_unsupported(3),
            "Change data feed is unsupported for the table at version 3",
        ),
        (
            Error::row_tracking_change_feed_unsupported(3),
            "Row tracking (delta.enableRowTracking) must be enabled for the entire row-tracking \
             change feed range, but it is not enabled at version 3",
        ),
        (
            Error::change_data_feed_incompatible_schema(&long(), &string()),
            "Change data feed encountered incompatible schema. Expected long, got string",
        ),
        (
            Error::change_data_feed_incompatible_schema_at_version(&long(), &string(), 7),
            "Change data feed encountered incompatible schema. Expected long, got schema at \
             version 7: string",
        ),
        (
            Error::plan_result_type_mismatch("Data", "Unit"),
            "Declarative plan execution yielded the incorrect type: expected PlanResult::Data, \
             got PlanResult::Unit",
        ),
        (Error::Cancelled, "Operation cancelled"),
    ] {
        assert_eq!(error.to_string(), expected);
    }
}

#[test]
fn errors_of_parts_become_errors() {
    let error = Error::from(ScalarConversionError::new("a", "b").add_path_context("f"));
    assert_eq!(error.to_string(), "Cannot convert f: expected a, found b");
    let error = Error::from(TransformError::EmptyStack);
    assert!(matches!(error, Error::LiteralExpressionTransformError(_)));
    let error = Error::from(Box::new(LogHistoryError::TimestampOutOfRange {
        timestamp: 1,
        bound: Bound::LeastUpper,
        nearest_timestamp: NearestTimestamp::Latest(0),
    }));
    assert_eq!(
        error.to_string(),
        "Timestamp 1 is out of range: the latest commit is at 0"
    );
    assert_eq!(Bound::LeastUpper.boundary_of(3), Some(2));
    assert_eq!(Bound::GreatestLower.boundary_of(3), Some(0));
    assert_eq!(Bound::GreatestLower.boundary_of(0), None);
}

#[test]
fn times_are_resolved_without_a_zone_first() {
    assert_eq!(resolve_timestamp(Some(Some(1)), Some(Some(2)), true), Some(1));
    assert_eq!(resolve_timestamp(Some(None), Some(Some(2)), true), None);
    assert_eq!(resolve_timestamp(None, Some(Some(2)), true), Some(2));
    assert_eq!(resolve_timestamp(None, Some(Some(2)), false), None);
    assert_eq!(resolve_timestamp(None, None, true), None);
    assert_eq!(date_scalar(Some(3)), Some(Scalar::Date(3)));
    assert_eq!(date_scalar(None), None);
    assert_eq!(timestamp_scalar(Some(3), true), Some(Scalar::Timestamp(3)));
    assert_eq!(
        timestamp_scalar(Some(3), false),
        Some(Scalar::TimestampNtz(3))
    );
}

#[test]
fn dates_and_times_are_read() {
    let read = |ty: PrimitiveType, raw: &str| ty.parse_scalar(raw, &FloatReading::none());
    assert_eq!(
        read(PrimitiveType::Date, "1970-01-03").unwrap(),
        Scalar::Date(2)
    );
    assert_eq!(
        read(PrimitiveType::TimestampNtz, "1970-01-02 00:00:00.5").unwrap(),
        Scalar::TimestampNtz(DAY_MICROS + 500_000)
    );
    assert_eq!(
        read(PrimitiveType::Timestamp, "1970-01-02T01:00:00.000001Z").unwrap(),
        Scalar::Timestamp(DAY_MICROS + 3_600_000_001)
    );
    assert!(read(PrimitiveType::Date, "1970-13-03").is_err());
    assert!(read(PrimitiveType::TimestampNtz, "1970-01-02T01:00:00Z").is_err());
}

#[test]
fn milliseconds_become_timestamps_as_far_as_dates_go() {
    let first = FIRST_DAY * DAY_MILLIS;
    let last = (LAST_DAY + 1) * DAY_MILLIS - 1;
    for millis in [first, -1, 0, 1, last] {
        assert_eq!(
            Scalar::timestamp_from_millis(millis).unwrap(),
            Scalar::Timestamp(millis * 1000)
        );
    }
    for millis in [i64::MIN, first - 1, last + 1, i64::MAX] {
        assert!(Scalar::timestamp_from_millis(millis).is_err());
    }
}
