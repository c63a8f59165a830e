use delta_kernel::engine::arrow_types::{
    arrow_from_primitive, ArrowDataType, ArrowField, ArrowKind, ArrowMetadataEntry, TimeUnit,
};
use delta_kernel::engine::ensure_data_types::{
    can_upcast_to_decimal, check_cast_compat, ensure_data_types, metadata_eq, DataTypeCompat,
    ValidationMode,
};
use delta_kernel::error::DeltaResult;
use delta_kernel::schema::{
    ArrayType, DataType, MapType, MetadataEntry, MetadataValue, PrimitiveType, StructField,
    StructType,
};

fn plain(kind: ArrowKind) -> ArrowDataType {
    let text = match &kind {
        ArrowKind::Decimal128(precision, scale) => format!("Decimal128({precision}, {scale})"),
        ArrowKind::Timestamp(TimeUnit::Microsecond, None) => "Timestamp(µs)".to_string(),
        ArrowKind::Timestamp(TimeUnit::Microsecond, Some(zone)) => {
            format!("Timestamp(µs, {zone:?})")
        }
        other => format!("{other:?}"),
    };
    ArrowDataType { kind, text }
}

fn nested(kind: ArrowKind, text: &str) -> ArrowDataType {
    ArrowDataType {
        kind,
        text: text.to_string(),
    }
}

fn list_field(data_type: ArrowDataType, nullable: bool) -> Box<ArrowField> {
    Box::new(ArrowField::new("item", data_type, nullable))
}

fn struct_of(fields: Vec<ArrowField>) -> ArrowDataType {
    nested(ArrowKind::Struct(fields), "Struct")
}

fn map_of(key: ArrowField, value: ArrowField) -> ArrowDataType {
    let entries = ArrowField::new("entries", struct_of(vec![key, value]), false);
    nested(ArrowKind::Entries(Box::new(entries)), "Map")
}

fn decimal128(precision: u8, scale: i8) -> ArrowDataType {
    plain(ArrowKind::Decimal128(precision, scale))
}

fn primitive(ty: PrimitiveType) -> DataType {
    DataType::Primitive(ty)
}

fn long() -> DataType {
    primitive(PrimitiveType::Long)
}

fn string() -> DataType {
    primitive(PrimitiveType::String)
}

fn binary() -> DataType {
    primitive(PrimitiveType::Binary)
}

fn struct_type(fields: Vec<StructField>) -> DataType {
    DataType::Struct(Box::new(StructType::new(fields)))
}

fn array(element: DataType, contains_null: bool) -> DataType {
    DataType::Array(Box::new(ArrayType::new(element, contains_null)))
}

fn map(key: DataType, value: DataType, value_contains_null: bool) -> DataType {
    DataType::Mapping(Box::new(MapType::new(key, value, value_contains_null)))
}

fn unshredded_variant() -> DataType {
    DataType::Variant(Box::new(StructType::new(vec![
        StructField::not_null("metadata", binary()),
        StructField::not_null("value", binary()),
    ])))
}

fn assert_result_error_with_message(result: DeltaResult<DataTypeCompat>, message: &str) {
    let error = result.expect_err("the types do not fit").to_string();
    assert!(error.contains(message), "{error} does not contain {message}");
}

#[test]
fn accepts_safe_decimal_casts() {
    let int8 = plain(ArrowKind::Int8);
    let int16 = plain(ArrowKind::Int16);
    let int32 = plain(ArrowKind::Int32);
    let int64 = plain(ArrowKind::Int64);

    assert!(can_upcast_to_decimal(&decimal128(1, 0), 2u8, 0i8));
    assert!(can_upcast_to_decimal(&decimal128(1, 0), 2u8, 1i8));
    assert!(can_upcast_to_decimal(&decimal128(5, -2), 6u8, -2i8));
    assert!(can_upcast_to_decimal(&decimal128(5, -2), 6u8, -1i8));
    assert!(can_upcast_to_decimal(&decimal128(5, 1), 6u8, 1i8));
    assert!(can_upcast_to_decimal(&decimal128(5, 1), 6u8, 2i8));
    assert!(can_upcast_to_decimal(&decimal128(10, 5), 38, 38 - 5));

    assert!(can_upcast_to_decimal(&int8, 3u8, 0i8));
    assert!(can_upcast_to_decimal(&int8, 4u8, 0i8));
    assert!(can_upcast_to_decimal(&int8, 4u8, 1i8));
    assert!(can_upcast_to_decimal(&int8, 7u8, 2i8));

    assert!(can_upcast_to_decimal(&int16, 5u8, 0i8));
    assert!(can_upcast_to_decimal(&int16, 6u8, 0i8));
    assert!(can_upcast_to_decimal(&int16, 6u8, 1i8));
    assert!(can_upcast_to_decimal(&int16, 9u8, 2i8));

    assert!(can_upcast_to_decimal(&int32, 10u8, 0i8));
    assert!(can_upcast_to_decimal(&int32, 11u8, 0i8));
    assert!(can_upcast_to_decimal(&int32, 11u8, 1i8));
    assert!(can_upcast_to_decimal(&int32, 14u8, 2i8));

    assert!(can_upcast_to_decimal(&int64, 20u8, 0i8));
    assert!(can_upcast_to_decimal(&int64, 21u8, 0i8));
    assert!(can_upcast_to_decimal(&int64, 21u8, 1i8));
    assert!(can_upcast_to_decimal(&int64, 24u8, 2i8));
}

#[test]
fn rejects_unsafe_decimal_casts() {
    let int8 = plain(ArrowKind::Int8);
    let int16 = plain(ArrowKind::Int16);
    let int32 = plain(ArrowKind::Int32);
    let int64 = plain(ArrowKind::Int64);

    assert!(!can_upcast_to_decimal(&decimal128(2, 0), 2u8, 1i8));
    assert!(!can_upcast_to_decimal(&decimal128(2, 0), 2u8, -1i8));
    assert!(!can_upcast_to_decimal(&decimal128(5, 2), 6u8, 4i8));

    assert!(!can_upcast_to_decimal(&int8, 2u8, 0i8));
    assert!(!can_upcast_to_decimal(&int8, 3u8, 1i8));
    assert!(!can_upcast_to_decimal(&int16, 4u8, 0i8));
    assert!(!can_upcast_to_decimal(&int16, 5u8, 1i8));
    assert!(!can_upcast_to_decimal(&int32, 9u8, 0i8));
    assert!(!can_upcast_to_decimal(&int32, 10u8, 1i8));
    assert!(!can_upcast_to_decimal(&int64, 19u8, 0i8));
    assert!(!can_upcast_to_decimal(&int64, 20u8, 1i8));
}

#[test]
fn decimal_casts_compare_scales_at_the_limits() {
    assert!(!can_upcast_to_decimal(&decimal128(1, -128), 255, 127));
    assert!(can_upcast_to_decimal(&decimal128(0, -128), 255, 127));
    assert!(!can_upcast_to_decimal(&plain(ArrowKind::Utf8), 38, 0));
}

fn variant_arrow_struct(fields: Vec<(&str, ArrowDataType)>, nullable: bool) -> ArrowDataType {
    let fields = fields.into_iter();
    struct_of(
        fields
            .map(|(name, data_type)| ArrowField::new(name, data_type, nullable))
            .collect(),
    )
}

#[test]
fn ensure_variant_accepts_any_binary_representation() {
    for mode in [ValidationMode::TypesAndNames, ValidationMode::Full] {
        for nullable in [false, true] {
            for kind in 0..3 {
                let binary_type = || match kind {
                    0 => plain(ArrowKind::Binary),
                    1 => plain(ArrowKind::LargeBinary),
                    _ => plain(ArrowKind::BinaryView),
                };
                let arrow_type = variant_arrow_struct(
                    vec![("metadata", binary_type()), ("value", binary_type())],
                    nullable,
                );
                assert_eq!(
                    ensure_data_types(&unshredded_variant(), &arrow_type, mode).unwrap(),
                    DataTypeCompat::Nested
                );
            }
        }
    }
}

#[test]
fn ensure_variant_accepts_mixed_binary_representations() {
    let arrow_type = variant_arrow_struct(
        vec![
            ("metadata", plain(ArrowKind::Binary)),
            ("value", plain(ArrowKind::LargeBinary)),
        ],
        false,
    );
    assert_eq!(
        ensure_data_types(&unshredded_variant(), &arrow_type, ValidationMode::Full).unwrap(),
        DataTypeCompat::Nested
    );
}

#[test]
fn ensure_variant_accepts_reversed_field_order() {
    let arrow_type = variant_arrow_struct(
        vec![
            ("value", plain(ArrowKind::Binary)),
            ("metadata", plain(ArrowKind::Binary)),
        ],
        false,
    );
    assert_eq!(
        ensure_data_types(&unshredded_variant(), &arrow_type, ValidationMode::Full).unwrap(),
        DataTypeCompat::Nested
    );
}

#[test]
fn ensure_variant_rejects() {
    let binary = || plain(ArrowKind::Binary);
    let cases = vec![
        (
            variant_arrow_struct(vec![("field_1", binary()), ("field_2", binary())], false),
            "missing field",
        ),
        (
            variant_arrow_struct(
                vec![
                    ("metadata", binary()),
                    ("value", binary()),
                    ("typed_value", plain(ArrowKind::Int64)),
                ],
                false,
            ),
            "expected 2",
        ),
        (
            variant_arrow_struct(
                vec![
                    ("metadata", binary()),
                    ("typed_value", plain(ArrowKind::Int64)),
                    ("value", binary()),
                ],
                false,
            ),
            "expected 2",
        ),
        (
            variant_arrow_struct(
                vec![("metadata", binary()), ("typed_value", plain(ArrowKind::Int64))],
                false,
            ),
            "missing field",
        ),
        (
            variant_arrow_struct(
                vec![("metadata", binary()), ("value", plain(ArrowKind::Utf8))],
                false,
            ),
            "Incorrect datatype",
        ),
        (binary(), "Incorrect datatype"),
    ];
    for (arrow_type, expected_err) in cases {
        assert_result_error_with_message(
            ensure_data_types(&unshredded_variant(), &arrow_type, ValidationMode::Full),
            expected_err,
        );
    }
}

#[test]
fn variant_messages_name_the_fields() {
    let extra = variant_arrow_struct(
        vec![
            ("metadata", plain(ArrowKind::Binary)),
            ("typed_value", plain(ArrowKind::Int64)),
            ("value", plain(ArrowKind::Binary)),
            ("other", plain(ArrowKind::Int64)),
        ],
        false,
    );
    assert_result_error_with_message(
        ensure_data_types(&unshredded_variant(), &extra, ValidationMode::Full),
        "Invalid argument error: Variant struct has 4 fields, expected 2 (unexpected: \
         [typed_value, other])",
    );
    let missing = variant_arrow_struct(
        vec![
            ("metadata", plain(ArrowKind::Binary)),
            ("typed_value", plain(ArrowKind::Int64)),
        ],
        false,
    );
    assert_result_error_with_message(
        ensure_data_types(&unshredded_variant(), &missing, ValidationMode::Full),
        "Variant struct is missing field `value`",
    );
    assert_result_error_with_message(
        ensure_data_types(
            &unshredded_variant(),
            &plain(ArrowKind::Binary),
            ValidationMode::Full,
        ),
        "Expected Struct(\"metadata\": non-null Binary, \"value\": non-null Binary), got Binary",
    );
}

#[test]
fn ensure_decimals() {
    assert!(ensure_data_types(
        &DataType::decimal(5, 2).unwrap(),
        &decimal128(5, 2),
        ValidationMode::TypesAndNames
    )
    .is_ok());
    assert_result_error_with_message(
        ensure_data_types(
            &DataType::decimal(5, 2).unwrap(),
            &decimal128(5, 3),
            ValidationMode::TypesAndNames,
        ),
        "Invalid argument error: Incorrect datatype. Expected Decimal128(5, 2), got Decimal128(5, 3)",
    )
}

#[test]
fn ensure_map() {
    let arrow_map = || {
        map_of(
            ArrowField::new("key", plain(ArrowKind::Int64), false),
            ArrowField::new("val", plain(ArrowKind::Utf8), true),
        )
    };
    assert!(ensure_data_types(
        &map(long(), string(), true),
        &arrow_map(),
        ValidationMode::TypesAndNames
    )
    .is_ok());

    assert_result_error_with_message(
        ensure_data_types(&map(long(), string(), false), &arrow_map(), ValidationMode::Full),
        "Generic delta kernel error: Map has nullability false in kernel and true in arrow",
    );
    assert_result_error_with_message(
        ensure_data_types(
            &map(long(), long(), true),
            &arrow_map(),
            ValidationMode::TypesAndNames,
        ),
        "Invalid argument error: Incorrect datatype. Expected long, got Utf8",
    );
}

#[test]
fn maps_need_a_struct_of_a_key_and_a_value() {
    let mode = ValidationMode::TypesAndNames;
    let no_struct = nested(
        ArrowKind::Entries(Box::new(ArrowField::new("e", plain(ArrowKind::Int64), false))),
        "Map",
    );
    assert_result_error_with_message(
        ensure_data_types(&map(long(), string(), true), &no_struct, mode),
        "Arrow map type wasn't a struct.",
    );
    let entry = struct_of(vec![ArrowField::new("key", plain(ArrowKind::Int64), false)]);
    let one_field = nested(
        ArrowKind::Entries(Box::new(ArrowField::new("e", entry, false))),
        "Map",
    );
    assert_result_error_with_message(
        ensure_data_types(&map(long(), string(), true), &one_field, mode),
        "Arrow map type didn't have expected key/value fields",
    );
}

#[test]
fn ensure_list() {
    let list = |nullable| {
        nested(
            ArrowKind::List(list_field(plain(ArrowKind::Int64), nullable)),
            "List(Int64)",
        )
    };
    assert!(ensure_data_types(
        &array(long(), true),
        &list(true),
        ValidationMode::TypesAndNames
    )
    .is_ok());
    assert!(ensure_data_types(
        &array(long(), true),
        &nested(
            ArrowKind::LargeList(list_field(plain(ArrowKind::Int64), true)),
            "LargeList(Int64)"
        ),
        ValidationMode::TypesAndNames
    )
    .is_ok());
    assert_result_error_with_message(
        ensure_data_types(&array(string(), true), &list(true), ValidationMode::TypesAndNames),
        "Invalid argument error: Incorrect datatype. Expected Utf8, got Int64",
    );
    assert_result_error_with_message(
        ensure_data_types(&array(long(), true), &list(false), ValidationMode::Full),
        "Generic delta kernel error: List has nullability true in kernel and false in arrow",
    );
}

#[test]
fn ensure_struct() {
    let inner = struct_type(vec![
        StructField::nullable("w", long()),
        StructField::nullable("x", array(long(), true)),
        StructField::nullable("y", map(long(), string(), true)),
        StructField::nullable(
            "z",
            struct_type(vec![
                StructField::nullable("n", long()),
                StructField::nullable("m", string()),
            ]),
        ),
    ]);
    let schema = struct_type(vec![StructField::nullable("a", array(inner, true))]);
    let int64 = || plain(ArrowKind::Int64);
    let utf8 = || plain(ArrowKind::Utf8);
    let arrow_inner = struct_of(vec![
        ArrowField::new("w", int64(), true),
        ArrowField::new(
            "x",
            nested(ArrowKind::List(list_field(int64(), true)), "List(Int64)"),
            true,
        ),
        ArrowField::new(
            "y",
            map_of(
                ArrowField::new("key", int64(), false),
                ArrowField::new("value", utf8(), true),
            ),
            true,
        ),
        ArrowField::new(
            "z",
            struct_of(vec![
                ArrowField::new("n", int64(), true),
                ArrowField::new("m", utf8(), true),
            ]),
            true,
        ),
    ]);
    let arrow_struct = struct_of(vec![ArrowField::new(
        "a",
        nested(ArrowKind::List(list_field(arrow_inner, true)), "List(Struct)"),
        true,
    )]);
    assert!(ensure_data_types(&schema, &arrow_struct, ValidationMode::Full).is_ok());

    let kernel_simple = struct_type(vec![
        StructField::nullable("w", long()),
        StructField::nullable("x", long()),
    ]);

    let arrow_simple_ok = struct_of(vec![
        ArrowField::new("w", int64(), true),
        ArrowField::new("x", int64(), true),
    ]);
    assert!(ensure_data_types(&kernel_simple, &arrow_simple_ok, ValidationMode::Full).is_ok());

    let arrow_missing_simple = struct_of(vec![ArrowField::new("w", int64(), true)]);
    assert_result_error_with_message(
        ensure_data_types(&kernel_simple, &arrow_missing_simple, ValidationMode::Full),
        "Invalid argument error: Missing Struct fields x (Up to five missing fields shown)",
    );

    let arrow_nullable_mismatch_simple = struct_of(vec![
        ArrowField::new("w", int64(), false),
        ArrowField::new("x", int64(), true),
    ]);
    assert_result_error_with_message(
        ensure_data_types(
            &kernel_simple,
            &arrow_nullable_mismatch_simple,
            ValidationMode::Full,
        ),
        "Generic delta kernel error: w has nullability true in kernel and false in arrow",
    );
    // Where nullability does not matter, the same types fit.
    assert!(ensure_data_types(
        &kernel_simple,
        &arrow_nullable_mismatch_simple,
        ValidationMode::TypesAndNames
    )
    .is_ok());
}

#[test]
fn no_more_than_five_missing_fields_are_named() {
    let names = ["a", "b", "c", "d", "e", "f", "g"];
    let fields = names.iter().map(|name| StructField::nullable(name, long()));
    let kernel = struct_type(fields.collect());
    let arrow = struct_of(vec![ArrowField::new("b", plain(ArrowKind::Int64), true)]);
    assert_result_error_with_message(
        ensure_data_types(&kernel, &arrow, ValidationMode::TypesAndNames),
        "Missing Struct fields a, c, d, e, f (Up to five missing fields shown)",
    );
}

#[test]
fn name_based_matching_pairs_fields_by_name_with_interleaved_extra() {
    let kernel = struct_type(vec![
        StructField::nullable("w", long()),
        StructField::nullable("x", string()),
    ]);
    let arrow = struct_of(vec![
        ArrowField::new("w", plain(ArrowKind::Int64), true),
        ArrowField::new("extra", plain(ArrowKind::Int64), true),
        ArrowField::new("x", plain(ArrowKind::Utf8), true),
    ]);
    assert_eq!(
        ensure_data_types(&kernel, &arrow, ValidationMode::Full).unwrap(),
        DataTypeCompat::Nested
    );
}

#[test]
fn name_based_matching_rejects_wrong_type_behind_interleaved_extra() {
    let kernel = struct_type(vec![
        StructField::nullable("w", long()),
        StructField::nullable("x", long()),
    ]);
    let arrow = struct_of(vec![
        ArrowField::new("w", plain(ArrowKind::Int64), true),
        ArrowField::new("extra", plain(ArrowKind::Int64), true),
        ArrowField::new("x", plain(ArrowKind::Utf8), true),
    ]);
    assert_result_error_with_message(
        ensure_data_types(&kernel, &arrow, ValidationMode::Full),
        "Incorrect datatype",
    );
}

#[test]
fn ensure_views() {
    assert_eq!(
        ensure_data_types(&string(), &plain(ArrowKind::Utf8View), ValidationMode::Full).unwrap(),
        DataTypeCompat::Identical
    );
    assert_eq!(
        ensure_data_types(&binary(), &plain(ArrowKind::BinaryView), ValidationMode::Full).unwrap(),
        DataTypeCompat::Identical
    );
    assert_eq!(
        ensure_data_types(
            &array(long(), true),
            &nested(
                ArrowKind::ListView(list_field(plain(ArrowKind::Int64), true)),
                "ListView(Int64)"
            ),
            ValidationMode::Full
        )
        .unwrap(),
        DataTypeCompat::Identical
    );
    assert_eq!(
        ensure_data_types(
            &array(long(), true),
            &nested(
                ArrowKind::LargeListView(list_field(plain(ArrowKind::Int64), true)),
                "LargeListView(Int64)"
            ),
            ValidationMode::Full
        )
        .unwrap(),
        DataTypeCompat::Identical
    );
}

#[test]
fn ensure_large_strings_and_binary() {
    assert_eq!(
        ensure_data_types(&string(), &plain(ArrowKind::LargeUtf8), ValidationMode::Full).unwrap(),
        DataTypeCompat::Identical
    );
    assert_eq!(
        ensure_data_types(&binary(), &plain(ArrowKind::LargeBinary), ValidationMode::Full).unwrap(),
        DataTypeCompat::Identical
    );
}

#[test]
fn booleans_and_nulls_are_held_as_they_are() {
    for (ty, kind) in [
        (PrimitiveType::Boolean, ArrowKind::Boolean),
        (PrimitiveType::Void, ArrowKind::Null),
    ] {
        assert_eq!(
            ensure_data_types(&primitive(ty), &plain(kind), ValidationMode::Full).unwrap(),
            DataTypeCompat::Identical
        );
    }
    assert_result_error_with_message(
        ensure_data_types(
            &primitive(PrimitiveType::Void),
            &plain(ArrowKind::Boolean),
            ValidationMode::Full,
        ),
        "Incorrect datatype. Expected void, got Boolean",
    );
}

#[test]
fn ensure_int32_to_date_reinterpretation() {
    assert_eq!(
        ensure_data_types(
            &primitive(PrimitiveType::Date),
            &plain(ArrowKind::Int32),
            ValidationMode::TypesAndNames
        )
        .unwrap(),
        DataTypeCompat::NeedsCast(plain(ArrowKind::Date32))
    );
    assert_result_error_with_message(
        ensure_data_types(
            &primitive(PrimitiveType::Integer),
            &plain(ArrowKind::Date32),
            ValidationMode::TypesAndNames,
        ),
        "Incorrect datatype",
    );
}

#[test]
fn ensure_int64_to_timestamp_reinterpretation() {
    let ts_utc = plain(ArrowKind::Timestamp(
        TimeUnit::Microsecond,
        Some("UTC".into()),
    ));
    assert_eq!(
        ensure_data_types(
            &primitive(PrimitiveType::Timestamp),
            &plain(ArrowKind::Int64),
            ValidationMode::TypesAndNames
        )
        .unwrap(),
        DataTypeCompat::NeedsCast(ts_utc)
    );
    let ts_ntz = plain(ArrowKind::Timestamp(TimeUnit::Microsecond, None));
    assert_eq!(
        ensure_data_types(
            &primitive(PrimitiveType::TimestampNtz),
            &plain(ArrowKind::Int64),
            ValidationMode::TypesAndNames
        )
        .unwrap(),
        DataTypeCompat::NeedsCast(ts_ntz)
    );
    assert_result_error_with_message(
        ensure_data_types(
            &long(),
            &plain(ArrowKind::Timestamp(TimeUnit::Microsecond, None)),
            ValidationMode::TypesAndNames,
        ),
        "Incorrect datatype",
    );
}

#[test]
fn interval_maps_to_physical_integer() {
    assert_eq!(
        ensure_data_types(
            &primitive(PrimitiveType::IntervalYearMonth),
            &plain(ArrowKind::Int32),
            ValidationMode::TypesAndNames
        )
        .unwrap(),
        DataTypeCompat::Identical
    );
    assert_eq!(
        ensure_data_types(
            &primitive(PrimitiveType::IntervalDayTime),
            &plain(ArrowKind::Int64),
            ValidationMode::TypesAndNames
        )
        .unwrap(),
        DataTypeCompat::Identical
    );
}

#[test]
fn interval_rejects_incompatible_arrow_types() {
    for interval in [PrimitiveType::IntervalYearMonth, PrimitiveType::IntervalDayTime] {
        for kind in [
            ArrowKind::Utf8,
            ArrowKind::Boolean,
            ArrowKind::Date32,
            ArrowKind::Float64,
        ] {
            assert_result_error_with_message(
                ensure_data_types(
                    &primitive(interval),
                    &plain(kind),
                    ValidationMode::TypesAndNames,
                ),
                "Incorrect datatype",
            );
        }
    }
}

#[test]
fn checkpoint_reinterpretation_rules_match_arrow_cast_rules() {
    for (source_kernel, target_kernel) in [
        (PrimitiveType::Integer, PrimitiveType::Date),
        (PrimitiveType::Long, PrimitiveType::Timestamp),
        (PrimitiveType::Long, PrimitiveType::TimestampNtz),
    ] {
        let source_arrow = arrow_from_primitive(source_kernel);
        let target_arrow = arrow_from_primitive(target_kernel);
        assert!(check_cast_compat(target_arrow, &source_arrow).is_ok());
    }
}

#[test]
fn casts_widen_and_never_narrow() {
    let kinds = || {
        vec![
            ArrowKind::Int8,
            ArrowKind::Int16,
            ArrowKind::Int32,
            ArrowKind::Int64,
        ]
    };
    for (i, source) in kinds().into_iter().enumerate() {
        let source = plain(source);
        for (j, target) in kinds().into_iter().enumerate() {
            let result = check_cast_compat(plain(target), &source);
            match result {
                Ok(DataTypeCompat::Identical) => assert_eq!(i, j),
                Ok(DataTypeCompat::NeedsCast(_)) => assert!(i < j),
                _ => assert!(i > j),
            }
        }
        let to_double = check_cast_compat(plain(ArrowKind::Float64), &source);
        assert_eq!(to_double.is_ok(), i < 3);
    }
    assert!(check_cast_compat(plain(ArrowKind::Float64), &plain(ArrowKind::Float32)).is_ok());
    assert!(check_cast_compat(plain(ArrowKind::Float32), &plain(ArrowKind::Float64)).is_err());
    let seconds = nested(ArrowKind::Timestamp(TimeUnit::Second, None), "Timestamp(s)");
    assert_eq!(
        check_cast_compat(arrow_from_primitive(PrimitiveType::Timestamp), &seconds).unwrap(),
        DataTypeCompat::NeedsCast(arrow_from_primitive(PrimitiveType::Timestamp))
    );
    let days = plain(ArrowKind::Date32);
    assert!(check_cast_compat(arrow_from_primitive(PrimitiveType::TimestampNtz), &days).is_ok());
    assert!(check_cast_compat(arrow_from_primitive(PrimitiveType::Timestamp), &days).is_err());
}

#[test]
fn types_only_matches_struct_by_ordinal_ignoring_names() {
    let kernel = struct_type(vec![
        StructField::nullable("logical_a", long()),
        StructField::nullable("logical_b", string()),
    ]);
    let arrow = struct_of(vec![
        ArrowField::new("physical_x", plain(ArrowKind::Int64), true),
        ArrowField::new("physical_y", plain(ArrowKind::Utf8), true),
    ]);
    assert!(ensure_data_types(&kernel, &arrow, ValidationMode::TypesOnly).is_ok());
}

#[test]
fn types_only_rejects_struct_field_count_mismatch() {
    let kernel = struct_type(vec![
        StructField::nullable("a", long()),
        StructField::nullable("b", long()),
    ]);
    let arrow = struct_of(vec![ArrowField::new("x", plain(ArrowKind::Int64), true)]);
    assert_result_error_with_message(
        ensure_data_types(&kernel, &arrow, ValidationMode::TypesOnly),
        "Struct field count mismatch",
    );
}

#[test]
fn types_only_rejects_struct_type_mismatch_by_ordinal() {
    let kernel = struct_type(vec![
        StructField::nullable("a", long()),
        StructField::nullable("b", long()),
    ]);
    let arrow = struct_of(vec![
        ArrowField::new("x", plain(ArrowKind::Int64), true),
        ArrowField::new("y", plain(ArrowKind::Utf8), true),
    ]);
    assert_result_error_with_message(
        ensure_data_types(&kernel, &arrow, ValidationMode::TypesOnly),
        "Incorrect datatype",
    );
}

fn entry(key: &str, value: MetadataValue) -> MetadataEntry {
    MetadataEntry {
        key: key.to_string(),
        value,
    }
}

fn arrow_entry(key: &str, value: &str) -> ArrowMetadataEntry {
    ArrowMetadataEntry {
        key: key.to_string(),
        value: value.to_string(),
    }
}

#[test]
fn metadata_is_compared_as_text() {
    let kernel = vec![
        entry("id", MetadataValue::Number(7)),
        entry("name", MetadataValue::String("x".to_string())),
        entry("flag", MetadataValue::Boolean(true)),
    ];
    let same = vec![
        arrow_entry("name", "x"),
        arrow_entry("flag", "true"),
        arrow_entry("id", "7"),
    ];
    assert!(metadata_eq(&kernel, &same));
    assert!(!metadata_eq(&kernel, &same[..2]));
    assert!(!metadata_eq(&kernel[..2], &same));
    let other = vec![
        arrow_entry("name", "y"),
        arrow_entry("flag", "true"),
        arrow_entry("id", "7"),
    ];
    assert!(!metadata_eq(&kernel, &other));
    assert!(metadata_eq(&[], &[]));
}

#[test]
fn full_validation_looks_at_metadata() {
    let mut field = StructField::nullable("a", long());
    field.metadata.push(entry("id", MetadataValue::Number(7)));
    let kernel = struct_type(vec![field]);
    let arrow = struct_of(vec![ArrowField::new("a", plain(ArrowKind::Int64), true)]);
    assert_result_error_with_message(
        ensure_data_types(&kernel, &arrow, ValidationMode::Full),
        "Generic delta kernel error: Field a has metadata {\"id\": Number(7)} in kernel and {} in \
         arrow",
    );
    assert!(ensure_data_types(&kernel, &arrow, ValidationMode::TypesAndNames).is_ok());
    let mut arrow_field = ArrowField::new("a", plain(ArrowKind::Int64), true);
    arrow_field.metadata.push(arrow_entry("id", "7"));
    let arrow = struct_of(vec![arrow_field]);
    assert!(ensure_data_types(&kernel, &arrow, ValidationMode::Full).is_ok());
}

#[test]
fn a_metadata_mismatch_lists_every_entry() {
    let mut field = StructField::nullable("a", long());
    field.metadata.push(entry("id", MetadataValue::Number(-7)));
    field.metadata.push(entry("name", MetadataValue::String("x\"y".to_string())));
    field.metadata.push(entry("flag", MetadataValue::Boolean(true)));
    let kernel = struct_type(vec![field]);
    let mut arrow_field = ArrowField::new("a", plain(ArrowKind::Int64), true);
    arrow_field.metadata.push(arrow_entry("id", "-7"));
    arrow_field.metadata.push(arrow_entry("name", "z"));
    let arrow = struct_of(vec![arrow_field]);
    assert_result_error_with_message(
        ensure_data_types(&kernel, &arrow, ValidationMode::Full),
        "Generic delta kernel error: Field a has metadata {\"id\": Number(-7), \"name\": \
         String(\"x\\\"y\"), \"flag\": Boolean(true)} in kernel and {\"id\": \"-7\", \"name\": \
         \"z\"} in arrow",
    );
}

#[test]
fn matching_by_name_looks_at_named_fields_alone() {
    let kernel = || {
        struct_type(vec![
            StructField::nullable("a", long()),
            StructField::nullable("b", string()),
        ])
    };
    let a = || ArrowField::new("a", plain(ArrowKind::Int64), true);
    let b = || ArrowField::new("b", plain(ArrowKind::Utf8), true);
    let wrong_b = || ArrowField::new("b", plain(ArrowKind::Boolean), true);
    let extra = || ArrowField::new("c", plain(ArrowKind::Boolean), false);
    for mode in [ValidationMode::TypesAndNames, ValidationMode::Full] {
        for fitting in [
            vec![a(), b()],
            vec![b(), a()],
            vec![extra(), b(), a()],
            vec![b(), extra(), a()],
        ] {
            assert_eq!(
                ensure_data_types(&kernel(), &struct_of(fitting), mode).unwrap(),
                DataTypeCompat::Nested
            );
        }
        for other in [
            vec![a()],
            vec![extra(), b()],
            vec![a(), extra()],
            vec![wrong_b(), a()],
            vec![a(), extra(), wrong_b()],
        ] {
            assert!(ensure_data_types(&kernel(), &struct_of(other), mode).is_err());
        }
    }
}

#[test]
fn types_alone_leave_names_nullability_and_metadata_out() {
    let kernel = struct_type(vec![
        StructField::nullable("a", long()),
        StructField::nullable("b", array(struct_type(vec![StructField::nullable("c", long())]), true)),
    ]);
    let arrow = |names: [&str; 4], nullable: bool, noted: bool, kind: ArrowKind| {
        let inner = ArrowField::new(names[2], plain(kind), nullable);
        let element = ArrowField::new(names[3], struct_of(vec![inner]), nullable);
        let list = nested(ArrowKind::List(Box::new(element)), "List");
        let mut first = ArrowField::new(names[0], plain(ArrowKind::Int64), nullable);
        if noted {
            first.metadata.push(arrow_entry("id", "7"));
        }
        struct_of(vec![first, ArrowField::new(names[1], list, nullable)])
    };
    for (names, nullable, noted) in [
        (["a", "b", "c", "element"], true, false),
        (["x", "x", "y", "z"], true, false),
        (["b", "a", "c", "element"], false, false),
        (["x", "y", "z", "w"], false, true),
    ] {
        let mode = ValidationMode::TypesOnly;
        let fitting = arrow(names, nullable, noted, ArrowKind::Int64);
        assert!(ensure_data_types(&kernel, &fitting, mode).is_ok());
        let other = arrow(names, nullable, noted, ArrowKind::Boolean);
        assert!(ensure_data_types(&kernel, &other, mode).is_err());
    }
}

#[test]
fn nothing_fits_fields_with_the_same_name() {
    let kernel = struct_type(vec![
        StructField::nullable("a", long()),
        StructField::nullable("a", long()),
    ]);
    let arrow = struct_of(vec![ArrowField::new("a", plain(ArrowKind::Int64), true)]);
    assert!(ensure_data_types(&kernel, &arrow, ValidationMode::TypesAndNames).is_err());
}
