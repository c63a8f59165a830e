use std::cmp::Ordering;
use std::fmt::Debug;

use bytes::Bytes;
use delta_kernel::error::{DeltaResult, Error};
use delta_kernel::expressions::column_names::ColumnName;
use delta_kernel::expressions::floats::{Float32, Float64};
use delta_kernel::expressions::interval::{parse_day_time_interval, parse_year_month_interval};
use delta_kernel::expressions::order::Order;
use delta_kernel::expressions::scalar_conversion::IntoScalar;
use delta_kernel::expressions::scalar_parse::FloatReading;
use delta_kernel::expressions::scalars::{
    get_decimal_precision, ArrayData, DecimalData, MapData, Scalar, StructData,
};
use delta_kernel::expressions::tree::{lit, BinaryPredicateOp, Expression, Predicate};
use delta_kernel::schema::{
    ArrayType, DataType, DecimalType, MapType, PrimitiveType, StructField,
};

fn single(value: f32) -> Float32 {
    Float32 {
        bits: value.to_bits(),
        text: value.to_string(),
    }
}

fn double(value: f64) -> Float64 {
    Float64 {
        bits: value.to_bits(),
        text: value.to_string(),
    }
}

/// What a text stands for as floating-point numbers.
fn reading(raw: &str) -> FloatReading {
    FloatReading {
        float: raw.parse::<f32>().ok().map(single),
        double: raw.parse::<f64>().ok().map(double),
    }
}

fn parse(ty: PrimitiveType, raw: &str) -> Result<Scalar, Error> {
    ty.parse_scalar(raw, &reading(raw))
}

fn primitive(ty: PrimitiveType) -> DataType {
    DataType::Primitive(ty)
}

fn integer() -> DataType {
    primitive(PrimitiveType::Integer)
}

fn string() -> DataType {
    primitive(PrimitiveType::String)
}

fn array(element: DataType, contains_null: bool) -> DataType {
    DataType::Array(Box::new(ArrayType::new(element, contains_null)))
}

fn map(key: DataType, value: DataType, value_contains_null: bool) -> DataType {
    DataType::Mapping(Box::new(MapType::new(key, value, value_contains_null)))
}

fn col(path: &str) -> Expression {
    Expression::from(ColumnName::new(path.split('.').map(str::to_string).collect()))
}

fn assert_result_error_with_message<T: Debug>(result: DeltaResult<T>, message: &str) {
    let error = result.expect_err("an error").to_string();
    assert!(error.contains(message), "{error} does not contain {message}");
}

#[test]
fn test_try_div_truncates_and_returns_none_for_zero_divisor_and_floats() {
    let cases = [
        (Scalar::Integer(7), Scalar::Integer(2), Some(Scalar::Integer(3))),
        (Scalar::Integer(7), Scalar::Integer(0), None),
        (Scalar::Double(double(7.0)), Scalar::Double(double(2.0)), None),
    ];
    for (left, right, expected) in cases {
        assert_eq!(left.try_div(&right), expected);
    }
}

#[test]
fn arithmetic_stays_within_a_type() {
    let byte = |v| Scalar::Byte(v);
    assert_eq!(byte(100).try_add(&byte(27)), Some(byte(127)));
    assert_eq!(byte(100).try_add(&byte(28)), None);
    assert_eq!(byte(-100).try_sub(&byte(29)), None);
    assert_eq!(byte(-128).try_div(&byte(-1)), None);
    assert_eq!(byte(-7).try_div(&byte(2)), Some(byte(-3)));
    assert_eq!(
        Scalar::Long(i64::MAX).try_mul(&Scalar::Long(-1)),
        Some(Scalar::Long(-i64::MAX))
    );
    assert_eq!(Scalar::Long(i64::MIN).try_mul(&Scalar::Long(-1)), None);
    assert_eq!(Scalar::Short(3).try_sub(&Scalar::Short(5)), Some(Scalar::Short(-2)));
    assert_eq!(Scalar::Integer(1).try_add(&Scalar::Long(1)), None);
    assert_eq!(Scalar::null(integer()).try_add(&Scalar::Integer(1)), None);
}

#[test]
fn test_void_parse_scalar() {
    let scalar = parse(PrimitiveType::Void, "").unwrap();
    assert_eq!(scalar, Scalar::Null(primitive(PrimitiveType::Void)));

    parse(PrimitiveType::Void, "anything").unwrap_err();
}

#[test]
fn test_bad_decimal() {
    let dtype = DecimalType::try_new(3, 0).unwrap();
    DecimalData::try_new(123456789, dtype).expect_err("should have failed");
    PrimitiveType::parse_decimal("0.12345", dtype).expect_err("should have failed");
    PrimitiveType::parse_decimal("12345", dtype).expect_err("should have failed");
}

#[test]
fn test_decimal_display() {
    let s = Scalar::decimal(123456789, 9, 2).unwrap();
    assert_eq!(s.to_string(), "1234567.89");

    let s = Scalar::decimal(123456789, 9, 0).unwrap();
    assert_eq!(s.to_string(), "123456789");

    let s = Scalar::decimal(123456789, 9, 9).unwrap();
    assert_eq!(s.to_string(), "0.123456789");
}

fn assert_decimal(raw: &str, expect_int: i128, expect_prec: u8, expect_scale: u8) -> DeltaResult<()> {
    let s = PrimitiveType::decimal(expect_prec, expect_scale)?;
    match parse(s, raw)? {
        Scalar::Decimal(val) => {
            assert_eq!(val.bits(), expect_int);
            assert_eq!(val.precision(), expect_prec);
            assert_eq!(val.scale(), expect_scale);
            assert_eq!(*val.ty(), DecimalType::try_new(expect_prec, expect_scale)?);
        }
        _ => panic!("Didn't parse as decimal"),
    };
    Ok(())
}

#[test]
fn test_decimal_precision() {
    // Around 0, 1, 2, and 4 digits.
    assert_eq!(get_decimal_precision(0), 0);
    assert_eq!(get_decimal_precision(1), 1);
    assert_eq!(get_decimal_precision(9), 1);
    assert_eq!(get_decimal_precision(10), 2);
    assert_eq!(get_decimal_precision(99), 2);
    assert_eq!(get_decimal_precision(100), 3);
    assert_eq!(get_decimal_precision(999), 3);
    assert_eq!(get_decimal_precision(1000), 4);
    assert_eq!(get_decimal_precision(9999), 4);
    assert_eq!(get_decimal_precision(10000), 5);

    // Around 8 digits.
    assert_eq!(get_decimal_precision(999_9999), 7);
    assert_eq!(get_decimal_precision(1000_0000), 8);
    assert_eq!(get_decimal_precision(9999_9999), 8);
    assert_eq!(get_decimal_precision(1_0000_0000), 9);

    // Around 16 digits.
    assert_eq!(get_decimal_precision(999_9999_9999_9999), 15);
    assert_eq!(get_decimal_precision(1000_0000_0000_0000), 16);
    assert_eq!(get_decimal_precision(9999_9999_9999_9999), 16);
    assert_eq!(get_decimal_precision(1_0000_0000_0000_0000), 17);

    // Around 32 digits.
    assert_eq!(
        get_decimal_precision(999_9999_9999_9999_9999_9999_9999_9999),
        31
    );
    assert_eq!(
        get_decimal_precision(1000_0000_0000_0000_0000_0000_0000_0000),
        32
    );
    assert_eq!(
        get_decimal_precision(9999_9999_9999_9999_9999_9999_9999_9999),
        32
    );
    assert_eq!(
        get_decimal_precision(1_0000_0000_0000_0000_0000_0000_0000_0000),
        33
    );

    // Around 38 digits.
    assert_eq!(
        get_decimal_precision(9_9999_9999_9999_9999_9999_9999_9999_9999_9999),
        37
    );
    assert_eq!(
        get_decimal_precision(10_0000_0000_0000_0000_0000_0000_0000_0000_0000),
        38
    );
    assert_eq!(
        get_decimal_precision(99_9999_9999_9999_9999_9999_9999_9999_9999_9999),
        38
    );
    assert_eq!(
        get_decimal_precision(100_0000_0000_0000_0000_0000_0000_0000_0000_0000),
        39
    );
}

#[test]
fn decimal_precision_does_not_count_the_sign() {
    assert_eq!(get_decimal_precision(-999), 3);
    assert_eq!(get_decimal_precision(i128::MIN), 39);
    assert_eq!(get_decimal_precision(i128::MAX), 39);
}

#[test]
fn test_parse_decimal() {
    let cases = [
        ("0.999", 999, 3, 3),
        ("0", 0, 1, 0),
        ("0.00", 0, 3, 2),
        ("123", 123, 3, 0),
        ("-123", -123, 3, 0),
        ("-123.", -123, 3, 0),
        ("123000", 123000, 6, 0),
        ("12.0", 120, 3, 1),
        ("12.3", 123, 3, 1),
        ("0.00123", 123, 5, 5),
        ("1234.5E-4", 12345, 5, 5),
        ("-0", 0, 1, 0),
        ("12.000000000000000000", 12000000000000000000, 38, 18),
    ];
    for (raw, bits, precision, scale) in cases {
        assert_decimal(raw, bits, precision, scale).unwrap();
    }
}

fn expect_fail_parse(raw: &str, prec: u8, scale: u8) {
    let s = PrimitiveType::decimal(prec, scale).unwrap();
    match parse(s, raw) {
        Err(Error::ParseError(..)) => {}
        other => panic!("expected ParseError for {raw:?}, got {other:?}"),
    }
}

#[test]
fn test_parse_decimal_expect_fail() {
    expect_fail_parse("1.000", 3, 3);
    expect_fail_parse("iowjef", 1, 0);
    expect_fail_parse("123Ef", 1, 0);
    expect_fail_parse("1d2E3", 1, 0);
    expect_fail_parse("a", 1, 0);
    expect_fail_parse("2.a", 1, 1);
    expect_fail_parse("E45", 1, 0);
    expect_fail_parse("1.2.3", 1, 0);
    expect_fail_parse("1.2E1.3", 1, 0);
    expect_fail_parse("123.45", 5, 1);
    expect_fail_parse(".45", 5, 1);
    expect_fail_parse("+", 1, 0);
    expect_fail_parse("-", 1, 0);
    expect_fail_parse("0.-0", 2, 1);
    expect_fail_parse("--1.0", 1, 1);
    expect_fail_parse("+-1.0", 1, 1);
    expect_fail_parse("-+1.0", 1, 1);
    expect_fail_parse("++1.0", 1, 1);
    expect_fail_parse("1.0E1+", 1, 1);
    // A scale beyond what can be counted.
    expect_fail_parse("0.999999999999999999999999999999999999999999999999999999999999999999999999999999999999999999999999999999999999999999999999999999999", 1, 0);
    // An exponent beyond what can be counted.
    expect_fail_parse("0.E170141183460469231731687303715884105727", 1, 0);
}

#[test]
fn test_arrays() {
    let array = || {
        Scalar::Array(
            ArrayData::try_new(
                ArrayType::new(integer(), false),
                vec![Scalar::Integer(1), Scalar::Integer(2), Scalar::Integer(3)],
            )
            .unwrap(),
        )
    };
    let pi = single(std::f32::consts::PI);

    let array_op = Predicate::binary(
        BinaryPredicateOp::In,
        lit(Scalar::from(10)),
        Expression::from(array()),
    );
    let array_not_op = Predicate::not(Predicate::binary(
        BinaryPredicateOp::In,
        lit(Scalar::from(10)),
        Expression::from(array()),
    ));
    let column_op = Predicate::binary(BinaryPredicateOp::In, lit(Scalar::from(pi)), col("item"));
    let column_not_op = Predicate::not(Predicate::binary(
        BinaryPredicateOp::In,
        lit(Scalar::from("Cool")),
        col("item"),
    ));
    assert_eq!(array_op.to_string(), "10 IN (1, 2, 3)");
    assert_eq!(array_not_op.to_string(), "NOT(10 IN (1, 2, 3))");
    assert_eq!(column_op.to_string(), "3.1415927 IN Column(item)");
    assert_eq!(column_not_op.to_string(), "NOT('Cool' IN Column(item))");
}

#[test]
fn test_invalid_array() {
    assert_result_error_with_message(
        ArrayData::try_new(
            ArrayType::new(integer(), false),
            vec![Scalar::Integer(1), Scalar::String("s".to_string())],
        ),
        "Schema error: Array scalar type mismatch: expected integer, got string",
    );

    assert_result_error_with_message(
        ArrayData::try_new(
            ArrayType::new(integer(), false),
            vec![Scalar::Integer(1), Scalar::from(None::<i32>)],
        ),
        "Schema error: Array element cannot be null for non-nullable array",
    );
}

#[test]
fn test_invalid_map() {
    assert_result_error_with_message(
        MapData::try_new(
            MapType::new(string(), integer(), false),
            vec![(Scalar::Integer(1), Scalar::String("s".to_string()))],
        ),
        "Schema error: Map scalar type mismatch: expected key type string, got key type integer",
    );

    assert_result_error_with_message(
        MapData::try_new(
            MapType::new(string(), string(), true),
            vec![(Scalar::Null(string()), Scalar::String("s".to_string()))],
        ),
        "Schema error: Map key cannot be null",
    );

    assert_result_error_with_message(
        MapData::try_new(
            MapType::new(string(), string(), false),
            vec![(Scalar::String("s".to_string()), Scalar::Null(string()))],
        ),
        "Schema error: Null map value disallowed if map value_contains_null is false",
    );
}

#[test]
fn struct_data_fits_its_fields() {
    let field = |nullable| StructField::new("a", integer(), nullable);
    let data = StructData::try_new(vec![field(false)], vec![Scalar::Integer(1)]).unwrap();
    assert_eq!(data.fields().len(), 1);
    assert_eq!(data.values(), [Scalar::Integer(1)]);
    assert_result_error_with_message(
        StructData::try_new(vec![field(false)], vec![]),
        "Invalid struct data",
    );
    assert_result_error_with_message(
        StructData::try_new(vec![field(false)], vec![Scalar::Long(1)]),
        "Invalid struct data",
    );
    assert_result_error_with_message(
        StructData::try_new(vec![field(false)], vec![Scalar::null(integer())]),
        "Invalid struct data",
    );
    assert!(StructData::try_new(vec![field(true)], vec![Scalar::null(integer())]).is_ok());
}

#[test]
fn test_timestamp_space_form_parse() {
    for (raw, micros) in [
        ("2011-01-11 13:06:07", 1294751167000000),
        ("2011-01-11 13:06:07.123456", 1294751167123456),
        ("1970-01-01 00:00:00", 0),
    ] {
        assert_eq!(
            parse(PrimitiveType::Timestamp, raw).unwrap(),
            Scalar::Timestamp(micros)
        );
        assert_eq!(
            parse(PrimitiveType::TimestampNtz, raw).unwrap(),
            Scalar::TimestampNtz(micros)
        );
    }
}

#[test]
fn test_timestamp_iso8601_parse() {
    for (raw, micros) in [
        ("1971-07-22T03:06:40.678910Z", 49000000678910),
        ("1971-07-22T03:06:40Z", 49000000000000),
        ("2024-06-15T14:30:00Z", 1718461800000000),
        ("2024-06-15t14:30:00z", 1718461800000000),
        ("2024-06-15T14:30:00+00:00", 1718461800000000),
        ("2024-06-15T14:30:00-00:00", 1718461800000000),
        ("2024-06-15T14:30:00+05:00", 1718443800000000),
        ("2024-06-15T14:30:00-05:00", 1718479800000000),
        ("2024-06-15T14:30:00+05:30", 1718442000000000),
        ("2024-06-15T14:30:00+0530", 1718442000000000),
        ("2024-06-15T14:30:00.456+05:00", 1718443800456000),
        ("2024-06-15 14:30:00+05:00", 1718443800000000),
        ("1970-01-01T00:00:00+05:00", -18000000000),
    ] {
        let scalar = parse(PrimitiveType::Timestamp, raw).unwrap();
        assert_eq!(scalar, Scalar::Timestamp(micros), "{raw}");
    }
}

#[test]
fn test_timestamp_parse_fails() {
    for (p_type, raw) in [
        (PrimitiveType::TimestampNtz, "1971-07-22T03:06:40.678910Z"),
        (PrimitiveType::TimestampNtz, "1971-07-22T03:06:40Z"),
        (PrimitiveType::TimestampNtz, "2024-06-15T14:30:00+05:00"),
        (PrimitiveType::TimestampNtz, "2024-06-15 14:30:00+05:00"),
        (PrimitiveType::TimestampNtz, "1971-07-22"),
        (PrimitiveType::Timestamp, "1971-07-22"),
        (PrimitiveType::Timestamp, "2024-06-15T14:30:00"),
        (PrimitiveType::Timestamp, "2024-06-15T14:30:00+24:00"),
        (PrimitiveType::Timestamp, "-262143-01-01T00:00:00+05:00"),
    ] {
        assert!(parse(p_type, raw).is_err(), "{raw}");
    }
}

#[test]
fn test_partial_cmp() {
    let a = Scalar::Integer(1);
    let b = Scalar::Integer(2);
    let c = Scalar::Null(integer());

    assert_eq!(a.logical_partial_cmp(&b), Some(Ordering::Less));
    assert_eq!(b.logical_partial_cmp(&a), Some(Ordering::Greater));
    assert_eq!(a.logical_partial_cmp(&a), Some(Ordering::Equal));
    assert_eq!(b.logical_partial_cmp(&b), Some(Ordering::Equal));
    assert_eq!(a.logical_partial_cmp(&c), None);
    assert_eq!(c.logical_partial_cmp(&a), None);

    let null = Scalar::Null(integer());
    assert_eq!(null.logical_partial_cmp(&null), None);
}

#[test]
fn test_partial_eq() {
    let a = Scalar::Integer(1);
    let b = Scalar::Integer(2);
    let c = Scalar::Null(integer());
    assert!(!a.logical_eq(&b));
    assert!(a.logical_eq(&a));
    assert!(!a.logical_eq(&c));
    assert!(!c.logical_eq(&a));

    let null = Scalar::Null(integer());
    assert!(!null.logical_eq(&null));
}

#[test]
fn scalars_of_each_type_are_ordered() {
    let pairs = [
        (Scalar::Long(-1), Scalar::Long(1)),
        (Scalar::Short(-1), Scalar::Short(1)),
        (Scalar::Byte(-1), Scalar::Byte(1)),
        (Scalar::Float(single(-1.5)), Scalar::Float(single(0.25))),
        (Scalar::Double(double(-2.0)), Scalar::Double(double(-1.0))),
        (Scalar::from("a"), Scalar::from("b")),
        (Scalar::from("é"), Scalar::from("\u{1F600}")),
        (Scalar::Boolean(false), Scalar::Boolean(true)),
        (Scalar::Timestamp(1), Scalar::Timestamp(2)),
        (Scalar::TimestampNtz(1), Scalar::TimestampNtz(2)),
        (Scalar::Date(-5), Scalar::Date(5)),
        (Scalar::Binary(vec![1]), Scalar::Binary(vec![1, 0])),
        (
            Scalar::decimal(149, 5, 2).unwrap(),
            Scalar::decimal(150, 5, 2).unwrap(),
        ),
    ];
    for (low, high) in pairs {
        assert_eq!(low.logical_order(&high), Some(Order::Less));
        assert_eq!(high.logical_order(&low), Some(Order::Greater));
        assert_eq!(low.logical_order(&low), Some(Order::Equal));
        assert!(!low.logical_eq(&high));
        assert!(low.logical_eq(&low));
    }
    let nan = Scalar::Double(double(f64::NAN));
    assert_eq!(nan.logical_order(&nan), None);
    assert_eq!(
        Scalar::Double(double(0.0)).logical_order(&Scalar::Double(double(-0.0))),
        Some(Order::Equal)
    );
    assert_eq!(Scalar::Integer(1).logical_order(&Scalar::Long(1)), None);
}

#[test]
fn physical_equality_knows_nulls() {
    let null = || Scalar::null(integer());
    assert!(null().physical_eq(&null()));
    assert!(!null().physical_eq(&Scalar::null(string())));
    assert!(!null().physical_eq(&Scalar::Integer(0)));
    assert_eq!(null(), null());
}

fn assert_into_scalar_matches_to_data_type<T: IntoScalar>(value: T) {
    let scalar: Scalar = value.into_scalar();
    assert!(!scalar.is_null());
    assert_eq!(scalar.data_type(), T::to_data_type());
}

#[test]
fn into_scalar_matches_to_data_type() {
    assert_into_scalar_matches_to_data_type(true);
    assert_into_scalar_matches_to_data_type(1i8);
    assert_into_scalar_matches_to_data_type(1i16);
    assert_into_scalar_matches_to_data_type(1i32);
    assert_into_scalar_matches_to_data_type(1i64);
    assert_into_scalar_matches_to_data_type(single(1.0f32));
    assert_into_scalar_matches_to_data_type(double(1.0f64));
    assert_into_scalar_matches_to_data_type("x".to_string());
    assert_into_scalar_matches_to_data_type(Bytes::from_static(b"x"));

    assert_into_scalar_matches_to_data_type(vec![1i8, 2, 3]);
    assert_into_scalar_matches_to_data_type(vec![1, 2, 3]);
    assert_into_scalar_matches_to_data_type(vec![Some(1i32), None]);

    let entries = MapData::from_entries(vec![
        ("key1".to_string(), 42i32),
        ("key2".to_string(), 100i32),
    ]);
    assert_eq!(
        Scalar::from(entries).data_type(),
        map(string(), integer(), false)
    );
    let entries = MapData::from_entries(vec![
        ("key1".to_string(), Some(42i32)),
        ("key2".to_string(), None),
    ]);
    assert_eq!(
        Scalar::from(entries).data_type(),
        map(string(), integer(), true)
    );
}

#[test]
fn test_hashmap_conversion() {
    let entries = vec![("key1".to_string(), 42i32), ("key2".to_string(), 100i32)];
    let scalar = Scalar::from(MapData::from_entries(entries));

    assert!(matches!(scalar, Scalar::Mapping(_)));
    assert_eq!(scalar.data_type(), map(string(), integer(), false));

    let Scalar::Mapping(map_data) = scalar else {
        panic!("Expected Map scalar");
    };
    let pairs = map_data.pairs();
    assert_eq!(pairs.len(), 2);
    assert!(!map_data.map_type().value_contains_null());

    let entry1 = (Scalar::String("key1".to_string()), Scalar::Integer(42));
    let entry2 = (Scalar::String("key2".to_string()), Scalar::Integer(100));
    assert!(pairs.contains(&entry1), "Missing key1 -> 42 pair");
    assert!(pairs.contains(&entry2), "Missing key2 -> 100 pair");
}

#[test]
fn test_hashmap_conversion_with_nullable_values() {
    let entries = vec![
        ("key1".to_string(), Some(42i32)),
        ("key2".to_string(), None),
        ("key3".to_string(), Some(100i32)),
    ];
    let scalar = Scalar::from(MapData::from_entries(entries));

    assert!(matches!(scalar, Scalar::Mapping(_)));
    assert_eq!(scalar.data_type(), map(string(), integer(), true));

    let Scalar::Mapping(map_data) = scalar else {
        panic!("Expected Map scalar");
    };
    let pairs = map_data.pairs();
    assert_eq!(pairs.len(), 3);
    assert!(map_data.map_type().value_contains_null());

    let entry1 = (Scalar::String("key1".to_string()), Scalar::Integer(42));
    let entry2 = (Scalar::String("key2".to_string()), Scalar::Null(integer()));
    let entry3 = (Scalar::String("key3".to_string()), Scalar::Integer(100));
    assert!(pairs.contains(&entry1), "Missing key1 -> 42 pair");
    assert!(pairs.contains(&entry2), "Missing key2 -> null pair");
    assert!(pairs.contains(&entry3), "Missing key3 -> 100 pair");
}

#[test]
fn test_vec_conversion() {
    let vec = vec![42i32, 100i32, 200i32];
    let scalar = Scalar::from(vec);

    assert!(matches!(scalar, Scalar::Array(_)));
    assert_eq!(scalar.data_type(), array(integer(), false));

    let Scalar::Array(array_data) = scalar else {
        panic!("Expected Array scalar");
    };
    let elements = array_data.array_elements();
    assert_eq!(elements.len(), 3);
    assert!(!array_data.array_type().contains_null());

    assert_eq!(elements[0], Scalar::Integer(42));
    assert_eq!(elements[1], Scalar::Integer(100));
    assert_eq!(elements[2], Scalar::Integer(200));
}

#[test]
fn test_vec_conversion_with_nullable_values() {
    let vec = vec![Some(42i32), None, Some(100i32)];
    let scalar = Scalar::from(vec);

    assert!(matches!(scalar, Scalar::Array(_)));
    assert_eq!(scalar.data_type(), array(integer(), true));

    let Scalar::Array(array_data) = scalar else {
        panic!("Expected Array scalar");
    };

    let elements = array_data.array_elements();
    assert_eq!(elements.len(), 3);
    assert!(array_data.array_type().contains_null());

    assert_eq!(elements[0], Scalar::Integer(42));
    assert!(elements[1].is_null());
    assert_eq!(elements[2], Scalar::Integer(100));
}

#[test]
fn test_vec_conversion_different_types() {
    let string_vec = vec!["hello".to_string(), "world".to_string()];
    let string_scalar = Scalar::from(string_vec);

    if let Scalar::Array(array_data) = string_scalar {
        let expected_array_type = ArrayType::new(string(), false);
        assert_eq!(array_data.array_type(), &expected_array_type);
    } else {
        panic!("Expected Array scalar");
    }

    let bool_vec = vec![true, false, true];
    let bool_scalar = Scalar::from(bool_vec);

    if let Scalar::Array(array_data) = bool_scalar {
        let expected_array_type = ArrayType::new(primitive(PrimitiveType::Boolean), false);
        assert_eq!(array_data.array_type(), &expected_array_type);
    } else {
        panic!("Expected Array scalar");
    }
}

#[test]
fn test_bytes_conversion() {
    let bytes = Bytes::from(vec![1, 2, 3, 4, 5]);
    let scalar: Scalar = bytes.into();

    assert!(matches!(scalar, Scalar::Binary(_)));
    assert_eq!(scalar.data_type(), primitive(PrimitiveType::Binary));

    if let Scalar::Binary(data) = scalar {
        assert_eq!(data, vec![1, 2, 3, 4, 5]);
    } else {
        panic!("Expected Binary scalar");
    }

    let owned = vec![9u8, 8, 7];
    let from_vec: Scalar = owned.into();
    assert_eq!(from_vec, Scalar::Binary(vec![9, 8, 7]));
    let from_slice: Scalar = [9u8, 8, 7].as_slice().into();
    assert_eq!(from_slice, Scalar::Binary(vec![9, 8, 7]));

    let empty_bytes = Bytes::new();
    let empty_scalar: Scalar = empty_bytes.into();

    assert!(matches!(empty_scalar, Scalar::Binary(_)));
    if let Scalar::Binary(data) = empty_scalar {
        assert!(data.is_empty());
    } else {
        panic!("Expected Binary scalar");
    }
}

const INTERVAL_YM_LITERAL: &str = "INTERVAL '1-0' YEAR TO MONTH";
const INTERVAL_YM_LITERAL_LARGER: &str = "INTERVAL '2-0' YEAR TO MONTH";
const INTERVAL_DT_LITERAL: &str = "INTERVAL '0 01:00:00.000000' DAY TO SECOND";
const INTERVAL_DT_LITERAL_LARGER: &str = "INTERVAL '0 02:00:00.000000' DAY TO SECOND";

#[test]
fn interval_parse_and_data_type() {
    let ym = parse(PrimitiveType::IntervalYearMonth, INTERVAL_YM_LITERAL).unwrap();
    assert_eq!(ym.data_type(), primitive(PrimitiveType::IntervalYearMonth));

    let dt = parse(PrimitiveType::IntervalDayTime, INTERVAL_DT_LITERAL).unwrap();
    assert_eq!(dt.data_type(), primitive(PrimitiveType::IntervalDayTime));
}

#[test]
fn interval_logical_partial_cmp() {
    let ym = parse(PrimitiveType::IntervalYearMonth, INTERVAL_YM_LITERAL).unwrap();
    let ym_larger = parse(PrimitiveType::IntervalYearMonth, INTERVAL_YM_LITERAL_LARGER).unwrap();
    assert_eq!(ym.logical_partial_cmp(&ym_larger), Some(Ordering::Less));
    assert_eq!(ym_larger.logical_partial_cmp(&ym), Some(Ordering::Greater));
    assert_eq!(ym.logical_partial_cmp(&ym), Some(Ordering::Equal));

    let dt = parse(PrimitiveType::IntervalDayTime, INTERVAL_DT_LITERAL).unwrap();
    let dt_larger = parse(PrimitiveType::IntervalDayTime, INTERVAL_DT_LITERAL_LARGER).unwrap();
    assert_eq!(dt.logical_partial_cmp(&dt_larger), Some(Ordering::Less));

    assert_eq!(ym.logical_partial_cmp(&dt), None);
    assert_eq!(ym.logical_partial_cmp(&Scalar::Integer(0)), None);
}

#[test]
fn interval_logical_eq() {
    let ym = parse(PrimitiveType::IntervalYearMonth, INTERVAL_YM_LITERAL).unwrap();
    let ym_same = parse(PrimitiveType::IntervalYearMonth, INTERVAL_YM_LITERAL).unwrap();
    assert!(ym.logical_eq(&ym_same));
    assert!(!ym.logical_eq(&Scalar::null(primitive(PrimitiveType::IntervalYearMonth))));
}

#[test]
fn test_year_month_interval_literal_parse() {
    let cases = [
        ("INTERVAL '1-0' YEAR TO MONTH", 12),
        ("INTERVAL '2-6' YEAR TO MONTH", 30),
        ("INTERVAL '0-0' YEAR TO MONTH", 0),
        ("INTERVAL '0-11' YEAR TO MONTH", 11),
        ("INTERVAL '-1-6' YEAR TO MONTH", -18),
    ];
    for (literal, months) in cases {
        assert_eq!(
            parse(PrimitiveType::IntervalYearMonth, literal).unwrap(),
            Scalar::IntervalYearMonth(months),
            "parsing {literal}"
        );
    }
}

#[test]
fn test_day_time_interval_literal_parse() {
    let cases = [
        ("INTERVAL '0 00:00:00.000000' DAY TO SECOND", 0_i64),
        ("INTERVAL '1 12:30:45.000000' DAY TO SECOND", 131_445_000_000),
        ("INTERVAL '0 00:00:00.000005' DAY TO SECOND", 5),
        ("INTERVAL '-1 00:00:00.000000' DAY TO SECOND", -86_400_000_000),
    ];
    for (literal, micros) in cases {
        assert_eq!(
            parse(PrimitiveType::IntervalDayTime, literal).unwrap(),
            Scalar::IntervalDayTime(micros),
            "parsing {literal}"
        );
    }
    assert_eq!(
        parse(
            PrimitiveType::IntervalDayTime,
            "INTERVAL '0 00:00:00.5' DAY TO SECOND"
        )
        .unwrap(),
        Scalar::IntervalDayTime(500_000)
    );
}

#[test]
fn test_interval_literal_parse_rejects_malformed() {
    for bad in [
        "1-0",
        "INTERVAL '1-0' DAY TO SECOND",
        "INTERVAL 'x-0' YEAR TO MONTH",
        "INTERVAL '1' YEAR TO MONTH",
        "INTERVAL '1-12' YEAR TO MONTH",
        "INTERVAL '+5' YEAR",
        "INTERVAL '1-+5' YEAR TO MONTH",
        "INTERVAL '1 12:30' DAY TO SECOND",
        "INTERVAL '0.+5' SECOND",
        "INTERVAL '0 00:00:00.123456xyz' DAY TO SECOND",
        "INTERVAL '5.' SECOND",
        "INTERVAL '0.123456.789' SECOND",
    ] {
        assert!(
            parse(PrimitiveType::IntervalYearMonth, bad).is_err()
                && parse(PrimitiveType::IntervalDayTime, bad).is_err(),
            "expected {bad} to fail parsing as both interval families"
        );
    }
}

#[test]
fn test_day_time_interval_rejects_out_of_range_subordinate() {
    for bad in [
        "INTERVAL '1 24' DAY TO HOUR",
        "INTERVAL '1 00:60' DAY TO MINUTE",
        "INTERVAL '1 00:00:60' DAY TO SECOND",
        "INTERVAL '00:60' HOUR TO MINUTE",
        "INTERVAL '00:00:60' HOUR TO SECOND",
        "INTERVAL '00:60' MINUTE TO SECOND",
        "INTERVAL '1 02:03:04:05' DAY TO SECOND",
    ] {
        assert!(parse(PrimitiveType::IntervalDayTime, bad).is_err(), "{bad}");
    }
}

#[test]
fn test_narrowed_interval_literal_parse() {
    let cases = [
        ("INTERVAL '1' YEAR", Scalar::IntervalYearMonth(12)),
        ("INTERVAL '-6' MONTH", Scalar::IntervalYearMonth(-6)),
        ("INTERVAL '2-6' YEAR TO MONTH", Scalar::IntervalYearMonth(30)),
        ("INTERVAL '1' DAY", Scalar::IntervalDayTime(86_400_000_000)),
        ("INTERVAL '25' HOUR", Scalar::IntervalDayTime(90_000_000_000)),
        ("INTERVAL '90' MINUTE", Scalar::IntervalDayTime(5_400_000_000)),
        ("INTERVAL '1.5' SECOND", Scalar::IntervalDayTime(1_500_000)),
        ("INTERVAL '1 02' DAY TO HOUR", Scalar::IntervalDayTime(93_600_000_000)),
        ("INTERVAL '1 02:03' DAY TO MINUTE", Scalar::IntervalDayTime(93_780_000_000)),
        ("INTERVAL '1 02:03:04.5' DAY TO SECOND", Scalar::IntervalDayTime(93_784_500_000)),
        ("INTERVAL '25:30' HOUR TO MINUTE", Scalar::IntervalDayTime(91_800_000_000)),
        ("INTERVAL '25:30:45.25' HOUR TO SECOND", Scalar::IntervalDayTime(91_845_250_000)),
        ("INTERVAL '90:45.25' MINUTE TO SECOND", Scalar::IntervalDayTime(5_445_250_000)),
    ];
    for (literal, expected) in cases {
        let DataType::Primitive(ty) = expected.data_type() else {
            panic!("Expected a primitive type");
        };
        assert_eq!(parse(ty, literal).unwrap(), expected);
    }
}

#[test]
fn test_interval_literal_overflow_rejected() {
    assert_eq!(
        parse_year_month_interval("INTERVAL '178956970-8' YEAR TO MONTH"),
        None
    );
    assert_eq!(
        parse_year_month_interval("INTERVAL '-178956970-9' YEAR TO MONTH"),
        None
    );
    assert_eq!(
        parse_day_time_interval("INTERVAL '9223372036854.775808' SECOND"),
        None
    );
    assert_eq!(
        parse_day_time_interval("INTERVAL '-9223372036854.775809' SECOND"),
        None
    );
}

#[test]
fn test_interval_literal_case_whitespace_and_fraction_truncation() {
    assert_eq!(
        parse_year_month_interval("  interval   '1-0'   year   to   month  "),
        Some(12)
    );
    assert_eq!(
        parse_day_time_interval("INTERVAL '0.1234567' SECOND"),
        Some(123_456)
    );
}

#[test]
fn intervals_reach_their_limits() {
    assert_eq!(
        parse_year_month_interval("INTERVAL '178956970-7' YEAR TO MONTH"),
        Some(i32::MAX)
    );
    assert_eq!(
        parse_year_month_interval("INTERVAL '-178956970-8' YEAR TO MONTH"),
        Some(i32::MIN)
    );
    assert_eq!(
        parse_day_time_interval("INTERVAL '9223372036854.775807' SECOND"),
        Some(i64::MAX)
    );
    assert_eq!(
        parse_day_time_interval("INTERVAL '-9223372036854.775808' SECOND"),
        Some(i64::MIN)
    );
}

fn assert_round_trip<T>(value: T, expected_type: DataType)
where
    T: Clone + Debug + PartialEq + Into<Scalar> + TryFrom<Scalar, Error = Error>,
{
    let scalar: Scalar = value.clone().into();
    assert_eq!(scalar.data_type(), expected_type);
    assert_eq!(T::try_from(scalar).unwrap(), value);
}

#[test]
fn scalar_conversions_round_trip() {
    assert_round_trip(1i8, primitive(PrimitiveType::Byte));
    assert_round_trip(2i16, primitive(PrimitiveType::Short));
    assert_round_trip(3i32, integer());
    assert_round_trip(4i64, primitive(PrimitiveType::Long));
    assert_round_trip(
        single(std::f32::consts::PI),
        primitive(PrimitiveType::Float),
    );
    assert_round_trip(double(6.0f64), primitive(PrimitiveType::Double));
    assert_round_trip(true, primitive(PrimitiveType::Boolean));
    assert_round_trip("seven".to_string(), string());
    assert_round_trip(Bytes::from_static(b"eight"), primitive(PrimitiveType::Binary));
    let decimal_type = DecimalType::try_new(2, 1).unwrap();
    assert_round_trip(
        DecimalData::try_new(9, decimal_type).unwrap(),
        primitive(PrimitiveType::Decimal(decimal_type)),
    );
    assert_round_trip(vec![10i32, 11], array(integer(), false));
    assert_round_trip(vec![Some(12i32), None], array(integer(), true));
    let entries = vec![("k".to_string(), "v".to_string())];
    let scalar = Scalar::from(MapData::from_entries(entries.clone()));
    assert_eq!(scalar.data_type(), map(string(), string(), false));
    assert_eq!(
        MapData::entries_from_scalar::<String, String>(scalar).unwrap(),
        entries
    );
    let entries = vec![("k".to_string(), None as Option<String>)];
    let scalar = Scalar::from(MapData::from_entries(entries.clone()));
    assert_eq!(scalar.data_type(), map(string(), string(), true));
    assert_eq!(
        MapData::entries_from_scalar::<String, Option<String>>(scalar).unwrap(),
        entries
    );
    assert_round_trip(Some(13i32), integer());
    assert_round_trip(None::<i32>, integer());
}

#[test]
fn i32_conversion_rejects_other_variants() {
    for (scalar, expected) in [
        (Scalar::Long(1), "expected i32, found long"),
        (Scalar::Date(1), "expected i32, found date"),
        (
            Scalar::IntervalYearMonth(1),
            "expected i32, found interval_year_month",
        ),
        (Scalar::from("1"), "expected i32, found string"),
        (Scalar::null(integer()), "expected i32, found null"),
    ] {
        assert_result_error_with_message(i32::try_from(scalar), expected);
    }
}

#[test]
fn i64_conversion_rejects_other_variants() {
    for (scalar, expected) in [
        (Scalar::Timestamp(1), "expected i64, found timestamp"),
        (Scalar::TimestampNtz(1), "expected i64, found timestamp_ntz"),
        (
            Scalar::IntervalDayTime(1),
            "expected i64, found interval_day_time",
        ),
        (Scalar::Integer(1), "expected i64, found integer"),
    ] {
        assert_result_error_with_message(i64::try_from(scalar), expected);
    }
}

#[test]
fn null_option_requires_matching_element_data_type() {
    assert_eq!(
        Option::<i32>::try_from(Scalar::null(integer())).unwrap(),
        None
    );
    assert_result_error_with_message(
        Option::<i32>::try_from(Scalar::null(string())),
        "expected integer, found string",
    );
}

#[test]
fn array_with_nulls_requires_optional_element_type() {
    let scalar = Scalar::from(vec![Some(1i32), None]);
    assert_result_error_with_message(
        Vec::<i32>::try_from(scalar),
        "expected array<integer, contains_null=false>, found array<integer, contains_null=true>",
    );
}

#[test]
fn texts_are_parsed_by_type() {
    for (ty, raw, expected) in [
        (PrimitiveType::String, "x y", Scalar::from("x y")),
        (PrimitiveType::Long, "-9223372036854775808", Scalar::Long(i64::MIN)),
        (PrimitiveType::Integer, "+42", Scalar::Integer(42)),
        (PrimitiveType::Short, "32767", Scalar::Short(i16::MAX)),
        (PrimitiveType::Byte, "-128", Scalar::Byte(i8::MIN)),
        (PrimitiveType::Float, "1.5", Scalar::Float(single(1.5))),
        (PrimitiveType::Double, "-2.5e3", Scalar::Double(double(-2.5e3))),
        (PrimitiveType::Boolean, "true", Scalar::Boolean(true)),
        (PrimitiveType::Boolean, "FALSE", Scalar::Boolean(false)),
        (PrimitiveType::Date, "1970-01-11", Scalar::Date(10)),
        (PrimitiveType::Date, "1969-12-31", Scalar::Date(-1)),
        (PrimitiveType::Binary, "ab", Scalar::Binary(b"ab".to_vec())),
    ] {
        assert_eq!(parse(ty, raw).unwrap(), expected, "{raw}");
    }
    for (ty, raw) in [
        (PrimitiveType::Long, "9223372036854775808"),
        (PrimitiveType::Integer, "4.2"),
        (PrimitiveType::Short, "32768"),
        (PrimitiveType::Byte, "128"),
        (PrimitiveType::Float, "one"),
        (PrimitiveType::Double, "one"),
        (PrimitiveType::Boolean, "yes"),
        (PrimitiveType::Date, "1970-02-30"),
    ] {
        let error = parse(ty, raw).unwrap_err();
        assert_eq!(
            error.to_string(),
            format!("Failed to parse value '{raw}' as '{}'", ty.name())
        );
    }
    // The empty text is null.
    assert_eq!(
        parse(PrimitiveType::Long, "").unwrap(),
        Scalar::null(primitive(PrimitiveType::Long))
    );
}

#[test]
fn milliseconds_become_timestamps() {
    assert_eq!(
        Scalar::timestamp_from_millis(1_500).unwrap(),
        Scalar::Timestamp(1_500_000)
    );
    assert_eq!(
        Scalar::timestamp_from_millis(-1).unwrap(),
        Scalar::Timestamp(-1_000)
    );
    assert!(Scalar::timestamp_from_millis(i64::MAX).is_err());
}

#[test]
fn empty_partition_values_are_cast() {
    assert_eq!(
        PrimitiveType::String.empty_string_partition_cast(),
        Some(Scalar::from(""))
    );
    assert_eq!(
        PrimitiveType::Binary.empty_string_partition_cast(),
        Some(Scalar::Binary(vec![]))
    );
    assert_eq!(PrimitiveType::Long.empty_string_partition_cast(), None);
}

#[test]
fn scalars_are_written_by_type() {
    for (scalar, expected) in [
        (Scalar::Integer(-5), "-5"),
        (Scalar::from("it"), "'it'"),
        (Scalar::Boolean(true), "true"),
        (Scalar::null(integer()), "null"),
        (Scalar::decimal(5, 4, 3).unwrap(), "0.005"),
        (Scalar::Float(single(0.1)), "0.1"),
    ] {
        assert_eq!(scalar.to_string(), expected);
    }
}

#[test]
fn decimals_know_their_limits() {
    assert_eq!(
        DecimalData::try_new(1000, DecimalType::try_new(3, 0).unwrap())
            .unwrap_err()
            .to_string(),
        "Invalid decimal: Decimal value 1000 exceeds precision 3"
    );
    assert!(DecimalType::try_new(0, 0).is_err());
    assert!(DecimalType::try_new(39, 0).is_err());
    assert!(DecimalType::try_new(5, 6).is_err());
    assert!(Scalar::decimal(1000, 3, 0).is_err());
}
