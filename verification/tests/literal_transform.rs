use delta_kernel::error::Error;
use delta_kernel::expressions::literal_expression_transform::{
    literal_expression_transform, Error as TransformError,
};
use delta_kernel::expressions::{lit, null_lit, ArrayData, Expression, MapData, Scalar};
use delta_kernel::schema::{ArrayType, DataType, MapType, PrimitiveType, StructField, StructType};

fn integer() -> DataType {
    DataType::Primitive(PrimitiveType::Integer)
}

fn string() -> DataType {
    DataType::Primitive(PrimitiveType::String)
}

fn number(value: i32) -> Scalar {
    Scalar::Integer(value)
}

fn schema(fields: Vec<StructField>) -> StructType {
    StructType::new(fields)
}

fn struct_type(fields: Vec<StructField>) -> DataType {
    DataType::Struct(Box::new(StructType::new(fields)))
}

fn assert_single_row_transform(
    values: &[Scalar],
    schema: StructType,
    expected: Result<Expression, ()>,
) {
    let transformed = literal_expression_transform(&schema, values);
    match expected {
        Ok(expected_expr) => assert_eq!(expected_expr, transformed.unwrap()),
        Err(()) => assert!(transformed.is_err()),
    }
}

#[test]
fn test_create_one_top_level_null() {
    let values = &[Scalar::Null(integer())];

    let fields = vec![StructField::not_null("col_1", integer())];
    let expected = null_lit(struct_type(fields.clone()));
    assert_single_row_transform(values, schema(fields), Ok(expected));

    let fields = vec![StructField::nullable("col_1", integer())];
    let expected = Expression::struct_from(vec![null_lit(integer())]);
    assert_single_row_transform(values, schema(fields), Ok(expected));
}

fn two_columns() -> StructType {
    schema(vec![
        StructField::nullable("col_1", integer()),
        StructField::nullable("col_2", integer()),
    ])
}

#[test]
fn test_create_one_missing_values() {
    assert_single_row_transform(&[number(1)], two_columns(), Err(()));
    assert!(matches!(
        literal_expression_transform(&two_columns(), &[number(1)]),
        Err(Error::LiteralExpressionTransformError(TransformError::InsufficientScalars))
    ));
}

#[test]
fn test_create_one_extra_values() {
    let values = &[number(1), number(2), number(3)];
    assert_single_row_transform(values, two_columns(), Err(()));
    let error = literal_expression_transform(&two_columns(), values).unwrap_err();
    let Error::LiteralExpressionTransformError(TransformError::ExcessScalars(extra)) = error else {
        panic!("expected ExcessScalars, got {error:?}");
    };
    assert_eq!(extra, number(3));
}

#[test]
fn test_create_one_incorrect_schema() {
    let values = &[Scalar::String("a".to_string())];
    let fields = vec![StructField::nullable("col_1", integer())];
    assert_single_row_transform(values, schema(fields.clone()), Err(()));
    assert!(matches!(
        literal_expression_transform(&schema(fields), values),
        Err(Error::LiteralExpressionTransformError(TransformError::Schema(_)))
    ));
}

// Each struct takes the values of its own leaves.
#[test]
fn test_many_structs() {
    let values = &[number(1), number(2), number(3), number(4)];
    let schema = schema(vec![
        StructField::nullable(
            "x",
            struct_type(vec![
                StructField::not_null("a", integer()),
                StructField::nullable("b", integer()),
            ]),
        ),
        StructField::nullable(
            "y",
            struct_type(vec![
                StructField::not_null("c", integer()),
                StructField::nullable("d", integer()),
            ]),
        ),
    ]);
    let expected = Expression::struct_from(vec![
        Expression::struct_from(vec![lit(number(1)), lit(number(2))]),
        Expression::struct_from(vec![lit(number(3)), lit(number(4))]),
    ]);
    assert_single_row_transform(values, schema, Ok(expected));
}

#[test]
fn test_map_and_array() {
    let map_type = MapType::new(string(), string(), false);
    let text = |s: &str| Scalar::String(s.to_string());
    let map_data = MapData::try_new(map_type.clone(), vec![(text("k1"), text("v1"))]).unwrap();
    let array_type = ArrayType::new(integer(), false);
    let array_data = ArrayData::try_new(array_type.clone(), vec![number(1), number(2)]).unwrap();
    let values = &[Scalar::Mapping(map_data), Scalar::Array(array_data)];
    let schema = schema(vec![
        StructField::nullable("map", DataType::Mapping(Box::new(map_type))),
        StructField::nullable("array", DataType::Array(Box::new(array_type))),
    ]);
    let expected =
        Expression::struct_from(vec![lit(values[0].clone()), lit(values[1].clone())]);
    assert_single_row_transform(values, schema, Ok(expected));
}

enum Expected {
    Noop,
    NullStruct,
    Null,
    Error,
}

/// Of a struct `x` with the fields `a` and `b`: which of the three may be null, the values, and
/// what comes of them.
fn run_test(
    (x_nullable, a_nullable, b_nullable): (bool, bool, bool),
    (a_val, b_val): (Option<i32>, Option<i32>),
    expected: Expected,
) {
    let value = |v: Option<i32>| match v {
        Some(v) => Scalar::Integer(v),
        None => Scalar::Null(integer()),
    };
    let values = &[value(a_val), value(b_val)];
    let inner = struct_type(vec![
        StructField::new("a", integer(), a_nullable),
        StructField::new("b", integer(), b_nullable),
    ]);
    let fields = vec![StructField::new("x", inner.clone(), x_nullable)];

    let expected_result = match expected {
        Expected::Noop => {
            let nested_struct =
                Expression::struct_from(vec![lit(values[0].clone()), lit(values[1].clone())]);
            Ok(Expression::struct_from(vec![nested_struct]))
        }
        Expected::Null => Ok(null_lit(struct_type(fields.clone()))),
        Expected::NullStruct => Ok(Expression::struct_from(vec![null_lit(inner)])),
        Expected::Error => Err(()),
    };

    assert_single_row_transform(values, schema(fields), expected_result);
}

const A: Option<i32> = Some(1);
const B: Option<i32> = Some(2);
const N: Option<i32> = None;

#[test]
fn test_all_nullable() {
    let schema = (true, true, true);
    run_test(schema, (A, B), Expected::Noop);
    run_test(schema, (N, B), Expected::Noop);
    run_test(schema, (A, N), Expected::Noop);
    run_test(schema, (N, N), Expected::Noop);
}

#[test]
fn test_nullable_nullable_not_null() {
    let schema = (true, true, false);
    run_test(schema, (A, B), Expected::Noop);
    run_test(schema, (N, B), Expected::Noop);
    run_test(schema, (A, N), Expected::Error);
    run_test(schema, (N, N), Expected::NullStruct);
}

#[test]
fn test_nullable_not_null_not_null() {
    let schema = (true, false, false);
    run_test(schema, (A, B), Expected::Noop);
    run_test(schema, (N, B), Expected::Error);
    run_test(schema, (A, N), Expected::Error);
    run_test(schema, (N, N), Expected::NullStruct);
}

#[test]
fn test_not_null_nullable_nullable() {
    let schema = (false, true, true);
    run_test(schema, (A, B), Expected::Noop);
    run_test(schema, (N, B), Expected::Noop);
    run_test(schema, (A, N), Expected::Noop);
    run_test(schema, (N, N), Expected::Noop);
}

#[test]
fn test_not_null_nullable_not_null() {
    let schema = (false, true, false);
    run_test(schema, (A, B), Expected::Noop);
    run_test(schema, (N, B), Expected::Noop);
    run_test(schema, (A, N), Expected::Error);
    run_test(schema, (N, N), Expected::Null);
}

#[test]
fn test_all_not_null() {
    let schema = (false, false, false);
    run_test(schema, (A, B), Expected::Noop);
    run_test(schema, (N, B), Expected::Error);
    run_test(schema, (A, N), Expected::Error);
    run_test(schema, (N, N), Expected::Null);
}

#[test]
fn a_row_of_nullable_fields_holds_its_values() {
    let fields = vec![
        StructField::nullable("a", integer()),
        StructField::nullable("s", string()),
    ];
    let values = &[Scalar::Null(integer()), Scalar::String("x".to_string())];
    let row = literal_expression_transform(&schema(fields), values).unwrap();
    let Expression::Struct(exprs, None) = row else {
        panic!("expected a struct");
    };
    assert_eq!(
        exprs,
        [null_lit(integer()), lit(Scalar::String("x".to_string()))]
    );
}
