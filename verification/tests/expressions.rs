use delta_kernel::expressions::{
    lit, null_lit, BinaryExpressionOp, BinaryPredicateOp, ColumnName, Expression,
    ExpressionFieldPatch, ExpressionStructPatch, JunctionPredicateOp, OpaqueOp, Predicate, Scalar,
    UnaryExpressionOp, VariadicExpressionOp,
};
use delta_kernel::schema::{DataType, PrimitiveType, StructField, StructType};

fn names(path: &str) -> Vec<String> {
    path.split('.').map(|s| s.to_string()).collect()
}

fn col(path: &str) -> Expression {
    Expression::column(names(path))
}

fn num(value: i32) -> Expression {
    lit(Scalar::Integer(value))
}

fn integer() -> DataType {
    DataType::Primitive(PrimitiveType::Integer)
}

fn opaque(name: &str) -> OpaqueOp {
    OpaqueOp {
        name: name.to_string(),
        text: format!("{name}!"),
    }
}

#[test]
fn test_expression_format() {
    let cases = [
        (col("x"), "Column(x)"),
        (
            (col("x") + num(4)) / num(10) * num(42),
            "Column(x) + 4 / 10 * 42",
        ),
        (
            Expression::struct_from(vec![col("x"), num(2), num(10)]),
            "Struct(Column(x), 2, 10)",
        ),
        (
            Expression::array(vec![col("x"), col("y"), num(0)]),
            "ARRAY(Column(x), Column(y), 0)",
        ),
        (
            Expression::cast(col("x"), DataType::Primitive(PrimitiveType::Date)),
            "CAST(Column(x) AS date)",
        ),
    ];

    for (expr, expected) in cases {
        assert_eq!(expr.to_string(), expected);
    }
}

#[test]
fn test_predicate_format() {
    let cases = [
        (Predicate::column(names("x")), "Column(x)"),
        (col("x").eq(num(2)), "Column(x) = 2"),
        ((col("x") - num(4)).lt(num(10)), "Column(x) - 4 < 10"),
        (
            Predicate::and(col("x").ge(num(2)), col("x").le(num(10))),
            "AND(NOT(Column(x) < 2), NOT(Column(x) > 10))",
        ),
        (
            Predicate::and_from(vec![
                col("x").ge(num(2)),
                col("x").le(num(10)),
                col("x").le(num(100)),
            ]),
            "AND(NOT(Column(x) < 2), NOT(Column(x) > 10), NOT(Column(x) > 100))",
        ),
        (
            Predicate::or(col("x").gt(num(2)), col("x").lt(num(10))),
            "OR(Column(x) > 2, Column(x) < 10)",
        ),
        (
            col("x").eq(lit(Scalar::String("foo".to_string()))),
            "Column(x) = 'foo'",
        ),
    ];

    for (pred, expected) in cases {
        assert_eq!(pred.to_string(), expected);
    }
}

#[test]
fn single_element_and_from_returns_unwrapped_predicate() {
    let inner = Predicate::gt(col("x"), num(0));
    let result = Predicate::and_from(vec![inner.clone()]);
    assert_eq!(result, inner);
}

#[test]
fn single_element_or_from_returns_unwrapped_predicate() {
    let inner = Predicate::gt(col("x"), num(0));
    let result = Predicate::or_from(vec![inner.clone()]);
    assert_eq!(result, inner);
}

#[test]
fn multi_element_and_from_returns_junction() {
    let p1 = Predicate::gt(col("x"), num(0));
    let p2 = Predicate::lt(col("x"), num(100));
    let result = Predicate::and_from(vec![p1.clone(), p2.clone()]);
    assert!(matches!(result, Predicate::Junction(ref j) if j.preds.len() == 2));
    assert_eq!(result, Predicate::and(p1, p2));
}

#[test]
fn empty_and_from_returns_identity_literal() {
    let result = Predicate::and_from(vec![]);
    assert_eq!(result, Predicate::literal(true));
}

#[test]
fn empty_or_from_returns_identity_literal() {
    let result = Predicate::or_from(vec![]);
    assert_eq!(result, Predicate::literal(false));
}

#[test]
fn every_kind_of_expression_has_a_text() {
    let schema = StructType::new(vec![StructField::nullable("a", integer())]);
    for (expr, expected) in [
        (null_lit(integer()), "null"),
        (Expression::unary(UnaryExpressionOp::ToJson, col("a")), "TO_JSON(Column(a))"),
        (Expression::coalesce(vec![col("a"), num(1)]), "COALESCE(Column(a), 1)"),
        (
            Expression::variadic(VariadicExpressionOp::Coalesce, vec![]),
            "COALESCE()",
        ),
        (
            Expression::binary(BinaryExpressionOp::Minus, num(1), num(2)),
            "1 - 2",
        ),
        (Expression::unknown("what"), "<unknown: what>"),
        (Expression::parse_json(col("j"), schema), "PARSE_JSON(Column(j), <schema:1 fields>)"),
        (Expression::map_to_struct(col("m")), "MAP_TO_STRUCT(Column(m))"),
        (Expression::from_pred(col("a").is_null()), "Column(a) IS NULL"),
    ] {
        println!("{}", expr.to_string());
        assert_eq!(expr.to_string(), expected);
    }
}

#[test]
fn every_kind_of_predicate_has_a_text() {
    for (pred, expected) in [
        (Predicate::literal(true), "true"),
        (Predicate::null(), "null"),
        (Predicate::not(Predicate::column(names("a.b"))), "NOT(Column(a.b))"),
        (col("a").is_null(), "Column(a) IS NULL"),
        (col("a").is_not_null(), "NOT(Column(a) IS NULL)"),
        (col("a").distinct(num(1)), "DISTINCT(Column(a), 1)"),
        (
            Predicate::binary(BinaryPredicateOp::In, col("a"), col("b")),
            "Column(a) IN Column(b)",
        ),
        (col("a").ne(num(1)), "NOT(Column(a) = 1)"),
        (Predicate::unknown("what"), "<unknown: what>"),
    ] {
        println!("{}", pred.to_string());
        assert_eq!(pred.to_string(), expected);
    }
}

#[test]
fn wrappers_are_taken_off() {
    let pred = col("a").is_null();
    let expr = Expression::from_pred(pred.clone());
    assert_eq!(Predicate::from_expr(expr), pred);
    let expr = col("a");
    let pred = Predicate::from_expr(expr.clone());
    assert!(matches!(pred, Predicate::BooleanExpression(_)));
    assert_eq!(Expression::from_pred(pred), expr);
}

fn sorted(mut names: Vec<ColumnName>) -> Vec<String> {
    let mut r: Vec<String> = names.drain(..).map(|n| n.to_string()).collect();
    r.sort();
    r
}

#[test]
fn references_are_those_of_the_leaves() {
    let pred = Predicate::and_from(vec![
        col("a.b").eq(col("c")),
        Predicate::or(col("c").is_null(), Predicate::not(Predicate::column(names("d")))),
        Predicate::opaque(opaque("f"), vec![col("e"), num(1)]),
        Predicate::unknown("u"),
    ]);
    assert_eq!(sorted(pred.references()), ["a.b", "c", "d", "e"]);

    let patch = ExpressionStructPatch {
        prepended_fields: vec![col("p")],
        field_patches: vec![ExpressionFieldPatch {
            name: "old".to_string(),
            keep_input: false,
            insertions: vec![col("q"), col("p")],
        }],
        appended_fields: vec![num(1)],
    };
    let expr = Expression::struct_with_nullability_from(
        vec![Expression::struct_patch(patch), col("x") * col("y")],
        Expression::from_pred(col("z").is_not_null()),
    );
    assert_eq!(sorted(expr.references()), ["p", "q", "x", "y", "z"]);
}

#[test]
fn equal_trees_are_equal() {
    let tree = || {
        Predicate::or(
            Expression::opaque(opaque("f"), vec![col("a"), null_lit(integer())]).eq(num(1)),
            Expression::cast(col("b"), integer()).gt(num(2)),
        )
    };
    assert_eq!(tree(), tree());
    assert_eq!(tree().clone(), tree());
    assert_ne!(tree(), Predicate::not(tree()));
    assert_ne!(num(1), num(2));
    assert_ne!(col("a.b"), Expression::column(vec!["a.b".to_string()]));
}

#[test]
fn operators_know_themselves() {
    assert!(BinaryPredicateOp::Equal.is_null_intolerant());
    assert!(!BinaryPredicateOp::Distinct.is_null_intolerant());
    assert_eq!(JunctionPredicateOp::And.invert(), JunctionPredicateOp::Or);
    assert_eq!(JunctionPredicateOp::Or.invert(), JunctionPredicateOp::And);
}
