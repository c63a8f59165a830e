//! What expressions and predicates refer to, when they are the same, and how they and their values
//! are written.

use vstd::prelude::*;

use super::column_names::{doubled, is_simple, path_text, written, ColumnName};
use super::floats::{Float32, Float64};
use super::literal_expression_transform::{
    fields_literal, has_misplaced_null, is_null_literal, row_literal, type_literal, Problem,
};
use super::scalar_conversion::{
    first_rejected, map_rejection, map_type_of, pair_rejection, IntoScalar, ScalarConvert,
};
use super::scalar_parse::{scalar_value, FloatReading};
use super::scalar_text::{bytes_text, elements_text, pairs_text, scalar_text, values_text};
use super::scalars::{physically_equal, Scalar, ScalarView};
use super::sql::lexeme_laws::{is_word, law_plain_word_is_one_identifier, same_but_case};
use super::sql::token::{law_quoted_name_is_one_identifier, tokens_from, TokenView};
use super::tree::{
    preds_view, BinaryExpressionOp, BinaryPredicateOp, ExprView, Expression, JunctionPredicateOp,
    OpView, PatchView, PredView, Predicate, UnaryExpressionOp, UnaryPredicateOp,
    VariadicExpressionOp,
};
use super::tree_text::{expr_text, exprs_text, pred_text, preds_text};
use super::tree_walk::{
    expr_refers, exprs_refer, lists, lists_once, patch_refers, pred_refers, preds_refer, same_expr,
    same_exprs, same_pred, same_preds,
};
use crate::schema::{FieldView, PrimitiveType, TypeView};
use crate::text::decimal;

verus! {

// ---------------------------------------------------------------------------------------------
// References
// ---------------------------------------------------------------------------------------------

/// A column refers to itself and to no other; values and unknown expressions refer to nothing.
pub proof fn law_column_refers_to_itself(
    path: Seq<Seq<char>>,
    column: Seq<Seq<char>>,
    value: ScalarView,
    name: Seq<char>,
)
    ensures
        expr_refers(ExprView::Column(path), column) <==> path == column,
        !expr_refers(ExprView::Literal(value), column),
        !expr_refers(ExprView::Unknown(name), column),
        !pred_refers(PredView::Unknown(name), column),
{
}

/// An expression refers to what its parts refer to, and to nothing else.
pub proof fn law_expression_refers_to_what_its_parts_do(
    column: Seq<Seq<char>>,
    a: ExprView,
    b: ExprView,
    pred: PredView,
    exprs: Seq<ExprView>,
    unary: UnaryExpressionOp,
    binary: BinaryExpressionOp,
    variadic: VariadicExpressionOp,
    op: OpView,
    ty: TypeView,
    fields: Seq<FieldView>,
)
    ensures
        expr_refers(ExprView::Predicate(Box::new(pred)), column) <==> pred_refers(pred, column),
        expr_refers(ExprView::Unary(unary, Box::new(a)), column) <==> expr_refers(a, column),
        expr_refers(ExprView::Binary(binary, Box::new(a), Box::new(b)), column) <==> expr_refers(
            a,
            column,
        ) || expr_refers(b, column),
        expr_refers(ExprView::Variadic(variadic, exprs), column) <==> exists|i: int|
            0 <= i < exprs.len() && expr_refers(#[trigger] exprs[i], column),
        expr_refers(ExprView::Opaque(op, exprs), column) <==> exists|i: int|
            0 <= i < exprs.len() && expr_refers(#[trigger] exprs[i], column),
        expr_refers(ExprView::Struct(exprs, None), column) <==> exists|i: int|
            0 <= i < exprs.len() && expr_refers(#[trigger] exprs[i], column),
        expr_refers(ExprView::Struct(exprs, Some(Box::new(a))), column) <==> expr_refers(a, column)
            || exists|i: int| 0 <= i < exprs.len() && expr_refers(#[trigger] exprs[i], column),
        expr_refers(ExprView::ParseJson(Box::new(a), fields), column) <==> expr_refers(a, column),
        expr_refers(ExprView::MapToStruct(Box::new(a)), column) <==> expr_refers(a, column),
        expr_refers(ExprView::Cast(Box::new(a), ty), column) <==> expr_refers(a, column),
{
    assert(exprs_refer(exprs, column) <==> exists|i: int|
        0 <= i < exprs.len() && expr_refers(#[trigger] exprs[i], column));
}

/// A predicate refers to what its parts refer to, and to nothing else.
pub proof fn law_predicate_refers_to_what_its_parts_do(
    column: Seq<Seq<char>>,
    a: ExprView,
    b: ExprView,
    pred: PredView,
    preds: Seq<PredView>,
    exprs: Seq<ExprView>,
    unary: UnaryPredicateOp,
    binary: BinaryPredicateOp,
    junction: JunctionPredicateOp,
    op: OpView,
)
    ensures
        pred_refers(PredView::BooleanExpression(Box::new(a)), column) <==> expr_refers(a, column),
        pred_refers(PredView::Not(Box::new(pred)), column) <==> pred_refers(pred, column),
        pred_refers(PredView::Unary(unary, Box::new(a)), column) <==> expr_refers(a, column),
        pred_refers(PredView::Binary(binary, Box::new(a), Box::new(b)), column) <==> expr_refers(
            a,
            column,
        ) || expr_refers(b, column),
        pred_refers(PredView::Junction(junction, preds), column) <==> exists|i: int|
            0 <= i < preds.len() && pred_refers(#[trigger] preds[i], column),
        pred_refers(PredView::Opaque(op, exprs), column) <==> exists|i: int|
            0 <= i < exprs.len() && expr_refers(#[trigger] exprs[i], column),
{
    assert(preds_refer(preds, column) <==> exists|i: int|
        0 <= i < preds.len() && pred_refers(#[trigger] preds[i], column));
    assert(exprs_refer(exprs, column) <==> exists|i: int|
        0 <= i < exprs.len() && expr_refers(#[trigger] exprs[i], column));
}

/// Changes to the fields of a struct refer to what is inserted before, after or among the fields
/// refers to.
pub proof fn law_patch_refers_to_what_it_inserts(
    patch: PatchView,
    column: Seq<Seq<char>>,
    i: int,
    j: int,
)
    ensures
        0 <= i < patch.prepended.len() && expr_refers(patch.prepended[i], column) ==> patch_refers(
            patch,
            column,
        ),
        0 <= i < patch.appended.len() && expr_refers(patch.appended[i], column) ==> patch_refers(
            patch,
            column,
        ),
        0 <= i < patch.patches.len() && 0 <= j < patch.patches[i].insertions.len() && expr_refers(
            patch.patches[i].insertions[j],
            column,
        ) ==> patch_refers(patch, column),
        patch_refers(patch, column) <==> expr_refers(ExprView::StructPatch(patch), column),
{
    if 0 <= i < patch.prepended.len() && expr_refers(patch.prepended[i], column) {
        assert(exprs_refer(patch.prepended, column));
    }
    if 0 <= i < patch.appended.len() && expr_refers(patch.appended[i], column) {
        assert(exprs_refer(patch.appended, column));
    }
    if 0 <= i < patch.patches.len() && 0 <= j < patch.patches[i].insertions.len() && expr_refers(
        patch.patches[i].insertions[j],
        column,
    ) {
        assert(exprs_refer(patch.patches[i].insertions, column));
        assert(super::tree_walk::field_patch_refers(patch.patches[i], column));
    }
}

/// In a list that has no column twice, any two columns differ.
pub proof fn law_columns_listed_once_differ(columns: Seq<ColumnName>, i: int, j: int)
    requires
        lists_once(columns),
        0 <= i < columns.len(),
        0 <= j < columns.len(),
        i != j,
    ensures
        columns[i]@ != columns[j]@,
        lists(columns, columns[i]@),
{
}

// ---------------------------------------------------------------------------------------------
// Equality
// ---------------------------------------------------------------------------------------------

/// Columns are the same where their paths are, values where they are physically equal, and two
/// expressions made in the same way where their parts are the same.
pub proof fn law_expressions_are_the_same_by_their_parts(
    x: Seq<Seq<char>>,
    y: Seq<Seq<char>>,
    value: ScalarView,
    other: ScalarView,
    op: BinaryExpressionOp,
    another: BinaryExpressionOp,
    a: ExprView,
    b: ExprView,
    c: ExprView,
    d: ExprView,
    p: PredView,
    q: PredView,
    ty: TypeView,
    target: TypeView,
)
    ensures
        same_expr(ExprView::Column(x), ExprView::Column(y)) <==> x == y,
        same_expr(ExprView::Literal(value), ExprView::Literal(other)) <==> physically_equal(
            value,
            other,
        ),
        same_expr(
            ExprView::Binary(op, Box::new(a), Box::new(b)),
            ExprView::Binary(another, Box::new(c), Box::new(d)),
        ) <==> op == another && same_expr(a, c) && same_expr(b, d),
        same_expr(ExprView::Predicate(Box::new(p)), ExprView::Predicate(Box::new(q)))
            <==> same_pred(p, q),
        same_expr(ExprView::Cast(Box::new(a), ty), ExprView::Cast(Box::new(c), target)) <==> ty
            == target && same_expr(a, c),
        same_expr(ExprView::MapToStruct(Box::new(a)), ExprView::MapToStruct(Box::new(c)))
            <==> same_expr(a, c),
        !same_expr(ExprView::Column(x), ExprView::Literal(value)),
        !same_expr(ExprView::Literal(value), ExprView::Column(x)),
        !same_expr(ExprView::Column(x), ExprView::Cast(Box::new(a), ty)),
{
}

/// Predicates are the same where they are made in the same way of the same parts, in the same order.
pub proof fn law_predicates_are_the_same_by_their_parts(
    op: BinaryPredicateOp,
    another: BinaryPredicateOp,
    junction: JunctionPredicateOp,
    other: JunctionPredicateOp,
    a: ExprView,
    b: ExprView,
    c: ExprView,
    d: ExprView,
    p: PredView,
    q: PredView,
    x: Seq<PredView>,
    y: Seq<PredView>,
)
    ensures
        same_pred(
            PredView::Binary(op, Box::new(a), Box::new(b)),
            PredView::Binary(another, Box::new(c), Box::new(d)),
        ) <==> op == another && same_expr(a, c) && same_expr(b, d),
        same_pred(PredView::Not(Box::new(p)), PredView::Not(Box::new(q))) <==> same_pred(p, q),
        same_pred(PredView::Junction(junction, x), PredView::Junction(other, y)) <==> junction
            == other && x.len() == y.len() && forall|i: int|
            0 <= i < x.len() ==> same_pred(#[trigger] x[i], y[i]),
        !same_pred(PredView::Not(Box::new(p)), PredView::Junction(junction, x)),
{
    if same_preds(x, y) {
        assert forall|i: int| 0 <= i < x.len() implies same_pred(#[trigger] x[i], y[i]) by {
            let _ = y[i];
        }
    }
}

/// Expressions of any number of others are the same where their operators are and the others are, in
/// the same order; unknown ones where their names are.
pub proof fn law_lists_of_expressions_are_the_same_in_order(
    op: VariadicExpressionOp,
    another: VariadicExpressionOp,
    opaque: OpView,
    other: OpView,
    x: Seq<ExprView>,
    y: Seq<ExprView>,
    a: ExprView,
    b: ExprView,
    name: Seq<char>,
    named: Seq<char>,
)
    ensures
        same_exprs(x, y) <==> x.len() == y.len() && forall|i: int|
            0 <= i < x.len() ==> same_expr(#[trigger] x[i], y[i]),
        same_expr(ExprView::Variadic(op, x), ExprView::Variadic(another, y)) <==> op == another
            && same_exprs(x, y),
        same_expr(ExprView::Opaque(opaque, x), ExprView::Opaque(other, y)) <==> opaque == other
            && same_exprs(x, y),
        same_pred(PredView::Opaque(opaque, x), PredView::Opaque(other, y)) <==> opaque == other
            && same_exprs(x, y),
        same_expr(ExprView::Struct(x, None), ExprView::Struct(y, None)) <==> same_exprs(x, y),
        same_expr(
            ExprView::Struct(x, Some(Box::new(a))),
            ExprView::Struct(y, Some(Box::new(b))),
        ) <==> same_exprs(x, y) && same_expr(a, b),
        !same_expr(ExprView::Struct(x, Some(Box::new(a))), ExprView::Struct(y, None)),
        same_expr(ExprView::Unknown(name), ExprView::Unknown(named)) <==> name == named,
        same_pred(PredView::Unknown(name), PredView::Unknown(named)) <==> name == named,
        same_pred(
            PredView::BooleanExpression(Box::new(a)),
            PredView::BooleanExpression(Box::new(b)),
        ) <==> same_expr(a, b),
        same_pred(
            PredView::Unary(UnaryPredicateOp::IsNull, Box::new(a)),
            PredView::Unary(UnaryPredicateOp::IsNull, Box::new(b)),
        ) <==> same_expr(a, b),
        same_expr(
            ExprView::Unary(UnaryExpressionOp::ToJson, Box::new(a)),
            ExprView::Unary(UnaryExpressionOp::ToJson, Box::new(b)),
        ) <==> same_expr(a, b),
{
    reveal_with_fuel(same_expr, 2);
    if same_exprs(x, y) {
        assert forall|i: int| 0 <= i < x.len() implies same_expr(#[trigger] x[i], y[i]) by {
            let _ = y[i];
        }
    }
}

// ---------------------------------------------------------------------------------------------
// Constructors
// ---------------------------------------------------------------------------------------------

/// A junction of no predicates is what it is for any other predicate to make no difference to it: true
/// for and, false for or. Negating turns one into the other, and back.
pub proof fn law_junctions_and_their_negations(op: JunctionPredicateOp)
    ensures
        JunctionPredicateOp::And.identity(),
        !JunctionPredicateOp::Or.identity(),
        JunctionPredicateOp::And.inverted() == JunctionPredicateOp::Or,
        JunctionPredicateOp::Or.inverted() == JunctionPredicateOp::And,
        op.inverted().inverted() == op,
        op.identity() != op.inverted().identity(),
{
}

/// A junction of one predicate is that predicate, and of several it is one that holds them in order.
pub proof fn law_junction_holds_its_predicates(
    op: JunctionPredicateOp,
    preds: Seq<Predicate>,
    r: Predicate,
)
    requires
        Predicate::is_junction(op, preds, r),
    ensures
        preds.len() == 0 ==> r@ == PredView::BooleanExpression(
            Box::new(ExprView::Literal(ScalarView::Boolean(op is And))),
        ),
        preds.len() == 1 ==> r == preds[0],
        preds.len() > 1 ==> (r@ matches PredView::Junction(found, parts) && found == op
            && parts.len() == preds.len() && forall|i: int|
            0 <= i < preds.len() ==> #[trigger] parts[i] == preds[i]@),
{
    lemma_constant(op.identity());
    if preds.len() > 1 {
        let junction = r->Junction_0;
        assert(r@ == PredView::Junction(op, preds_view(junction.preds@)));
        assert(junction.preds@ == preds);
    }
}

proof fn lemma_constant(value: bool)
    ensures
        Predicate::constant(value)@ == PredView::BooleanExpression(
            Box::new(ExprView::Literal(ScalarView::Boolean(value))),
        ),
{
    let literal = Expression::Literal(Scalar::Boolean(value));
    assert(Scalar::Boolean(value)@ == ScalarView::Boolean(value));
    assert(literal@ == ExprView::Literal(ScalarView::Boolean(value)));
    assert(Predicate::BooleanExpression(literal)@ == PredView::BooleanExpression(
        Box::new(literal@),
    ));
}

/// Comparisons are null where an operand is, but for distinctness and membership.
pub proof fn law_which_comparisons_keep_nulls()
    ensures
        BinaryPredicateOp::LessThan.null_intolerant(),
        BinaryPredicateOp::GreaterThan.null_intolerant(),
        BinaryPredicateOp::Equal.null_intolerant(),
        !BinaryPredicateOp::Distinct.null_intolerant(),
        !BinaryPredicateOp::In.null_intolerant(),
{
}

/// What constructors make holds the operator and the operands that they are given, in order.
pub proof fn law_constructors_keep_their_operands(
    arithmetic: BinaryExpressionOp,
    comparison: BinaryPredicateOp,
    left: Expression,
    right: Expression,
    value: bool,
)
    ensures
        Expression::arithmetic(arithmetic, left, right)@ == ExprView::Binary(
            arithmetic,
            Box::new(left@),
            Box::new(right@),
        ),
        Predicate::comparison(comparison, left, right)@ == PredView::Binary(
            comparison,
            Box::new(left@),
            Box::new(right@),
        ),
        Predicate::null_test(left)@ == PredView::Unary(UnaryPredicateOp::IsNull, Box::new(left@)),
        Predicate::constant(value)@ == PredView::BooleanExpression(
            Box::new(ExprView::Literal(ScalarView::Boolean(value))),
        ),
{
    lemma_constant(value);
}

// ---------------------------------------------------------------------------------------------
// Texts
// ---------------------------------------------------------------------------------------------

/// A comparison is written with its operator between its operands, and arithmetic likewise;
/// distinctness is written before them.
pub proof fn law_operators_are_written_between_operands(a: ExprView, b: ExprView)
    ensures
        pred_text(PredView::Binary(BinaryPredicateOp::LessThan, Box::new(a), Box::new(b)))
            == expr_text(a) + seq![' ', '<', ' '] + expr_text(b),
        pred_text(PredView::Binary(BinaryPredicateOp::GreaterThan, Box::new(a), Box::new(b)))
            == expr_text(a) + seq![' ', '>', ' '] + expr_text(b),
        pred_text(PredView::Binary(BinaryPredicateOp::Equal, Box::new(a), Box::new(b)))
            == expr_text(a) + seq![' ', '=', ' '] + expr_text(b),
        pred_text(PredView::Binary(BinaryPredicateOp::Distinct, Box::new(a), Box::new(b)))
            == "DISTINCT("@ + expr_text(a) + ", "@ + expr_text(b) + ")"@,
        expr_text(ExprView::Binary(BinaryExpressionOp::Plus, Box::new(a), Box::new(b)))
            == expr_text(a) + seq![' ', '+', ' '] + expr_text(b),
        expr_text(ExprView::Binary(BinaryExpressionOp::Minus, Box::new(a), Box::new(b)))
            == expr_text(a) + seq![' ', '-', ' '] + expr_text(b),
        expr_text(ExprView::Binary(BinaryExpressionOp::Multiply, Box::new(a), Box::new(b)))
            == expr_text(a) + seq![' ', '*', ' '] + expr_text(b),
        expr_text(ExprView::Binary(BinaryExpressionOp::Divide, Box::new(a), Box::new(b)))
            == expr_text(a) + seq![' ', '/', ' '] + expr_text(b),
{
    reveal_strlit(" ");
    reveal_strlit("<");
    reveal_strlit(">");
    reveal_strlit("=");
    reveal_strlit("+");
    reveal_strlit("-");
    reveal_strlit("*");
    reveal_strlit("/");
    let x = expr_text(a);
    let y = expr_text(b);
    assert(x + " "@ + "<"@ + " "@ + y =~= x + seq![' ', '<', ' '] + y);
    assert(x + " "@ + ">"@ + " "@ + y =~= x + seq![' ', '>', ' '] + y);
    assert(x + " "@ + "="@ + " "@ + y =~= x + seq![' ', '=', ' '] + y);
    assert(x + " "@ + "+"@ + " "@ + y =~= x + seq![' ', '+', ' '] + y);
    assert(x + " "@ + "-"@ + " "@ + y =~= x + seq![' ', '-', ' '] + y);
    assert(x + " "@ + "*"@ + " "@ + y =~= x + seq![' ', '*', ' '] + y);
    assert(x + " "@ + "/"@ + " "@ + y =~= x + seq![' ', '/', ' '] + y);
}

/// Lists of expressions and of predicates are written one after the other, with a comma and a blank
/// before each but the first.
pub proof fn law_lists_are_written_with_commas(
    exprs: Seq<ExprView>,
    preds: Seq<PredView>,
    n: nat,
)
    ensures
        exprs.len() == 1 ==> exprs_text(exprs, 1) == expr_text(exprs[0]),
        1 < n <= exprs.len() ==> exprs_text(exprs, n) == exprs_text(exprs, (n - 1) as nat) + seq![
            ',',
            ' ',
        ] + expr_text(exprs[n - 1]),
        preds.len() == 1 ==> preds_text(preds, 1) == pred_text(preds[0]),
        1 < n <= preds.len() ==> preds_text(preds, n) == preds_text(preds, (n - 1) as nat) + seq![
            ',',
            ' ',
        ] + pred_text(preds[n - 1]),
        pred_text(PredView::Junction(JunctionPredicateOp::And, preds)) == "AND"@ + "("@
            + preds_text(preds, preds.len()) + ")"@,
        pred_text(PredView::Junction(JunctionPredicateOp::Or, preds)) == "OR"@ + "("@ + preds_text(
            preds,
            preds.len(),
        ) + ")"@,
{
    reveal_strlit(", ");
    assert(", "@ =~= seq![',', ' ']);
    if exprs.len() == 1 {
        assert(Seq::<char>::empty() + expr_text(exprs[0]) =~= expr_text(exprs[0]));
    }
    if preds.len() == 1 {
        assert(Seq::<char>::empty() + pred_text(preds[0]) =~= pred_text(preds[0]));
    }
}

/// How the other expressions and predicates are written: columns by their paths, and what is made of
/// other expressions by those.
pub proof fn law_other_expressions_as_text(
    path: Seq<Seq<char>>,
    a: ExprView,
    pred: PredView,
    exprs: Seq<ExprView>,
    name: Seq<char>,
    ty: TypeView,
    op: OpView,
)
    ensures
        expr_text(ExprView::Column(path)) == "Column("@ + path_text(path, path.len()) + ")"@,
        expr_text(ExprView::Predicate(Box::new(pred))) == pred_text(pred),
        expr_text(ExprView::Struct(exprs, None)) == "Struct("@ + exprs_text(exprs, exprs.len())
            + ")"@,
        expr_text(ExprView::Unary(UnaryExpressionOp::ToJson, Box::new(a))) == "TO_JSON"@ + "("@
            + expr_text(a) + ")"@,
        expr_text(ExprView::Variadic(VariadicExpressionOp::Coalesce, exprs)) == "COALESCE"@ + "("@
            + exprs_text(exprs, exprs.len()) + ")"@,
        expr_text(ExprView::Variadic(VariadicExpressionOp::Array, exprs)) == "ARRAY"@ + "("@
            + exprs_text(exprs, exprs.len()) + ")"@,
        expr_text(ExprView::Opaque(op, exprs)) == op.text + "("@ + exprs_text(exprs, exprs.len())
            + ")"@,
        expr_text(ExprView::Unknown(name)) == "<unknown: "@ + name + ">"@,
        expr_text(ExprView::MapToStruct(Box::new(a))) == "MAP_TO_STRUCT("@ + expr_text(a) + ")"@,
        expr_text(ExprView::Cast(Box::new(a), ty)) == "CAST("@ + expr_text(a) + " AS "@ + ty.text()
            + ")"@,
        pred_text(PredView::BooleanExpression(Box::new(a))) == expr_text(a),
        pred_text(PredView::Not(Box::new(pred))) == "NOT("@ + pred_text(pred) + ")"@,
        pred_text(PredView::Unary(UnaryPredicateOp::IsNull, Box::new(a))) == expr_text(a)
            + " IS NULL"@,
        pred_text(PredView::Unknown(name)) == "<unknown: "@ + name + ">"@,
{
}

/// A whole number is written in decimal and stands for the same scalar when it is read as its type;
/// so does a boolean.
pub proof fn law_written_scalar_is_read_back(n: i64, flag: bool, floats: FloatReading)
    ensures
        scalar_value(PrimitiveType::Long, scalar_text(ScalarView::Long(n)), floats) == Some(
            ScalarView::Long(n),
        ),
        i32::MIN <= n <= i32::MAX ==> scalar_value(
            PrimitiveType::Integer,
            scalar_text(ScalarView::Integer(n as i32)),
            floats,
        ) == Some(ScalarView::Integer(n as i32)),
        i16::MIN <= n <= i16::MAX ==> scalar_value(
            PrimitiveType::Short,
            scalar_text(ScalarView::Short(n as i16)),
            floats,
        ) == Some(ScalarView::Short(n as i16)),
        i8::MIN <= n <= i8::MAX ==> scalar_value(
            PrimitiveType::Byte,
            scalar_text(ScalarView::Byte(n as i8)),
            floats,
        ) == Some(ScalarView::Byte(n as i8)),
        scalar_value(PrimitiveType::Boolean, scalar_text(ScalarView::Boolean(flag)), floats)
            == Some(ScalarView::Boolean(flag)),
{
    super::scalar_laws::law_integer_scalar_is_read_back(n, floats);
    reveal_strlit("true");
    reveal_strlit("false");
    super::parse_laws::law_booleans_are_true_and_false("true"@, floats);
    super::parse_laws::law_booleans_are_true_and_false("false"@, floats);
    assert(same_but_case("true"@, "true"@));
    assert(same_but_case("false"@, "false"@));
}

/// Days, times and intervals are written as their numbers, text in quotes, and null as such.
pub proof fn law_other_scalars_as_text(
    days: i32,
    micros: i64,
    text: Seq<char>,
    ty: TypeView,
    bytes: Seq<u8>,
)
    ensures
        scalar_text(ScalarView::Date(days)) == decimal(days as int),
        scalar_text(ScalarView::IntervalYearMonth(days)) == decimal(days as int),
        scalar_text(ScalarView::Timestamp(micros)) == decimal(micros as int),
        scalar_text(ScalarView::TimestampNtz(micros)) == decimal(micros as int),
        scalar_text(ScalarView::IntervalDayTime(micros)) == decimal(micros as int),
        scalar_text(ScalarView::String(text)) == seq!['\''] + text + seq!['\''],
        scalar_text(ScalarView::Null(ty)) == seq!['n', 'u', 'l', 'l'],
        scalar_text(ScalarView::Binary(bytes)) == seq!['['] + bytes_text(bytes, bytes.len()) + seq![
            ']',
        ],
{
    reveal_strlit("'");
    reveal_strlit("null");
    reveal_strlit("[");
    reveal_strlit("]");
    assert("'"@ =~= seq!['\'']);
    assert("null"@ =~= seq!['n', 'u', 'l', 'l']);
    assert("["@ =~= seq!['[']);
    assert("]"@ =~= seq![']']);
}

/// The elements of a list, the bytes of binary data, the values of a struct and the pairs of a map
/// are written one after the other, with a comma and a blank before each but the first.
pub proof fn law_parts_are_written_with_commas(
    elements: Seq<ScalarView>,
    bytes: Seq<u8>,
    fields: Seq<FieldView>,
    pairs: Seq<(ScalarView, ScalarView)>,
    n: nat,
)
    requires
        n > 1,
    ensures
        n <= elements.len() ==> elements_text(elements, n) == elements_text(
            elements,
            (n - 1) as nat,
        ) + seq![',', ' '] + scalar_text(elements[n - 1]),
        n <= bytes.len() ==> bytes_text(bytes, n) == bytes_text(bytes, (n - 1) as nat) + seq![
            ',',
            ' ',
        ] + decimal(bytes[n - 1] as int),
        n <= elements.len() && n <= fields.len() ==> values_text(fields, elements, n)
            == values_text(fields, elements, (n - 1) as nat) + seq![',', ' '] + fields[n - 1].name
            + seq![':', ' '] + scalar_text(elements[n - 1]),
        n <= pairs.len() ==> pairs_text(pairs, n) == pairs_text(pairs, (n - 1) as nat) + seq![
            ',',
            ' ',
        ] + scalar_text(pairs[n - 1].0) + seq![':', ' '] + scalar_text(pairs[n - 1].1),
{
    reveal_strlit(", ");
    reveal_strlit(": ");
    assert(", "@ =~= seq![',', ' ']);
    assert(": "@ =~= seq![':', ' ']);
}

// ---------------------------------------------------------------------------------------------
// Names
// ---------------------------------------------------------------------------------------------

/// A name as it is written is read as one identifier with that name, unless it is a word with a
/// meaning of its own that needs no quotes.
pub proof fn law_written_name_is_one_identifier(name: Seq<char>)
    requires
        is_word(name) ==> !same_but_case(name, "and"@) && !same_but_case(name, "or"@)
            && !same_but_case(name, "not"@) && !same_but_case(name, "is"@) && !same_but_case(
            name,
            "null"@,
        ) && !same_but_case(name, "true"@) && !same_but_case(name, "false"@),
    ensures
        tokens_from(written(name), 0) == Ok::<Seq<TokenView>, Seq<char>>(
            seq![TokenView::Ident(name)],
        ),
{
    if is_simple(name) {
        assert forall|i: int| 0 <= i < name.len() implies super::sql::lexeme_laws::is_word_char(
            #[trigger] name[i],
        ) by {
            assert(super::column_names::is_plain(name[i]));
        }
        law_plain_word_is_one_identifier(name);
    } else {
        reveal_strlit("`");
        assert("`"@ =~= seq!['`']);
        law_quoted_name_is_one_identifier(name);
        assert(written(name) =~= seq!['`'] + doubled(name, name.len()) + seq!['`']);
    }
}

/// A name stands without quotes exactly where it is a word.
pub proof fn law_words_need_no_quotes(name: Seq<char>)
    ensures
        is_word(name) ==> written(name) == name,
        !is_word(name) ==> written(name) == seq!['`'] + doubled(name, name.len()) + seq!['`'],
{
    reveal_strlit("`");
    assert("`"@ =~= seq!['`']);
    if is_word(name) {
        assert forall|i: int| 0 <= i < name.len() implies super::column_names::is_plain(
            #[trigger] name[i],
        ) by {
            assert(super::sql::lexeme_laws::is_word_char(name[i]));
        }
    }
    if is_simple(name) {
        assert forall|i: int| 0 <= i < name.len() implies super::sql::lexeme_laws::is_word_char(
            #[trigger] name[i],
        ) by {
            assert(super::column_names::is_plain(name[i]));
        }
    }
}

/// Within quotes each backtick is written twice, and every other character as it is.
pub proof fn law_backticks_are_doubled(name: Seq<char>, n: nat)
    requires
        0 < n <= name.len(),
    ensures
        doubled(name, 0) == Seq::<char>::empty(),
        name[n - 1] == '`' ==> doubled(name, n) == doubled(name, (n - 1) as nat) + seq!['`', '`'],
        name[n - 1] != '`' ==> doubled(name, n) == doubled(name, (n - 1) as nat) + seq![
            name[n - 1],
        ],
{
    let before = doubled(name, (n - 1) as nat);
    assert(before.push('`').push('`') =~= before + seq!['`', '`']);
    assert(before.push(name[n - 1]) =~= before + seq![name[n - 1]]);
}

/// A path is written name by name, with a dot before each but the first.
pub proof fn law_paths_are_written_with_dots(path: Seq<Seq<char>>, n: nat)
    requires
        0 < n <= path.len(),
    ensures
        n == 1 ==> path_text(path, n) == written(path[0]),
        n > 1 ==> path_text(path, n) == path_text(path, (n - 1) as nat) + seq!['.'] + written(
            path[n - 1],
        ),
{
    reveal_strlit(".");
    assert("."@ =~= seq!['.']);
    if n == 1 {
        assert(Seq::<char>::empty() + written(path[0]) =~= written(path[0]));
    }
}

// ---------------------------------------------------------------------------------------------
// Conversions
// ---------------------------------------------------------------------------------------------

/// Values of Rust's own types are scalars of the type of the same width, with the same value.
pub proof fn law_values_are_scalars_of_their_width(
    byte: i8,
    short: i16,
    integer: i32,
    long: i64,
    flag: bool,
    text: String,
    float: Float32,
    double: Float64,
)
    ensures
        byte.as_scalar() == ScalarView::Byte(byte),
        short.as_scalar() == ScalarView::Short(short),
        integer.as_scalar() == ScalarView::Integer(integer),
        long.as_scalar() == ScalarView::Long(long),
        flag.as_scalar() == ScalarView::Boolean(flag),
        text.as_scalar() == ScalarView::String(text@),
        float.as_scalar() == ScalarView::Float(float@),
        double.as_scalar() == ScalarView::Double(double@),
        <i8 as ScalarConvert>::field_type() == TypeView::Primitive(PrimitiveType::Byte),
        <i16 as ScalarConvert>::field_type() == TypeView::Primitive(PrimitiveType::Short),
        <i32 as ScalarConvert>::field_type() == TypeView::Primitive(PrimitiveType::Integer),
        <i64 as ScalarConvert>::field_type() == TypeView::Primitive(PrimitiveType::Long),
        <bool as ScalarConvert>::field_type() == TypeView::Primitive(PrimitiveType::Boolean),
        <String as ScalarConvert>::field_type() == TypeView::Primitive(PrimitiveType::String),
        <Float32 as ScalarConvert>::field_type() == TypeView::Primitive(PrimitiveType::Float),
        <Float64 as ScalarConvert>::field_type() == TypeView::Primitive(PrimitiveType::Double),
{
}

/// An optional value is the scalar of the value, or null of the same type.
pub proof fn law_missing_value_is_null<T: IntoScalar>(value: T)
    ensures
        Some(value).as_scalar() == value.as_scalar(),
        None::<T>.as_scalar() == ScalarView::Null(T::field_type()),
        <Option<T> as ScalarConvert>::accepts(ScalarView::Null(T::field_type())),
{
}

proof fn lemma_first_rejected<T: ScalarConvert>(elements: Seq<ScalarView>, from: int)
    requires
        0 <= from <= elements.len(),
    ensures
        first_rejected::<T>(elements, from) is None <==> forall|i: int|
            from <= i < elements.len() ==> T::accepts(#[trigger] elements[i]),
    decreases elements.len() - from,
{
    if from < elements.len() {
        lemma_first_rejected::<T>(elements, from + 1);
    }
}

/// A list of scalars is accepted as a list of values exactly where its type is that of such a list
/// and each element is accepted.
pub proof fn law_list_is_accepted_by_its_elements<T: ScalarConvert>(
    ty: TypeView,
    elements: Seq<ScalarView>,
)
    ensures
        <Vec<T> as ScalarConvert>::accepts(ScalarView::Array(ty, elements)) <==> ty
            == TypeView::Array(Box::new(T::field_type()), T::field_nullable()) && forall|i: int|
            0 <= i < elements.len() ==> T::accepts(#[trigger] elements[i]),
{
    lemma_first_rejected::<T>(elements, 0);
}

proof fn lemma_pair_rejection<K: IntoScalar, V: ScalarConvert>(
    pairs: Seq<(ScalarView, ScalarView)>,
    from: int,
)
    requires
        0 <= from <= pairs.len(),
    ensures
        pair_rejection::<K, V>(pairs, from) is None <==> forall|i: int|
            from <= i < pairs.len() ==> K::accepts((#[trigger] pairs[i]).0) && V::accepts(
                pairs[i].1,
            ),
    decreases pairs.len() - from,
{
    if from < pairs.len() {
        lemma_pair_rejection::<K, V>(pairs, from + 1);
    }
}

/// Pairs of scalars are accepted as a map exactly where their type is that of such a map and each key
/// and each value is accepted.
pub proof fn law_map_is_accepted_by_its_pairs<K: IntoScalar, V: ScalarConvert>(
    ty: TypeView,
    pairs: Seq<(ScalarView, ScalarView)>,
)
    ensures
        map_rejection::<K, V>(ScalarView::Mapping(ty, pairs)) is None <==> ty == TypeView::Mapping(
            Box::new(K::field_type()),
            Box::new(V::field_type()),
            V::field_nullable(),
        ) && forall|i: int|
            0 <= i < pairs.len() ==> K::accepts((#[trigger] pairs[i]).0) && V::accepts(pairs[i].1),
{
    lemma_pair_rejection::<K, V>(pairs, 0);
    assert(map_type_of::<K, V>() == TypeView::Mapping(
        Box::new(K::field_type()),
        Box::new(V::field_type()),
        V::field_nullable(),
    ));
}

// ---------------------------------------------------------------------------------------------
// Rows of values
// ---------------------------------------------------------------------------------------------

/// Whether fields are neither structs nor variants, and values have their types.
pub open spec fn is_flat_row(fields: Seq<FieldView>, scalars: Seq<ScalarView>) -> bool {
    &&& fields.len() <= scalars.len()
    &&& forall|i: int|
        0 <= i < fields.len() ==> !((#[trigger] fields[i]).ty is Struct) && !(
        fields[i].ty is Variant) && scalars[i].data_type() == fields[i].ty
}

/// The first `n` values as expressions.
pub open spec fn literals(scalars: Seq<ScalarView>, n: nat) -> Seq<ExprView> {
    Seq::new(n, |i: int| ExprView::Literal(scalars[i]))
}

proof fn lemma_flat_fields(fields: Seq<FieldView>, scalars: Seq<ScalarView>, n: nat)
    requires
        is_flat_row(fields, scalars),
        n <= fields.len(),
    ensures
        fields_literal(fields, n, scalars, 0) == Ok::<(Seq<ExprView>, nat), Problem>(
            (literals(scalars, n), n),
        ),
    decreases n,
{
    if n > 0 {
        lemma_flat_fields(fields, scalars, (n - 1) as nat);
        let field = fields[n - 1];
        assert(type_literal(field.ty, scalars, (n - 1) as nat) == Ok::<
            (Option<ExprView>, nat),
            Problem,
        >((Some(ExprView::Literal(scalars[n - 1])), n)));
        assert(literals(scalars, (n - 1) as nat).push(ExprView::Literal(scalars[n - 1]))
            =~= literals(scalars, n));
    } else {
        assert(literals(scalars, 0) =~= Seq::<ExprView>::empty());
    }
}

/// A row of as many values as there are plain fields, each of the type of its field and none null
/// where it must not be, is the struct of those values in order.
pub proof fn law_row_of_plain_values(fields: Seq<FieldView>, scalars: Seq<ScalarView>)
    requires
        is_flat_row(fields, scalars),
        fields.len() == scalars.len(),
        forall|i: int|
            0 <= i < fields.len() && scalars[i] is Null ==> (#[trigger] fields[i]).nullable,
    ensures
        row_literal(fields, scalars) == Ok::<ExprView, Problem>(
            ExprView::Struct(literals(scalars, fields.len()), None),
        ),
{
    lemma_flat_fields(fields, scalars, fields.len());
    let exprs = literals(scalars, fields.len());
    assert(!has_misplaced_null(fields, exprs)) by {
        if has_misplaced_null(fields, exprs) {
            let i = choose|i: int|
                0 <= i < exprs.len() && #[trigger] is_null_literal(exprs[i]) && !fields[i].nullable;
            assert(scalars[i] is Null);
            assert(fields[i].nullable);
        }
    }
}

/// Where a value is null that must not be, the row is null as a whole if all its values are, and
/// refused if not.
pub proof fn law_row_with_a_misplaced_null(fields: Seq<FieldView>, scalars: Seq<ScalarView>, k: int)
    requires
        is_flat_row(fields, scalars),
        fields.len() == scalars.len(),
        0 <= k < fields.len(),
        scalars[k] is Null,
        !fields[k].nullable,
    ensures
        (forall|i: int| 0 <= i < scalars.len() ==> (#[trigger] scalars[i]) is Null) ==> row_literal(
            fields,
            scalars,
        ) == Ok::<ExprView, Problem>(
            ExprView::Literal(ScalarView::Null(TypeView::Struct(fields))),
        ),
        (exists|i: int| 0 <= i < scalars.len() && !((#[trigger] scalars[i]) is Null))
            ==> row_literal(fields, scalars) is Err,
{
    lemma_flat_fields(fields, scalars, fields.len());
    let exprs = literals(scalars, fields.len());
    assert(is_null_literal(exprs[k]));
    assert(has_misplaced_null(fields, exprs));
    if exists|i: int| 0 <= i < scalars.len() && !((#[trigger] scalars[i]) is Null) {
        let i = choose|i: int| 0 <= i < scalars.len() && !((#[trigger] scalars[i]) is Null);
        assert(!is_null_literal(exprs[i]));
    }
    if forall|i: int| 0 <= i < scalars.len() ==> (#[trigger] scalars[i]) is Null {
        assert forall|i: int| 0 <= i < exprs.len() implies #[trigger] is_null_literal(exprs[i]) by {
            assert(scalars[i] is Null);
        }
    }
}

/// A value too many is refused, and named.
pub proof fn law_row_with_a_value_too_many(fields: Seq<FieldView>, scalars: Seq<ScalarView>)
    requires
        is_flat_row(fields, scalars),
        fields.len() < scalars.len(),
        forall|i: int|
            0 <= i < fields.len() && scalars[i] is Null ==> (#[trigger] fields[i]).nullable,
    ensures
        row_literal(fields, scalars) == Err::<ExprView, Problem>(
            Problem::Excess(scalars[fields.len() as int]),
        ),
{
    lemma_flat_fields(fields, scalars, fields.len());
    let exprs = literals(scalars, fields.len());
    assert(!has_misplaced_null(fields, exprs)) by {
        if has_misplaced_null(fields, exprs) {
            let i = choose|i: int|
                0 <= i < exprs.len() && #[trigger] is_null_literal(exprs[i]) && !fields[i].nullable;
            assert(scalars[i] is Null);
            assert(fields[i].nullable);
        }
    }
}

/// A value of another type than its field is refused, and so is a row with too few values.
pub proof fn law_values_must_have_the_types_of_their_fields(
    ty: TypeView,
    scalars: Seq<ScalarView>,
    from: nat,
)
    requires
        !(ty is Struct),
        !(ty is Variant),
    ensures
        from >= scalars.len() ==> type_literal(ty, scalars, from) == Err::<
            (Option<ExprView>, nat),
            Problem,
        >(Problem::Insufficient),
        from < scalars.len() && scalars[from as int].data_type() != ty ==> type_literal(
            ty,
            scalars,
            from,
        ) is Err,
{
}

} // verus!
