//! Expressions and predicates: what they are made of and how to make them.

use vstd::prelude::*;
use vstd::std_specs::convert::FromSpecImpl;
use vstd::std_specs::ops::{AddSpecImpl, DivSpecImpl, MulSpecImpl, SubSpecImpl};

use super::column_names::ColumnName;
use super::scalars::{Scalar, ScalarView};
use crate::schema::{DataType, FieldView, PrimitiveType, StructType, TypeView};

verus! {

// ---------------------------------------------------------------------------------------------
// Operators
// ---------------------------------------------------------------------------------------------

/// A predicate on one expression.
#[derive(Debug, Clone, Copy, PartialEq, Eq, Structural)]
pub enum UnaryPredicateOp {
    /// The expression is null.
    IsNull,
}

/// A predicate on two expressions.
#[derive(Debug, Clone, Copy, PartialEq, Eq, Structural)]
pub enum BinaryPredicateOp {
    /// The first is less than the second.
    LessThan,
    /// The first is greater than the second.
    GreaterThan,
    /// The two are equal.
    Equal,
    /// The two differ, where null is a value like any other.
    Distinct,
    /// The first is among the elements of the second.
    In,
}

/// An expression made of one other.
#[derive(Debug, Clone, Copy, PartialEq, Eq, Structural)]
pub enum UnaryExpressionOp {
    /// A struct as JSON text.
    ToJson,
}

/// An expression made of two others.
#[derive(Debug, Clone, Copy, PartialEq, Eq, Structural)]
pub enum BinaryExpressionOp {
    /// The sum.
    Plus,
    /// The difference.
    Minus,
    /// The product.
    Multiply,
    /// The quotient.
    Divide,
}

/// An expression made of any number of others.
#[derive(Debug, Clone, Copy, PartialEq, Eq, Structural)]
pub enum VariadicExpressionOp {
    /// The first of them that is not null.
    Coalesce,
    /// The list of them.
    Array,
}

/// A predicate made of others.
#[derive(Debug, Clone, Copy, PartialEq, Eq, Structural)]
pub enum JunctionPredicateOp {
    /// All of them hold.
    And,
    /// One of them holds.
    Or,
}

impl BinaryPredicateOp {
    /// Whether the predicate is null whenever one of its inputs is.
    pub open spec fn null_intolerant(self) -> bool {
        match self {
            BinaryPredicateOp::LessThan => true,
            BinaryPredicateOp::GreaterThan => true,
            BinaryPredicateOp::Equal => true,
            BinaryPredicateOp::Distinct => false,
            BinaryPredicateOp::In => false,
        }
    }

    /// Whether the predicate is null whenever one of its inputs is.
    pub fn is_null_intolerant(&self) -> (r: bool)
        ensures
            r == self.null_intolerant(),
    {
        match self {
            BinaryPredicateOp::LessThan | BinaryPredicateOp::GreaterThan
            | BinaryPredicateOp::Equal => true,
            BinaryPredicateOp::Distinct | BinaryPredicateOp::In => false,
        }
    }
}

impl JunctionPredicateOp {
    /// The operator of the negated junction of negated predicates.
    pub open spec fn inverted(self) -> JunctionPredicateOp {
        match self {
            JunctionPredicateOp::And => JunctionPredicateOp::Or,
            JunctionPredicateOp::Or => JunctionPredicateOp::And,
        }
    }

    /// The operator of the negated junction of negated predicates.
    pub fn invert(&self) -> (r: JunctionPredicateOp)
        ensures
            r == self.inverted(),
            r.inverted() == *self,
            r != *self,
    {
        match self {
            JunctionPredicateOp::And => JunctionPredicateOp::Or,
            JunctionPredicateOp::Or => JunctionPredicateOp::And,
        }
    }

    /// What a junction of no predicates amounts to: true where all of them hold, false where one of
    /// them does.
    pub open spec fn identity(self) -> bool {
        self is And
    }
}

/// An operator that only the engine knows: its name, and how it is written in messages.
#[derive(Debug)]
pub struct OpaqueOp {
    /// The name.
    pub name: String,
    /// The operator as text.
    pub text: String,
}

// ---------------------------------------------------------------------------------------------
// Trees
// ---------------------------------------------------------------------------------------------

/// A predicate on one expression.
#[derive(Debug)]
pub struct UnaryPredicate {
    /// The operator.
    pub op: UnaryPredicateOp,
    /// The expression.
    pub expr: Box<Expression>,
}

/// A predicate on two expressions.
#[derive(Debug)]
pub struct BinaryPredicate {
    /// The operator.
    pub op: BinaryPredicateOp,
    /// The first expression.
    pub left: Box<Expression>,
    /// The second expression.
    pub right: Box<Expression>,
}

/// An expression made of one other.
#[derive(Debug)]
pub struct UnaryExpression {
    /// The operator.
    pub op: UnaryExpressionOp,
    /// The other expression.
    pub expr: Box<Expression>,
}

/// An expression made of two others.
#[derive(Debug)]
pub struct BinaryExpression {
    /// The operator.
    pub op: BinaryExpressionOp,
    /// The first of the others.
    pub left: Box<Expression>,
    /// The second of the others.
    pub right: Box<Expression>,
}

/// An expression made of any number of others.
#[derive(Debug)]
pub struct VariadicExpression {
    /// The operator.
    pub op: VariadicExpressionOp,
    /// The others.
    pub exprs: Vec<Expression>,
}

/// JSON text read as a struct.
#[derive(Debug)]
pub struct ParseJsonExpression {
    /// The text.
    pub json_expr: Box<Expression>,
    /// The type of the struct.
    pub output_schema: Box<StructType>,
}

/// A map turned into a struct.
#[derive(Debug)]
pub struct MapToStructExpression {
    /// The map.
    pub map_expr: Box<Expression>,
}

/// A value cast to a type.
#[derive(Debug)]
pub struct CastExpression {
    /// The value.
    pub expr: Box<Expression>,
    /// The type.
    pub target: DataType,
}

/// A predicate made of others.
#[derive(Debug)]
pub struct JunctionPredicate {
    /// The operator.
    pub op: JunctionPredicateOp,
    /// The others.
    pub preds: Vec<Predicate>,
}

/// A predicate that only the engine knows.
#[derive(Debug)]
pub struct OpaquePredicate {
    /// The operator.
    pub op: OpaqueOp,
    /// What it is applied to.
    pub exprs: Vec<Expression>,
}

/// An expression that only the engine knows.
#[derive(Debug)]
pub struct OpaqueExpression {
    /// The operator.
    pub op: OpaqueOp,
    /// What it is applied to.
    pub exprs: Vec<Expression>,
}

/// What happens to a field of a struct, and what is inserted after it.
#[derive(Debug)]
pub struct ExpressionFieldPatch {
    /// The name of the field.
    pub name: String,
    /// Whether the field stays.
    pub keep_input: bool,
    /// What is inserted after it.
    pub insertions: Vec<Expression>,
}

/// Changes to the fields of a struct.
#[derive(Debug)]
pub struct ExpressionStructPatch {
    /// What is inserted before all fields.
    pub prepended_fields: Vec<Expression>,
    /// What happens to single fields.
    pub field_patches: Vec<ExpressionFieldPatch>,
    /// What is inserted after all fields.
    pub appended_fields: Vec<Expression>,
}

/// An expression: something with a value.
#[derive(Debug)]
pub enum Expression {
    /// A value.
    Literal(Scalar),
    /// A column.
    Column(ColumnName),
    /// Whether a predicate holds.
    Predicate(Box<Predicate>),
    /// A struct of some expressions, null where another expression is not true.
    Struct(Vec<Expression>, Option<Box<Expression>>),
    /// A struct with changed fields.
    StructPatch(ExpressionStructPatch),
    /// An expression made of one other.
    Unary(UnaryExpression),
    /// An expression made of two others.
    Binary(BinaryExpression),
    /// An expression made of any number of others.
    Variadic(VariadicExpression),
    /// An expression that only the engine knows.
    Opaque(OpaqueExpression),
    /// An expression that nobody knows, with a name.
    Unknown(String),
    /// JSON text read as a struct.
    ParseJson(ParseJsonExpression),
    /// A map turned into a struct.
    MapToStruct(MapToStructExpression),
    /// A value cast to a type.
    Cast(CastExpression),
}

/// A predicate: something that holds, does not hold, or is null.
#[derive(Debug)]
pub enum Predicate {
    /// An expression that is true or false.
    BooleanExpression(Expression),
    /// Another predicate does not hold.
    Not(Box<Predicate>),
    /// A predicate on one expression.
    Unary(UnaryPredicate),
    /// A predicate on two expressions.
    Binary(BinaryPredicate),
    /// A predicate made of others.
    Junction(JunctionPredicate),
    /// A predicate that only the engine knows.
    Opaque(OpaquePredicate),
    /// A predicate that nobody knows, with a name.
    Unknown(String),
}

// ---------------------------------------------------------------------------------------------
// What they are
// ---------------------------------------------------------------------------------------------

/// What an operator that only the engine knows is.
pub struct OpView {
    /// The name.
    pub name: Seq<char>,
    /// The operator as text.
    pub text: Seq<char>,
}

/// What an expression is.
#[verifier::ext_equal]
pub enum ExprView {
    /// A value.
    Literal(ScalarView),
    /// A column.
    Column(Seq<Seq<char>>),
    /// Whether a predicate holds.
    Predicate(Box<PredView>),
    /// A struct of some expressions, null where another expression is not true.
    Struct(Seq<ExprView>, Option<Box<ExprView>>),
    /// A struct with changed fields.
    StructPatch(PatchView),
    /// An expression made of one other.
    Unary(UnaryExpressionOp, Box<ExprView>),
    /// An expression made of two others.
    Binary(BinaryExpressionOp, Box<ExprView>, Box<ExprView>),
    /// An expression made of any number of others.
    Variadic(VariadicExpressionOp, Seq<ExprView>),
    /// An expression that only the engine knows.
    Opaque(OpView, Seq<ExprView>),
    /// An expression that nobody knows, with a name.
    Unknown(Seq<char>),
    /// JSON text read as a struct.
    ParseJson(Box<ExprView>, Seq<FieldView>),
    /// A map turned into a struct.
    MapToStruct(Box<ExprView>),
    /// A value cast to a type.
    Cast(Box<ExprView>, TypeView),
}

/// What a predicate is.
#[verifier::ext_equal]
pub enum PredView {
    /// An expression that is true or false.
    BooleanExpression(Box<ExprView>),
    /// Another predicate does not hold.
    Not(Box<PredView>),
    /// A predicate on one expression.
    Unary(UnaryPredicateOp, Box<ExprView>),
    /// A predicate on two expressions.
    Binary(BinaryPredicateOp, Box<ExprView>, Box<ExprView>),
    /// A predicate made of others.
    Junction(JunctionPredicateOp, Seq<PredView>),
    /// A predicate that only the engine knows.
    Opaque(OpView, Seq<ExprView>),
    /// A predicate that nobody knows, with a name.
    Unknown(Seq<char>),
}

/// What changes to the fields of a struct are.
#[verifier::ext_equal]
pub struct PatchView {
    /// What is inserted before all fields.
    pub prepended: Seq<ExprView>,
    /// What happens to single fields.
    pub patches: Seq<FieldPatchView>,
    /// What is inserted after all fields.
    pub appended: Seq<ExprView>,
}

/// What happens to a field of a struct, and what is inserted after it.
#[verifier::ext_equal]
pub struct FieldPatchView {
    /// The name of the field.
    pub name: Seq<char>,
    /// Whether the field stays.
    pub keep_input: bool,
    /// What is inserted after it.
    pub insertions: Seq<ExprView>,
}

impl OpaqueOp {
    /// What the operator is.
    pub open spec fn view(&self) -> OpView {
        OpView { name: self.name@, text: self.text@ }
    }
}

impl Expression {
    /// What the expression is.
    pub open spec fn view(&self) -> ExprView
        decreases self,
    {
        match self {
            Expression::Literal(value) => ExprView::Literal(value@),
            Expression::Column(name) => ExprView::Column(name@),
            Expression::Predicate(pred) => ExprView::Predicate(Box::new(pred.view())),
            Expression::Struct(exprs, nullability) => ExprView::Struct(
                exprs_view(exprs@),
                match nullability {
                    Some(expr) => Some(Box::new(expr.view())),
                    None => None,
                },
            ),
            Expression::StructPatch(patch) => ExprView::StructPatch(patch.view()),
            Expression::Unary(e) => ExprView::Unary(e.op, Box::new(e.expr.view())),
            Expression::Binary(e) => ExprView::Binary(
                e.op,
                Box::new(e.left.view()),
                Box::new(e.right.view()),
            ),
            Expression::Variadic(e) => ExprView::Variadic(e.op, exprs_view(e.exprs@)),
            Expression::Opaque(e) => ExprView::Opaque(e.op.view(), exprs_view(e.exprs@)),
            Expression::Unknown(name) => ExprView::Unknown(name@),
            Expression::ParseJson(e) => ExprView::ParseJson(
                Box::new(e.json_expr.view()),
                e.output_schema@,
            ),
            Expression::MapToStruct(e) => ExprView::MapToStruct(Box::new(e.map_expr.view())),
            Expression::Cast(e) => ExprView::Cast(Box::new(e.expr.view()), e.target@),
        }
    }
}

impl Predicate {
    /// What the predicate is.
    pub open spec fn view(&self) -> PredView
        decreases self,
    {
        match self {
            Predicate::BooleanExpression(expr) => PredView::BooleanExpression(
                Box::new(expr.view()),
            ),
            Predicate::Not(pred) => PredView::Not(Box::new(pred.view())),
            Predicate::Unary(p) => PredView::Unary(p.op, Box::new(p.expr.view())),
            Predicate::Binary(p) => PredView::Binary(
                p.op,
                Box::new(p.left.view()),
                Box::new(p.right.view()),
            ),
            Predicate::Junction(p) => PredView::Junction(p.op, preds_view(p.preds@)),
            Predicate::Opaque(p) => PredView::Opaque(p.op.view(), exprs_view(p.exprs@)),
            Predicate::Unknown(name) => PredView::Unknown(name@),
        }
    }
}

impl ExpressionStructPatch {
    /// What the changes are.
    pub open spec fn view(&self) -> PatchView
        decreases self,
    {
        PatchView {
            prepended: exprs_view(self.prepended_fields@),
            patches: patches_view(self.field_patches@),
            appended: exprs_view(self.appended_fields@),
        }
    }
}

impl ExpressionFieldPatch {
    /// What happens to the field.
    pub open spec fn view(&self) -> FieldPatchView
        decreases self,
    {
        FieldPatchView {
            name: self.name@,
            keep_input: self.keep_input,
            insertions: exprs_view(self.insertions@),
        }
    }
}

/// What some expressions are.
pub open spec fn exprs_view(exprs: Seq<Expression>) -> Seq<ExprView>
    decreases exprs,
{
    Seq::new(
        exprs.len(),
        |i: int|
            if 0 <= i < exprs.len() {
                exprs[i].view()
            } else {
                arbitrary()
            },
    )
}

/// What some predicates are.
pub open spec fn preds_view(preds: Seq<Predicate>) -> Seq<PredView>
    decreases preds,
{
    Seq::new(
        preds.len(),
        |i: int|
            if 0 <= i < preds.len() {
                preds[i].view()
            } else {
                arbitrary()
            },
    )
}

/// What happens to some fields.
pub open spec fn patches_view(patches: Seq<ExpressionFieldPatch>) -> Seq<FieldPatchView>
    decreases patches,
{
    Seq::new(
        patches.len(),
        |i: int|
            if 0 <= i < patches.len() {
                patches[i].view()
            } else {
                arbitrary()
            },
    )
}

// ---------------------------------------------------------------------------------------------
// Making them
// ---------------------------------------------------------------------------------------------

impl UnaryExpression {
    /// The expression made of one other.
    pub fn new(op: UnaryExpressionOp, expr: Expression) -> (r: UnaryExpression)
        ensures
            r == (UnaryExpression { op, expr: Box::new(expr) }),
    {
        UnaryExpression { op, expr: Box::new(expr) }
    }
}

impl UnaryPredicate {
    /// The predicate on one expression.
    pub fn new(op: UnaryPredicateOp, expr: Expression) -> (r: UnaryPredicate)
        ensures
            r == (UnaryPredicate { op, expr: Box::new(expr) }),
    {
        UnaryPredicate { op, expr: Box::new(expr) }
    }
}

impl BinaryExpression {
    /// The expression made of two others.
    pub fn new(op: BinaryExpressionOp, left: Expression, right: Expression) -> (r: BinaryExpression)
        ensures
            r == (BinaryExpression { op, left: Box::new(left), right: Box::new(right) }),
    {
        BinaryExpression { op, left: Box::new(left), right: Box::new(right) }
    }
}

impl BinaryPredicate {
    /// The predicate on two expressions.
    pub fn new(op: BinaryPredicateOp, left: Expression, right: Expression) -> (r: BinaryPredicate)
        ensures
            r == (BinaryPredicate { op, left: Box::new(left), right: Box::new(right) }),
    {
        BinaryPredicate { op, left: Box::new(left), right: Box::new(right) }
    }
}

impl VariadicExpression {
    /// The expression made of any number of others.
    pub fn new(op: VariadicExpressionOp, exprs: Vec<Expression>) -> (r: VariadicExpression)
        ensures
            r == (VariadicExpression { op, exprs }),
    {
        VariadicExpression { op, exprs }
    }
}

impl ParseJsonExpression {
    /// JSON text read as a struct.
    pub fn new(json_expr: Expression, output_schema: StructType) -> (r: ParseJsonExpression)
        ensures
            r == (ParseJsonExpression {
                json_expr: Box::new(json_expr),
                output_schema: Box::new(output_schema),
            }),
    {
        ParseJsonExpression {
            json_expr: Box::new(json_expr),
            output_schema: Box::new(output_schema),
        }
    }
}

impl MapToStructExpression {
    /// A map turned into a struct.
    pub fn new(map_expr: Expression) -> (r: MapToStructExpression)
        ensures
            r == (MapToStructExpression { map_expr: Box::new(map_expr) }),
    {
        MapToStructExpression { map_expr: Box::new(map_expr) }
    }
}

impl CastExpression {
    /// A value cast to a type.
    pub fn new(expr: Expression, target: DataType) -> (r: CastExpression)
        ensures
            r == (CastExpression { expr: Box::new(expr), target }),
    {
        CastExpression { expr: Box::new(expr), target }
    }
}

impl JunctionPredicate {
    /// The predicate made of others.
    pub fn new(op: JunctionPredicateOp, preds: Vec<Predicate>) -> (r: JunctionPredicate)
        ensures
            r == (JunctionPredicate { op, preds }),
    {
        JunctionPredicate { op, preds }
    }
}

impl OpaqueExpression {
    /// An expression that only the engine knows.
    pub fn new(op: OpaqueOp, exprs: Vec<Expression>) -> (r: OpaqueExpression)
        ensures
            r == (OpaqueExpression { op, exprs }),
    {
        OpaqueExpression { op, exprs }
    }
}

impl OpaquePredicate {
    /// A predicate that only the engine knows.
    pub fn new(op: OpaqueOp, exprs: Vec<Expression>) -> (r: OpaquePredicate)
        ensures
            r == (OpaquePredicate { op, exprs }),
    {
        OpaquePredicate { op, exprs }
    }
}

/// A value as an expression.
pub fn lit(value: Scalar) -> (r: Expression)
    ensures
        r == Expression::Literal(value),
{
    Expression::literal(value)
}

/// Null of a type as an expression.
pub fn null_lit(data_type: DataType) -> (r: Expression)
    ensures
        r == Expression::Literal(Scalar::Null(data_type)),
{
    Expression::Literal(Scalar::null(data_type))
}

impl Expression {
    /// A column.
    pub fn column(field_names: Vec<String>) -> (r: Expression)
        ensures
            r == Expression::Column(ColumnName { path: field_names }),
    {
        Expression::Column(ColumnName::new(field_names))
    }

    /// A value.
    pub fn literal(value: Scalar) -> (r: Expression)
        ensures
            r == Expression::Literal(value),
    {
        Expression::Literal(value)
    }

    /// Whether a predicate holds. Where the predicate is but an expression, it is that expression.
    pub open spec fn of_pred(value: Predicate) -> Expression {
        match value {
            Predicate::BooleanExpression(expr) => expr,
            _ => Expression::Predicate(Box::new(value)),
        }
    }

    /// Whether a predicate holds. Where the predicate is but an expression, it is that expression.
    pub fn from_pred(value: Predicate) -> (r: Expression)
        ensures
            r == Expression::of_pred(value),
    {
        match value {
            Predicate::BooleanExpression(expr) => expr,
            other => Expression::Predicate(Box::new(other)),
        }
    }

    /// A struct of some expressions.
    pub fn struct_from(exprs: Vec<Expression>) -> (r: Expression)
        ensures
            r == Expression::Struct(exprs, None),
    {
        Expression::Struct(exprs, None)
    }

    /// A struct of some expressions, null where another expression is not true.
    pub fn struct_with_nullability_from(
        exprs: Vec<Expression>,
        nullability_predicate: Expression,
    ) -> (r: Expression)
        ensures
            r == Expression::Struct(exprs, Some(Box::new(nullability_predicate))),
    {
        Expression::Struct(exprs, Some(Box::new(nullability_predicate)))
    }

    /// A struct with changed fields.
    pub fn struct_patch(patch: ExpressionStructPatch) -> (r: Expression)
        ensures
            r == Expression::StructPatch(patch),
    {
        Expression::StructPatch(patch)
    }

    /// The expression is null.
    pub fn is_null(self) -> (r: Predicate)
        ensures
            r == Predicate::null_test(self),
    {
        Predicate::is_null(self)
    }

    /// The expression is not null.
    pub fn is_not_null(self) -> (r: Predicate)
        ensures
            r == Predicate::Not(Box::new(Predicate::null_test(self))),
    {
        Predicate::is_not_null(self)
    }

    /// The two are equal.
    pub fn eq(self, other: Expression) -> (r: Predicate)
        ensures
            r == Predicate::comparison(BinaryPredicateOp::Equal, self, other),
    {
        Predicate::eq(self, other)
    }

    /// The two are not equal.
    pub fn ne(self, other: Expression) -> (r: Predicate)
        ensures
            r == Predicate::Not(
                Box::new(Predicate::comparison(BinaryPredicateOp::Equal, self, other)),
            ),
    {
        Predicate::ne(self, other)
    }

    /// This is at most the other.
    pub fn le(self, other: Expression) -> (r: Predicate)
        ensures
            r == Predicate::Not(
                Box::new(Predicate::comparison(BinaryPredicateOp::GreaterThan, self, other)),
            ),
    {
        Predicate::le(self, other)
    }

    /// This is less than the other.
    pub fn lt(self, other: Expression) -> (r: Predicate)
        ensures
            r == Predicate::comparison(BinaryPredicateOp::LessThan, self, other),
    {
        Predicate::lt(self, other)
    }

    /// This is at least the other.
    pub fn ge(self, other: Expression) -> (r: Predicate)
        ensures
            r == Predicate::Not(
                Box::new(Predicate::comparison(BinaryPredicateOp::LessThan, self, other)),
            ),
    {
        Predicate::ge(self, other)
    }

    /// This is greater than the other.
    pub fn gt(self, other: Expression) -> (r: Predicate)
        ensures
            r == Predicate::comparison(BinaryPredicateOp::GreaterThan, self, other),
    {
        Predicate::gt(self, other)
    }

    /// The two differ, where null is a value like any other.
    pub fn distinct(self, other: Expression) -> (r: Predicate)
        ensures
            r == Predicate::comparison(BinaryPredicateOp::Distinct, self, other),
    {
        Predicate::distinct(self, other)
    }

    /// The expression made of one other.
    pub fn unary(op: UnaryExpressionOp, expr: Expression) -> (r: Expression)
        ensures
            r == Expression::Unary(UnaryExpression { op, expr: Box::new(expr) }),
    {
        Expression::Unary(UnaryExpression::new(op, expr))
    }

    /// The expression made of two others.
    pub open spec fn arithmetic(
        op: BinaryExpressionOp,
        lhs: Expression,
        rhs: Expression,
    ) -> Expression {
        Expression::Binary(BinaryExpression { op, left: Box::new(lhs), right: Box::new(rhs) })
    }

    /// The expression made of two others.
    pub fn binary(op: BinaryExpressionOp, lhs: Expression, rhs: Expression) -> (r: Expression)
        ensures
            r == Expression::arithmetic(op, lhs, rhs),
    {
        Expression::Binary(BinaryExpression::new(op, lhs, rhs))
    }

    /// The expression made of any number of others.
    pub fn variadic(op: VariadicExpressionOp, exprs: Vec<Expression>) -> (r: Expression)
        ensures
            r == Expression::Variadic(VariadicExpression { op, exprs }),
    {
        Expression::Variadic(VariadicExpression::new(op, exprs))
    }

    /// The first of some expressions that is not null.
    pub fn coalesce(exprs: Vec<Expression>) -> (r: Expression)
        ensures
            r == Expression::Variadic(
                VariadicExpression { op: VariadicExpressionOp::Coalesce, exprs },
            ),
    {
        Expression::variadic(VariadicExpressionOp::Coalesce, exprs)
    }

    /// The list of some expressions.
    pub fn array(exprs: Vec<Expression>) -> (r: Expression)
        ensures
            r == Expression::Variadic(
                VariadicExpression { op: VariadicExpressionOp::Array, exprs },
            ),
    {
        Expression::variadic(VariadicExpressionOp::Array, exprs)
    }

    /// An expression that only the engine knows.
    pub fn opaque(op: OpaqueOp, exprs: Vec<Expression>) -> (r: Expression)
        ensures
            r == Expression::Opaque(OpaqueExpression { op, exprs }),
    {
        Expression::Opaque(OpaqueExpression::new(op, exprs))
    }

    /// An expression that nobody knows.
    pub fn unknown(name: &str) -> (r: Expression)
        ensures
            r matches Expression::Unknown(text) && text@ == name@,
    {
        Expression::Unknown(name.to_owned())
    }

    /// JSON text read as a struct.
    pub fn parse_json(json_expr: Expression, output_schema: StructType) -> (r: Expression)
        ensures
            r == Expression::ParseJson(
                ParseJsonExpression {
                    json_expr: Box::new(json_expr),
                    output_schema: Box::new(output_schema),
                },
            ),
    {
        Expression::ParseJson(ParseJsonExpression::new(json_expr, output_schema))
    }

    /// A map turned into a struct.
    pub fn map_to_struct(map_expr: Expression) -> (r: Expression)
        ensures
            r == Expression::MapToStruct(MapToStructExpression { map_expr: Box::new(map_expr) }),
    {
        Expression::MapToStruct(MapToStructExpression::new(map_expr))
    }

    /// A value cast to a type.
    pub fn cast(expr: Expression, target: DataType) -> (r: Expression)
        ensures
            r == Expression::Cast(CastExpression { expr: Box::new(expr), target }),
    {
        Expression::Cast(CastExpression::new(expr, target))
    }
}

impl Predicate {
    /// The predicate that an expression is null.
    pub open spec fn null_test(expr: Expression) -> Predicate {
        Predicate::Unary(UnaryPredicate { op: UnaryPredicateOp::IsNull, expr: Box::new(expr) })
    }

    /// The predicate on two expressions.
    pub open spec fn comparison(
        op: BinaryPredicateOp,
        lhs: Expression,
        rhs: Expression,
    ) -> Predicate {
        Predicate::Binary(BinaryPredicate { op, left: Box::new(lhs), right: Box::new(rhs) })
    }

    /// The predicate that always holds, or never does.
    pub open spec fn constant(value: bool) -> Predicate {
        Predicate::BooleanExpression(Expression::Literal(Scalar::Boolean(value)))
    }

    /// The predicate that an expression stands for: the predicate in it, or the expression itself.
    pub open spec fn of_expr(expr: Expression) -> Predicate {
        match expr {
            Expression::Predicate(pred) => *pred,
            _ => Predicate::BooleanExpression(expr),
        }
    }

    /// A column that is true or false.
    pub fn column(field_names: Vec<String>) -> (r: Predicate)
        ensures
            r == Predicate::BooleanExpression(
                Expression::Column(ColumnName { path: field_names }),
            ),
    {
        Predicate::from_expr(Expression::column(field_names))
    }

    /// The predicate that always holds, or never does.
    pub fn literal(value: bool) -> (r: Predicate)
        ensures
            r == Predicate::constant(value),
    {
        Predicate::BooleanExpression(Expression::Literal(Scalar::Boolean(value)))
    }

    /// The predicate that is always null.
    pub fn null() -> (r: Predicate)
        ensures
            r == Predicate::BooleanExpression(
                Expression::Literal(
                    Scalar::Null(DataType::Primitive(PrimitiveType::Boolean)),
                ),
            ),
    {
        Predicate::BooleanExpression(null_lit(DataType::Primitive(PrimitiveType::Boolean)))
    }

    /// The predicate that an expression stands for: the predicate in it, or the expression itself.
    pub fn from_expr(expr: Expression) -> (r: Predicate)
        ensures
            r == Predicate::of_expr(expr),
    {
        match expr {
            Expression::Predicate(pred) => *pred,
            other => Predicate::BooleanExpression(other),
        }
    }

    /// Another predicate does not hold.
    pub fn not(pred: Predicate) -> (r: Predicate)
        ensures
            r == Predicate::Not(Box::new(pred)),
    {
        Predicate::Not(Box::new(pred))
    }

    /// An expression is null.
    pub fn is_null(expr: Expression) -> (r: Predicate)
        ensures
            r == Predicate::null_test(expr),
    {
        Predicate::unary(UnaryPredicateOp::IsNull, expr)
    }

    /// An expression is not null.
    pub fn is_not_null(expr: Expression) -> (r: Predicate)
        ensures
            r == Predicate::Not(Box::new(Predicate::null_test(expr))),
    {
        Predicate::not(Predicate::is_null(expr))
    }

    /// Two expressions are equal.
    pub fn eq(a: Expression, b: Expression) -> (r: Predicate)
        ensures
            r == Predicate::comparison(BinaryPredicateOp::Equal, a, b),
    {
        Predicate::binary(BinaryPredicateOp::Equal, a, b)
    }

    /// Two expressions are not equal.
    pub fn ne(a: Expression, b: Expression) -> (r: Predicate)
        ensures
            r == Predicate::Not(Box::new(Predicate::comparison(BinaryPredicateOp::Equal, a, b))),
    {
        Predicate::not(Predicate::binary(BinaryPredicateOp::Equal, a, b))
    }

    /// The first expression is at most the second.
    pub fn le(a: Expression, b: Expression) -> (r: Predicate)
        ensures
            r == Predicate::Not(
                Box::new(Predicate::comparison(BinaryPredicateOp::GreaterThan, a, b)),
            ),
    {
        Predicate::not(Predicate::binary(BinaryPredicateOp::GreaterThan, a, b))
    }

    /// The first expression is less than the second.
    pub fn lt(a: Expression, b: Expression) -> (r: Predicate)
        ensures
            r == Predicate::comparison(BinaryPredicateOp::LessThan, a, b),
    {
        Predicate::binary(BinaryPredicateOp::LessThan, a, b)
    }

    /// The first expression is at least the second.
    pub fn ge(a: Expression, b: Expression) -> (r: Predicate)
        ensures
            r == Predicate::Not(Box::new(Predicate::comparison(BinaryPredicateOp::LessThan, a, b))),
    {
        Predicate::not(Predicate::binary(BinaryPredicateOp::LessThan, a, b))
    }

    /// The first expression is greater than the second.
    pub fn gt(a: Expression, b: Expression) -> (r: Predicate)
        ensures
            r == Predicate::comparison(BinaryPredicateOp::GreaterThan, a, b),
    {
        Predicate::binary(BinaryPredicateOp::GreaterThan, a, b)
    }

    /// Two expressions differ, where null is a value like any other.
    pub fn distinct(a: Expression, b: Expression) -> (r: Predicate)
        ensures
            r == Predicate::comparison(BinaryPredicateOp::Distinct, a, b),
    {
        Predicate::binary(BinaryPredicateOp::Distinct, a, b)
    }

    /// Both predicates hold.
    pub fn and(a: Predicate, b: Predicate) -> (r: Predicate)
        ensures
            r matches Predicate::Junction(junction) && junction.op == JunctionPredicateOp::And
                && junction.preds@ == seq![a, b],
    {
        Predicate::and_from(vec![a, b])
    }

    /// One of the predicates holds.
    pub fn or(a: Predicate, b: Predicate) -> (r: Predicate)
        ensures
            r matches Predicate::Junction(junction) && junction.op == JunctionPredicateOp::Or
                && junction.preds@ == seq![a, b],
    {
        Predicate::or_from(vec![a, b])
    }

    /// All predicates hold.
    pub fn and_from(preds: Vec<Predicate>) -> (r: Predicate)
        ensures
            Predicate::is_junction(JunctionPredicateOp::And, preds@, r),
    {
        Predicate::junction(JunctionPredicateOp::And, preds)
    }

    /// One of the predicates holds.
    pub fn or_from(preds: Vec<Predicate>) -> (r: Predicate)
        ensures
            Predicate::is_junction(JunctionPredicateOp::Or, preds@, r),
    {
        Predicate::junction(JunctionPredicateOp::Or, preds)
    }

    /// The predicate on one expression.
    pub fn unary(op: UnaryPredicateOp, expr: Expression) -> (r: Predicate)
        ensures
            r == Predicate::Unary(UnaryPredicate { op, expr: Box::new(expr) }),
    {
        Predicate::Unary(UnaryPredicate::new(op, expr))
    }

    /// The predicate on two expressions.
    pub fn binary(op: BinaryPredicateOp, lhs: Expression, rhs: Expression) -> (r: Predicate)
        ensures
            r == Predicate::comparison(op, lhs, rhs),
    {
        Predicate::Binary(BinaryPredicate::new(op, lhs, rhs))
    }

    /// Whether `r` is the junction of some predicates: a constant where there are none, the predicate
    /// itself where there is one.
    pub open spec fn is_junction(
        op: JunctionPredicateOp,
        preds: Seq<Predicate>,
        r: Predicate,
    ) -> bool {
        if preds.len() == 0 {
            r == Predicate::constant(op.identity())
        } else if preds.len() == 1 {
            r == preds[0]
        } else {
            r matches Predicate::Junction(junction) && junction.op == op && junction.preds@ == preds
        }
    }

    /// The junction of some predicates: a constant where there are none, the predicate itself where
    /// there is one.
    pub fn junction(op: JunctionPredicateOp, preds: Vec<Predicate>) -> (r: Predicate)
        ensures
            Predicate::is_junction(op, preds@, r),
    {
        let mut preds: Vec<Predicate> = preds;
        if preds.len() == 0 {
            return match op {
                JunctionPredicateOp::And => Predicate::literal(true),
                JunctionPredicateOp::Or => Predicate::literal(false),
            };
        }
        if preds.len() == 1 {
            return preds.remove(0);
        }
        Predicate::Junction(JunctionPredicate::new(op, preds))
    }

    /// A predicate that only the engine knows.
    pub fn opaque(op: OpaqueOp, exprs: Vec<Expression>) -> (r: Predicate)
        ensures
            r == Predicate::Opaque(OpaquePredicate { op, exprs }),
    {
        Predicate::Opaque(OpaquePredicate::new(op, exprs))
    }

    /// A predicate that nobody knows.
    pub fn unknown(name: &str) -> (r: Predicate)
        ensures
            r matches Predicate::Unknown(text) && text@ == name@,
    {
        Predicate::Unknown(name.to_owned())
    }
}

impl From<Scalar> for Expression {
    fn from(value: Scalar) -> (r: Expression) {
        Expression::literal(value)
    }
}

impl FromSpecImpl<Scalar> for Expression {
    open spec fn obeys_from_spec() -> bool {
        true
    }

    open spec fn from_spec(value: Scalar) -> Expression {
        Expression::Literal(value)
    }
}

impl From<ColumnName> for Expression {
    fn from(value: ColumnName) -> (r: Expression) {
        Expression::Column(value)
    }
}

impl FromSpecImpl<ColumnName> for Expression {
    open spec fn obeys_from_spec() -> bool {
        true
    }

    open spec fn from_spec(value: ColumnName) -> Expression {
        Expression::Column(value)
    }
}

impl From<Predicate> for Expression {
    fn from(value: Predicate) -> (r: Expression) {
        Expression::from_pred(value)
    }
}

impl FromSpecImpl<Predicate> for Expression {
    open spec fn obeys_from_spec() -> bool {
        true
    }

    open spec fn from_spec(value: Predicate) -> Expression {
        Expression::of_pred(value)
    }
}

impl From<ColumnName> for Predicate {
    fn from(value: ColumnName) -> (r: Predicate) {
        Predicate::from_expr(Expression::Column(value))
    }
}

impl FromSpecImpl<ColumnName> for Predicate {
    open spec fn obeys_from_spec() -> bool {
        true
    }

    open spec fn from_spec(value: ColumnName) -> Predicate {
        Predicate::BooleanExpression(Expression::Column(value))
    }
}

impl core::ops::Add for Expression {
    type Output = Expression;

    fn add(self, rhs: Expression) -> (r: Expression) {
        Expression::binary(BinaryExpressionOp::Plus, self, rhs)
    }
}

impl AddSpecImpl for Expression {
    open spec fn obeys_add_spec() -> bool {
        true
    }

    open spec fn add_req(self, rhs: Expression) -> bool {
        true
    }

    open spec fn add_spec(self, rhs: Expression) -> Expression {
        Expression::arithmetic(BinaryExpressionOp::Plus, self, rhs)
    }
}

impl core::ops::Sub for Expression {
    type Output = Expression;

    fn sub(self, rhs: Expression) -> (r: Expression) {
        Expression::binary(BinaryExpressionOp::Minus, self, rhs)
    }
}

impl SubSpecImpl for Expression {
    open spec fn obeys_sub_spec() -> bool {
        true
    }

    open spec fn sub_req(self, rhs: Expression) -> bool {
        true
    }

    open spec fn sub_spec(self, rhs: Expression) -> Expression {
        Expression::arithmetic(BinaryExpressionOp::Minus, self, rhs)
    }
}

impl core::ops::Mul for Expression {
    type Output = Expression;

    fn mul(self, rhs: Expression) -> (r: Expression) {
        Expression::binary(BinaryExpressionOp::Multiply, self, rhs)
    }
}

impl MulSpecImpl for Expression {
    open spec fn obeys_mul_spec() -> bool {
        true
    }

    open spec fn mul_req(self, rhs: Expression) -> bool {
        true
    }

    open spec fn mul_spec(self, rhs: Expression) -> Expression {
        Expression::arithmetic(BinaryExpressionOp::Multiply, self, rhs)
    }
}

impl core::ops::Div for Expression {
    type Output = Expression;

    fn div(self, rhs: Expression) -> (r: Expression) {
        Expression::binary(BinaryExpressionOp::Divide, self, rhs)
    }
}

impl DivSpecImpl for Expression {
    open spec fn obeys_div_spec() -> bool {
        true
    }

    open spec fn div_req(self, rhs: Expression) -> bool {
        true
    }

    open spec fn div_spec(self, rhs: Expression) -> Expression {
        Expression::arithmetic(BinaryExpressionOp::Divide, self, rhs)
    }
}

/// Making an expression of a predicate and a predicate of that expression gives the predicate back.
///
/// This leaves out a predicate that is but an expression which is but a predicate, which no
/// constructor makes.
pub proof fn law_predicate_round_trips(pred: Predicate)
    requires
        !(pred matches Predicate::BooleanExpression(Expression::Predicate(_))),
    ensures
        Predicate::of_expr(Expression::of_pred(pred)) == pred,
{
}

/// A predicate made of an expression is never but an expression which is but a predicate, nor is an
/// expression made of a predicate but a predicate which is but an expression, given that this holds
/// of what they are made of.
pub proof fn law_wrappers_do_not_nest(expr: Expression, pred: Predicate)
    requires
        expr matches Expression::Predicate(inner) ==> !(*inner is BooleanExpression),
        pred matches Predicate::BooleanExpression(inner) ==> !(inner is Predicate),
    ensures
        Predicate::of_expr(expr) matches Predicate::BooleanExpression(inner) ==> !(
        inner is Predicate),
        Expression::of_pred(pred) matches Expression::Predicate(inner) ==> !(
        *inner is BooleanExpression),
{
}

} // verus!
