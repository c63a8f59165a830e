//! Scalars, expressions and predicates.

use vstd::prelude::*;

pub mod calendar;
pub mod column_names;
pub mod comparison_laws;
pub mod floats;
pub mod interval;
pub mod interval_laws;
pub mod literal_expression_transform;
pub mod order;
pub mod parse_laws;
pub mod scalar_conversion;
pub mod scalar_data;
pub mod scalar_laws;
pub mod scalar_parse;
pub mod scalar_text;
pub mod scalars;
pub mod sql;
pub mod tree;
pub mod tree_laws;
pub mod tree_text;
pub mod tree_walk;

pub use column_names::ColumnName;
pub use scalar_conversion::{IntoScalar, ScalarConvert};
pub use scalars::{ArrayData, DecimalData, MapData, Scalar, StructData};
pub use tree::{
    lit, null_lit, BinaryExpression, BinaryExpressionOp, BinaryPredicate, BinaryPredicateOp,
    CastExpression, Expression, ExpressionFieldPatch, ExpressionStructPatch, JunctionPredicate,
    JunctionPredicateOp, MapToStructExpression, OpaqueExpression, OpaqueOp, OpaquePredicate,
    ParseJsonExpression, Predicate, UnaryExpression, UnaryExpressionOp, UnaryPredicate,
    UnaryPredicateOp, VariadicExpression, VariadicExpressionOp,
};

verus! {

} // verus!
