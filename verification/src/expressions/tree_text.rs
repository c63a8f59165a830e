//! Expressions and predicates as text.

use vstd::prelude::*;

use super::column_names::path_text;
use super::scalar_text::scalar_text;
use super::tree::{
    exprs_view, preds_view, BinaryExpressionOp, BinaryPredicateOp, ExprView, Expression,
    ExpressionFieldPatch, ExpressionStructPatch, FieldPatchView, JunctionPredicateOp, PatchView,
    PredView, Predicate, UnaryExpressionOp, VariadicExpressionOp,
};
use crate::text::{decimal, push_decimal};

verus! {

impl UnaryExpressionOp {
    /// The operator as text.
    pub open spec fn text(self) -> Seq<char> {
        "TO_JSON"@
    }

    /// The operator as text.
    pub fn to_str(&self) -> (r: &'static str)
        ensures
            r@ == self.text(),
    {
        "TO_JSON"
    }
}

impl BinaryExpressionOp {
    /// The operator as text.
    pub open spec fn text(self) -> Seq<char> {
        match self {
            BinaryExpressionOp::Plus => "+"@,
            BinaryExpressionOp::Minus => "-"@,
            BinaryExpressionOp::Multiply => "*"@,
            BinaryExpressionOp::Divide => "/"@,
        }
    }

    /// The operator as text.
    pub fn to_str(&self) -> (r: &'static str)
        ensures
            r@ == self.text(),
    {
        match self {
            BinaryExpressionOp::Plus => "+",
            BinaryExpressionOp::Minus => "-",
            BinaryExpressionOp::Multiply => "*",
            BinaryExpressionOp::Divide => "/",
        }
    }
}

impl VariadicExpressionOp {
    /// The operator as text.
    pub open spec fn text(self) -> Seq<char> {
        match self {
            VariadicExpressionOp::Coalesce => "COALESCE"@,
            VariadicExpressionOp::Array => "ARRAY"@,
        }
    }

    /// The operator as text.
    pub fn to_str(&self) -> (r: &'static str)
        ensures
            r@ == self.text(),
    {
        match self {
            VariadicExpressionOp::Coalesce => "COALESCE",
            VariadicExpressionOp::Array => "ARRAY",
        }
    }
}

impl BinaryPredicateOp {
    /// The operator as text.
    pub open spec fn text(self) -> Seq<char> {
        match self {
            BinaryPredicateOp::LessThan => "<"@,
            BinaryPredicateOp::GreaterThan => ">"@,
            BinaryPredicateOp::Equal => "="@,
            BinaryPredicateOp::Distinct => "DISTINCT"@,
            BinaryPredicateOp::In => "IN"@,
        }
    }

    /// The operator as text.
    pub fn to_str(&self) -> (r: &'static str)
        ensures
            r@ == self.text(),
    {
        match self {
            BinaryPredicateOp::LessThan => "<",
            BinaryPredicateOp::GreaterThan => ">",
            BinaryPredicateOp::Equal => "=",
            BinaryPredicateOp::Distinct => "DISTINCT",
            BinaryPredicateOp::In => "IN",
        }
    }
}

impl JunctionPredicateOp {
    /// The operator as text.
    pub open spec fn text(self) -> Seq<char> {
        match self {
            JunctionPredicateOp::And => "AND"@,
            JunctionPredicateOp::Or => "OR"@,
        }
    }

    /// The operator as text.
    pub fn to_str(&self) -> (r: &'static str)
        ensures
            r@ == self.text(),
    {
        match self {
            JunctionPredicateOp::And => "AND",
            JunctionPredicateOp::Or => "OR",
        }
    }
}

// ---------------------------------------------------------------------------------------------
// What the text is
// ---------------------------------------------------------------------------------------------

/// An expression as text.
pub open spec fn expr_text(expr: ExprView) -> Seq<char>
    decreases expr, 0nat,
{
    match expr {
        ExprView::Literal(value) => scalar_text(value),
        ExprView::Column(path) => "Column("@ + path_text(path, path.len()) + ")"@,
        ExprView::Predicate(pred) => pred_text(*pred),
        ExprView::Struct(exprs, _) => "Struct("@ + exprs_text(exprs, exprs.len()) + ")"@,
        ExprView::StructPatch(patch) => "StructPatch("@ + patch_text(patch) + ")"@,
        ExprView::Unary(op, inner) => op.text() + "("@ + expr_text(*inner) + ")"@,
        ExprView::Binary(op, left, right) => expr_text(*left) + " "@ + op.text() + " "@ + expr_text(
            *right,
        ),
        ExprView::Variadic(op, exprs) => op.text() + "("@ + exprs_text(exprs, exprs.len()) + ")"@,
        ExprView::Opaque(op, exprs) => op.text + "("@ + exprs_text(exprs, exprs.len()) + ")"@,
        ExprView::Unknown(name) => "<unknown: "@ + name + ">"@,
        ExprView::ParseJson(inner, fields) => "PARSE_JSON("@ + expr_text(*inner) + ", <schema:"@
            + decimal(fields.len() as int) + " fields>)"@,
        ExprView::MapToStruct(inner) => "MAP_TO_STRUCT("@ + expr_text(*inner) + ")"@,
        ExprView::Cast(inner, ty) => "CAST("@ + expr_text(*inner) + " AS "@ + ty.text() + ")"@,
    }
}

/// A predicate as text.
pub open spec fn pred_text(pred: PredView) -> Seq<char>
    decreases pred, 0nat,
{
    match pred {
        PredView::BooleanExpression(expr) => expr_text(*expr),
        PredView::Not(inner) => "NOT("@ + pred_text(*inner) + ")"@,
        PredView::Unary(_, expr) => expr_text(*expr) + " IS NULL"@,
        PredView::Binary(op, left, right) => if op is Distinct {
            "DISTINCT("@ + expr_text(*left) + ", "@ + expr_text(*right) + ")"@
        } else {
            expr_text(*left) + " "@ + op.text() + " "@ + expr_text(*right)
        },
        PredView::Junction(op, preds) => op.text() + "("@ + preds_text(preds, preds.len()) + ")"@,
        PredView::Opaque(op, exprs) => op.text + "("@ + exprs_text(exprs, exprs.len()) + ")"@,
        PredView::Unknown(name) => "<unknown: "@ + name + ">"@,
    }
}

/// The first `n` expressions as text.
pub open spec fn exprs_text(exprs: Seq<ExprView>, n: nat) -> Seq<char>
    decreases exprs, n,
{
    if n == 0 || n > exprs.len() {
        Seq::empty()
    } else {
        let before = if n == 1 {
            Seq::empty()
        } else {
            exprs_text(exprs, (n - 1) as nat) + ", "@
        };
        before + expr_text(exprs[n - 1])
    }
}

/// The first `n` predicates as text.
pub open spec fn preds_text(preds: Seq<PredView>, n: nat) -> Seq<char>
    decreases preds, n,
{
    if n == 0 || n > preds.len() {
        Seq::empty()
    } else {
        let before = if n == 1 {
            Seq::empty()
        } else {
            preds_text(preds, (n - 1) as nat) + ", "@
        };
        before + pred_text(preds[n - 1])
    }
}

/// What happens to a field, as text; nothing where the field stays and nothing is inserted.
pub open spec fn field_patch_text(patch: FieldPatchView) -> Seq<char>
    decreases patch, 0nat,
{
    if patch.insertions.len() == 0 {
        if patch.keep_input {
            Seq::empty()
        } else {
            "drop "@ + patch.name
        }
    } else {
        (if patch.keep_input {
            "after "@
        } else {
            "replace/after "@
        }) + patch.name + " insert ["@ + exprs_text(patch.insertions, patch.insertions.len())
            + "]"@
    }
}

/// A part after what comes before it, with a comma between the two where something does.
pub open spec fn joined(before: Seq<char>, part: Seq<char>) -> Seq<char> {
    if part.len() == 0 {
        before
    } else if before.len() == 0 {
        part
    } else {
        before + ", "@ + part
    }
}

/// What is inserted before all fields, and what happens to the first `n` of `patches`, as text.
pub open spec fn patches_text(
    prepended: Seq<char>,
    patches: Seq<FieldPatchView>,
    n: nat,
) -> Seq<char>
    decreases patches, n,
{
    if n == 0 || n > patches.len() {
        prepended
    } else {
        joined(
            patches_text(prepended, patches, (n - 1) as nat),
            field_patch_text(patches[n - 1]),
        )
    }
}

/// What is inserted before or after all fields, as text; nothing where nothing is.
pub open spec fn inserted_text(what: Seq<char>, exprs: Seq<ExprView>) -> Seq<char>
    decreases exprs, exprs.len() + 1,
{
    if exprs.len() == 0 {
        Seq::empty()
    } else {
        what + " ["@ + exprs_text(exprs, exprs.len()) + "]"@
    }
}

/// The changes to the fields of a struct, as text.
pub open spec fn patch_text(patch: PatchView) -> Seq<char>
    decreases patch, 0nat,
{
    joined(
        patches_text(
            inserted_text("prepend"@, patch.prepended),
            patch.patches,
            patch.patches.len(),
        ),
        inserted_text("append"@, patch.appended),
    )
}

// ---------------------------------------------------------------------------------------------
// Making the text
// ---------------------------------------------------------------------------------------------

fn exprs_to_string(exprs: &[Expression]) -> (r: String)
    ensures
        r@ == exprs_text(exprs_view(exprs@), exprs@.len()),
    decreases exprs@,
{
    let mut text: String = String::new();
    let mut i: usize = 0;
    assert(text@ =~= exprs_text(exprs_view(exprs@), 0));
    while i < exprs.len()
        invariant
            i <= exprs.len(),
            text@ == exprs_text(exprs_view(exprs@), i as nat),
        decreases exprs.len() - i,
    {
        if i > 0 {
            text.append(", ");
        }
        assert(decreases_to!(exprs@ => exprs@[i as int]));
        text.append(exprs[i].to_string().as_str());
        i += 1;
        assert(text@ =~= exprs_text(exprs_view(exprs@), i as nat));
    }
    text
}

fn preds_to_string(preds: &[Predicate]) -> (r: String)
    ensures
        r@ == preds_text(preds_view(preds@), preds@.len()),
    decreases preds@,
{
    let mut text: String = String::new();
    let mut i: usize = 0;
    assert(text@ =~= preds_text(preds_view(preds@), 0));
    while i < preds.len()
        invariant
            i <= preds.len(),
            text@ == preds_text(preds_view(preds@), i as nat),
        decreases preds.len() - i,
    {
        if i > 0 {
            text.append(", ");
        }
        assert(decreases_to!(preds@ => preds@[i as int]));
        text.append(preds[i].to_string().as_str());
        i += 1;
        assert(text@ =~= preds_text(preds_view(preds@), i as nat));
    }
    text
}

fn join(before: String, part: String) -> (r: String)
    ensures
        r@ == joined(before@, part@),
{
    if part.as_str().is_empty() {
        return before;
    }
    if before.as_str().is_empty() {
        return part;
    }
    let mut text: String = before;
    text.append(", ");
    text.append(part.as_str());
    text
}

impl ExpressionFieldPatch {
    fn to_string(&self) -> (r: String)
        ensures
            r@ == field_patch_text(self@),
        decreases self,
    {
        let mut text: String = String::new();
        if self.insertions.len() == 0 {
            if !self.keep_input {
                text.append("drop ");
                text.append(self.name.as_str());
            }
        } else {
            if self.keep_input {
                text.append("after ");
            } else {
                text.append("replace/after ");
            }
            text.append(self.name.as_str());
            text.append(" insert [");
            text.append(exprs_to_string(self.insertions.as_slice()).as_str());
            text.append("]");
        }
        assert(text@ =~= field_patch_text(self@));
        text
    }
}

/// What is inserted before or after all fields, given the inserted expressions as text.
fn inserted_to_string(what: &str, exprs: &[Expression], list: String) -> (r: String)
    requires
        list@ == exprs_text(exprs_view(exprs@), exprs@.len()),
    ensures
        r@ == inserted_text(what@, exprs_view(exprs@)),
{
    let mut text: String = String::new();
    if exprs.len() > 0 {
        text.append(what);
        text.append(" [");
        text.append(list.as_str());
        text.append("]");
    }
    assert(text@ =~= inserted_text(what@, exprs_view(exprs@)));
    text
}

impl ExpressionStructPatch {
    fn to_string(&self) -> (r: String)
        ensures
            r@ == patch_text(self@),
        decreases self,
    {
        let prepended: String = inserted_to_string(
            "prepend",
            self.prepended_fields.as_slice(),
            exprs_to_string(self.prepended_fields.as_slice()),
        );
        let ghost first = prepended@;
        let mut text: String = prepended;
        let mut i: usize = 0;
        while i < self.field_patches.len()
            invariant
                i <= self.field_patches.len(),
                text@ == patches_text(first, self@.patches, i as nat),
            decreases self.field_patches.len() - i,
        {
            assert(decreases_to!(self.field_patches@ => self.field_patches@[i as int]));
            text = join(text, self.field_patches[i].to_string());
            i += 1;
        }
        let appended: String = inserted_to_string(
            "append",
            self.appended_fields.as_slice(),
            exprs_to_string(self.appended_fields.as_slice()),
        );
        join(text, appended)
    }
}

impl Expression {
    /// The expression as text.
    pub fn to_string(&self) -> (r: String)
        ensures
            r@ == expr_text(self@),
        decreases self,
    {
        let mut text: String = String::new();
        match self {
            Expression::Literal(value) => {
                value.push_text(&mut text);
            },
            Expression::Column(name) => {
                text.append("Column(");
                text.append(name.to_string().as_str());
                text.append(")");
            },
            Expression::Predicate(pred) => {
                text.append(pred.to_string().as_str());
            },
            Expression::Struct(exprs, _) => {
                text.append("Struct(");
                text.append(exprs_to_string(exprs.as_slice()).as_str());
                text.append(")");
            },
            Expression::StructPatch(patch) => {
                text.append("StructPatch(");
                text.append(patch.to_string().as_str());
                text.append(")");
            },
            Expression::Unary(e) => {
                text.append(e.op.to_str());
                text.append("(");
                text.append(e.expr.to_string().as_str());
                text.append(")");
            },
            Expression::Binary(e) => {
                text.append(e.left.to_string().as_str());
                text.append(" ");
                text.append(e.op.to_str());
                text.append(" ");
                text.append(e.right.to_string().as_str());
            },
            Expression::Variadic(e) => {
                text.append(e.op.to_str());
                text.append("(");
                text.append(exprs_to_string(e.exprs.as_slice()).as_str());
                text.append(")");
            },
            Expression::Opaque(e) => {
                text.append(e.op.text.as_str());
                text.append("(");
                text.append(exprs_to_string(e.exprs.as_slice()).as_str());
                text.append(")");
            },
            Expression::Unknown(name) => {
                text.append("<unknown: ");
                text.append(name.as_str());
                text.append(">");
            },
            Expression::ParseJson(e) => {
                text.append("PARSE_JSON(");
                text.append(e.json_expr.to_string().as_str());
                text.append(", <schema:");
                push_decimal(&mut text, e.output_schema.num_fields() as i128);
                text.append(" fields>)");
            },
            Expression::MapToStruct(e) => {
                text.append("MAP_TO_STRUCT(");
                text.append(e.map_expr.to_string().as_str());
                text.append(")");
            },
            Expression::Cast(e) => {
                text.append("CAST(");
                text.append(e.expr.to_string().as_str());
                text.append(" AS ");
                text.append(e.target.to_string().as_str());
                text.append(")");
            },
        }
        assert(text@ =~= expr_text(self@));
        text
    }
}

impl Predicate {
    /// The predicate as text.
    pub fn to_string(&self) -> (r: String)
        ensures
            r@ == pred_text(self@),
        decreases self,
    {
        let mut text: String = String::new();
        match self {
            Predicate::BooleanExpression(expr) => {
                text.append(expr.to_string().as_str());
            },
            Predicate::Not(pred) => {
                text.append("NOT(");
                text.append(pred.to_string().as_str());
                text.append(")");
            },
            Predicate::Unary(p) => {
                text.append(p.expr.to_string().as_str());
                text.append(" IS NULL");
            },
            Predicate::Binary(p) => {
                if matches!(p.op, BinaryPredicateOp::Distinct) {
                    text.append("DISTINCT(");
                    text.append(p.left.to_string().as_str());
                    text.append(", ");
                    text.append(p.right.to_string().as_str());
                    text.append(")");
                } else {
                    text.append(p.left.to_string().as_str());
                    text.append(" ");
                    text.append(p.op.to_str());
                    text.append(" ");
                    text.append(p.right.to_string().as_str());
                }
            },
            Predicate::Junction(p) => {
                text.append(p.op.to_str());
                text.append("(");
                text.append(preds_to_string(p.preds.as_slice()).as_str());
                text.append(")");
            },
            Predicate::Opaque(p) => {
                text.append(p.op.text.as_str());
                text.append("(");
                text.append(exprs_to_string(p.exprs.as_slice()).as_str());
                text.append(")");
            },
            Predicate::Unknown(name) => {
                text.append("<unknown: ");
                text.append(name.as_str());
                text.append(">");
            },
        }
        assert(text@ =~= pred_text(self@));
        text
    }
}

} // verus!
