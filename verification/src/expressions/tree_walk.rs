//! Walks over expressions and predicates: the columns that they refer to, copies, and equality.

use vstd::prelude::*;
use vstd::std_specs::cmp::PartialEqSpecImpl;

use super::column_names::ColumnName;
use super::scalars::physically_equal;
use super::tree::{
    exprs_view, patches_view, preds_view, BinaryExpression, BinaryPredicate, CastExpression,
    ExprView, Expression, ExpressionFieldPatch, ExpressionStructPatch, FieldPatchView,
    JunctionPredicate, MapToStructExpression, OpaqueExpression, OpaqueOp, OpaquePredicate,
    ParseJsonExpression, PatchView, PredView, Predicate, UnaryExpression, UnaryPredicate,
    VariadicExpression,
};

verus! {

// ---------------------------------------------------------------------------------------------
// References
// ---------------------------------------------------------------------------------------------

/// Whether an expression refers to a column.
pub open spec fn expr_refers(expr: ExprView, column: Seq<Seq<char>>) -> bool
    decreases expr,
{
    match expr {
        ExprView::Literal(_) => false,
        ExprView::Column(path) => path == column,
        ExprView::Predicate(pred) => pred_refers(*pred, column),
        ExprView::Struct(exprs, nullability) => exprs_refer(exprs, column)
            || match nullability {
            Some(inner) => expr_refers(*inner, column),
            None => false,
        },
        ExprView::StructPatch(patch) => patch_refers(patch, column),
        ExprView::Unary(_, inner) => expr_refers(*inner, column),
        ExprView::Binary(_, left, right) => expr_refers(*left, column) || expr_refers(
            *right,
            column,
        ),
        ExprView::Variadic(_, exprs) => exprs_refer(exprs, column),
        ExprView::Opaque(_, exprs) => exprs_refer(exprs, column),
        ExprView::Unknown(_) => false,
        ExprView::ParseJson(inner, _) => expr_refers(*inner, column),
        ExprView::MapToStruct(inner) => expr_refers(*inner, column),
        ExprView::Cast(inner, _) => expr_refers(*inner, column),
    }
}

/// Whether a predicate refers to a column.
pub open spec fn pred_refers(pred: PredView, column: Seq<Seq<char>>) -> bool
    decreases pred,
{
    match pred {
        PredView::BooleanExpression(expr) => expr_refers(*expr, column),
        PredView::Not(inner) => pred_refers(*inner, column),
        PredView::Unary(_, expr) => expr_refers(*expr, column),
        PredView::Binary(_, left, right) => expr_refers(*left, column) || expr_refers(
            *right,
            column,
        ),
        PredView::Junction(_, preds) => preds_refer(preds, column),
        PredView::Opaque(_, exprs) => exprs_refer(exprs, column),
        PredView::Unknown(_) => false,
    }
}

/// Whether one of some expressions refers to a column.
pub open spec fn exprs_refer(exprs: Seq<ExprView>, column: Seq<Seq<char>>) -> bool
    decreases exprs,
{
    exists|i: int| 0 <= i < exprs.len() && expr_refers(#[trigger] exprs[i], column)
}

/// Whether one of some predicates refers to a column.
pub open spec fn preds_refer(preds: Seq<PredView>, column: Seq<Seq<char>>) -> bool
    decreases preds,
{
    exists|i: int| 0 <= i < preds.len() && pred_refers(#[trigger] preds[i], column)
}

/// Whether changes to the fields of a struct refer to a column.
pub open spec fn patch_refers(patch: PatchView, column: Seq<Seq<char>>) -> bool
    decreases patch,
{
    ||| exprs_refer(patch.prepended, column)
    ||| exists|i: int|
        0 <= i < patch.patches.len() && field_patch_refers(#[trigger] patch.patches[i], column)
    ||| exprs_refer(patch.appended, column)
}

/// Whether what is inserted after a field refers to a column.
pub open spec fn field_patch_refers(patch: FieldPatchView, column: Seq<Seq<char>>) -> bool
    decreases patch,
{
    exprs_refer(patch.insertions, column)
}

/// Whether a column is in a list.
pub open spec fn lists(columns: Seq<ColumnName>, column: Seq<Seq<char>>) -> bool {
    exists|i: int| 0 <= i < columns.len() && (#[trigger] columns[i])@ == column
}

/// No column is in a list twice.
pub open spec fn lists_once(columns: Seq<ColumnName>) -> bool {
    forall|i: int, j: int|
        #![trigger columns[i], columns[j]]
        0 <= i < j < columns.len() ==> columns[i]@ != columns[j]@
}

fn note_column(columns: &mut Vec<ColumnName>, name: &ColumnName)
    requires
        lists_once(old(columns)@),
    ensures
        lists_once(final(columns)@),
        forall|column: Seq<Seq<char>>| #[trigger]
            lists(final(columns)@, column) <==> lists(old(columns)@, column) || column == name@,
{
    let mut i: usize = 0;
    while i < columns.len()
        invariant
            i <= columns.len(),
            columns@ == old(columns)@,
            lists_once(columns@),
            forall|j: int| 0 <= j < i ==> (#[trigger] columns@[j])@ != name@,
        decreases columns.len() - i,
    {
        if columns[i].same(name) {
            assert(lists(columns@, name@));
            return;
        }
        i += 1;
    }
    columns.push(name.clone());
    proof {
        let before = old(columns)@;
        assert forall|column: Seq<Seq<char>>| #[trigger]
            lists(columns@, column) <==> lists(before, column) || column == name@ by {
            if lists(before, column) {
                let k = choose|k: int| 0 <= k < before.len() && (#[trigger] before[k])@ == column;
                assert(columns@[k]@ == column);
            }
            assert(columns@[before.len() as int]@ == name@);
            if lists(columns@, column) {
                let k = choose|k: int|
                    0 <= k < columns@.len() && (#[trigger] columns@[k])@ == column;
                if k < before.len() {
                    assert(before[k]@ == column);
                }
            }
        }
    }
}

fn note_exprs(columns: &mut Vec<ColumnName>, exprs: &[Expression])
    requires
        lists_once(old(columns)@),
    ensures
        lists_once(final(columns)@),
        forall|column: Seq<Seq<char>>| #[trigger]
            lists(final(columns)@, column) <==> lists(old(columns)@, column) || exprs_refer(
                exprs_view(exprs@),
                column,
            ),
    decreases exprs@,
{
    let mut i: usize = 0;
    while i < exprs.len()
        invariant
            i <= exprs.len(),
            lists_once(columns@),
            forall|column: Seq<Seq<char>>| #[trigger]
                lists(columns@, column) <==> lists(old(columns)@, column) || exists|k: int|
                    0 <= k < i && expr_refers(#[trigger] exprs_view(exprs@)[k], column),
        decreases exprs.len() - i,
    {
        let ghost before = columns@;
        assert(decreases_to!(exprs@ => exprs@[i as int]));
        exprs[i].note_references(columns);
        proof {
            assert forall|column: Seq<Seq<char>>| #[trigger]
                lists(columns@, column) <==> lists(old(columns)@, column) || exists|k: int|
                    0 <= k < i + 1 && expr_refers(#[trigger] exprs_view(exprs@)[k], column) by {
                assert(lists(columns@, column) <==> lists(before, column) || expr_refers(
                    exprs_view(exprs@)[i as int],
                    column,
                ));
            }
        }
        i += 1;
    }
}

fn note_preds(columns: &mut Vec<ColumnName>, preds: &[Predicate])
    requires
        lists_once(old(columns)@),
    ensures
        lists_once(final(columns)@),
        forall|column: Seq<Seq<char>>| #[trigger]
            lists(final(columns)@, column) <==> lists(old(columns)@, column) || preds_refer(
                preds_view(preds@),
                column,
            ),
    decreases preds@,
{
    let mut i: usize = 0;
    while i < preds.len()
        invariant
            i <= preds.len(),
            lists_once(columns@),
            forall|column: Seq<Seq<char>>| #[trigger]
                lists(columns@, column) <==> lists(old(columns)@, column) || exists|k: int|
                    0 <= k < i && pred_refers(#[trigger] preds_view(preds@)[k], column),
        decreases preds.len() - i,
    {
        let ghost before = columns@;
        assert(decreases_to!(preds@ => preds@[i as int]));
        preds[i].note_references(columns);
        proof {
            assert forall|column: Seq<Seq<char>>| #[trigger]
                lists(columns@, column) <==> lists(old(columns)@, column) || exists|k: int|
                    0 <= k < i + 1 && pred_refers(#[trigger] preds_view(preds@)[k], column) by {
                assert(lists(columns@, column) <==> lists(before, column) || pred_refers(
                    preds_view(preds@)[i as int],
                    column,
                ));
            }
        }
        i += 1;
    }
}

impl ExpressionStructPatch {
    fn note_references(&self, columns: &mut Vec<ColumnName>)
        requires
            lists_once(old(columns)@),
        ensures
            lists_once(final(columns)@),
            forall|column: Seq<Seq<char>>| #[trigger]
                lists(final(columns)@, column) <==> lists(old(columns)@, column) || patch_refers(
                    self@,
                    column,
                ),
        decreases self,
    {
        note_exprs(columns, self.prepended_fields.as_slice());
        let ghost first = columns@;
        let mut i: usize = 0;
        while i < self.field_patches.len()
            invariant
                i <= self.field_patches.len(),
                lists_once(columns@),
                forall|column: Seq<Seq<char>>| #[trigger]
                    lists(columns@, column) <==> lists(first, column) || exists|k: int|
                        0 <= k < i && field_patch_refers(#[trigger] self@.patches[k], column),
            decreases self.field_patches.len() - i,
        {
            let ghost before = columns@;
            assert(decreases_to!(self.field_patches@ => self.field_patches@[i as int]));
            note_exprs(columns, self.field_patches[i].insertions.as_slice());
            proof {
                assert forall|column: Seq<Seq<char>>| #[trigger]
                    lists(columns@, column) <==> lists(first, column) || exists|k: int|
                        0 <= k < i + 1 && field_patch_refers(
                            #[trigger] self@.patches[k],
                            column,
                        ) by {
                    assert(lists(columns@, column) <==> lists(before, column)
                        || field_patch_refers(self@.patches[i as int], column));
                }
            }
            i += 1;
        }
        let ghost second = columns@;
        note_exprs(columns, self.appended_fields.as_slice());
        proof {
            assert forall|column: Seq<Seq<char>>| #[trigger]
                lists(columns@, column) <==> lists(old(columns)@, column) || patch_refers(
                    self@,
                    column,
                ) by {
                assert(lists(second, column) <==> lists(first, column) || exists|k: int|
                    0 <= k < self@.patches.len() && field_patch_refers(
                        #[trigger] self@.patches[k],
                        column,
                    ));
                assert(lists(first, column) <==> lists(old(columns)@, column) || exprs_refer(
                    self@.prepended,
                    column,
                ));
            }
        }
    }
}

impl Expression {
    fn note_references(&self, columns: &mut Vec<ColumnName>)
        requires
            lists_once(old(columns)@),
        ensures
            lists_once(final(columns)@),
            forall|column: Seq<Seq<char>>| #[trigger]
                lists(final(columns)@, column) <==> lists(old(columns)@, column) || expr_refers(
                    self@,
                    column,
                ),
        decreases self,
    {
        match self {
            Expression::Literal(_) => {},
            Expression::Column(name) => note_column(columns, name),
            Expression::Predicate(pred) => pred.note_references(columns),
            Expression::Struct(exprs, nullability) => {
                note_exprs(columns, exprs.as_slice());
                if let Some(expr) = nullability {
                    expr.note_references(columns);
                }
            },
            Expression::StructPatch(patch) => patch.note_references(columns),
            Expression::Unary(e) => e.expr.note_references(columns),
            Expression::Binary(e) => {
                e.left.note_references(columns);
                e.right.note_references(columns);
            },
            Expression::Variadic(e) => note_exprs(columns, e.exprs.as_slice()),
            Expression::Opaque(e) => note_exprs(columns, e.exprs.as_slice()),
            Expression::Unknown(_) => {},
            Expression::ParseJson(e) => e.json_expr.note_references(columns),
            Expression::MapToStruct(e) => e.map_expr.note_references(columns),
            Expression::Cast(e) => e.expr.note_references(columns),
        }
    }

    /// The columns that the expression refers to, each once.
    pub fn references(&self) -> (r: Vec<ColumnName>)
        ensures
            lists_once(r@),
            forall|column: Seq<Seq<char>>| #[trigger]
                lists(r@, column) <==> expr_refers(self@, column),
    {
        let mut columns: Vec<ColumnName> = Vec::new();
        self.note_references(&mut columns);
        columns
    }
}

impl Predicate {
    fn note_references(&self, columns: &mut Vec<ColumnName>)
        requires
            lists_once(old(columns)@),
        ensures
            lists_once(final(columns)@),
            forall|column: Seq<Seq<char>>| #[trigger]
                lists(final(columns)@, column) <==> lists(old(columns)@, column) || pred_refers(
                    self@,
                    column,
                ),
        decreases self,
    {
        match self {
            Predicate::BooleanExpression(expr) => expr.note_references(columns),
            Predicate::Not(pred) => pred.note_references(columns),
            Predicate::Unary(p) => p.expr.note_references(columns),
            Predicate::Binary(p) => {
                p.left.note_references(columns);
                p.right.note_references(columns);
            },
            Predicate::Junction(p) => note_preds(columns, p.preds.as_slice()),
            Predicate::Opaque(p) => note_exprs(columns, p.exprs.as_slice()),
            Predicate::Unknown(_) => {},
        }
    }

    /// The columns that the predicate refers to, each once.
    pub fn references(&self) -> (r: Vec<ColumnName>)
        ensures
            lists_once(r@),
            forall|column: Seq<Seq<char>>| #[trigger]
                lists(r@, column) <==> pred_refers(self@, column),
    {
        let mut columns: Vec<ColumnName> = Vec::new();
        self.note_references(&mut columns);
        columns
    }
}

// ---------------------------------------------------------------------------------------------
// Copies
// ---------------------------------------------------------------------------------------------

impl Clone for OpaqueOp {
    fn clone(&self) -> (r: OpaqueOp)
        ensures
            r@ == self@,
    {
        OpaqueOp { name: self.name.clone(), text: self.text.clone() }
    }
}

fn exprs_clone(exprs: &[Expression]) -> (r: Vec<Expression>)
    ensures
        exprs_view(r@) == exprs_view(exprs@),
    decreases exprs@,
{
    let mut r: Vec<Expression> = Vec::new();
    let mut i: usize = 0;
    while i < exprs.len()
        invariant
            i <= exprs.len(),
            r@.len() == i,
            forall|j: int| 0 <= j < i ==> (#[trigger] r@[j])@ == exprs@[j]@,
        decreases exprs.len() - i,
    {
        assert(decreases_to!(exprs@ => exprs@[i as int]));
        r.push(exprs[i].clone());
        i += 1;
    }
    assert(exprs_view(r@) =~= exprs_view(exprs@));
    r
}

fn preds_clone(preds: &[Predicate]) -> (r: Vec<Predicate>)
    ensures
        preds_view(r@) == preds_view(preds@),
    decreases preds@,
{
    let mut r: Vec<Predicate> = Vec::new();
    let mut i: usize = 0;
    while i < preds.len()
        invariant
            i <= preds.len(),
            r@.len() == i,
            forall|j: int| 0 <= j < i ==> (#[trigger] r@[j])@ == preds@[j]@,
        decreases preds.len() - i,
    {
        assert(decreases_to!(preds@ => preds@[i as int]));
        r.push(preds[i].clone());
        i += 1;
    }
    assert(preds_view(r@) =~= preds_view(preds@));
    r
}

impl Clone for ExpressionFieldPatch {
    fn clone(&self) -> (r: ExpressionFieldPatch)
        ensures
            r@ == self@,
        decreases self,
    {
        ExpressionFieldPatch {
            name: self.name.clone(),
            keep_input: self.keep_input,
            insertions: exprs_clone(self.insertions.as_slice()),
        }
    }
}

fn patches_clone(patches: &[ExpressionFieldPatch]) -> (r: Vec<ExpressionFieldPatch>)
    ensures
        patches_view(r@) == patches_view(patches@),
    decreases patches@,
{
    let mut r: Vec<ExpressionFieldPatch> = Vec::new();
    let mut i: usize = 0;
    while i < patches.len()
        invariant
            i <= patches.len(),
            r@.len() == i,
            forall|j: int| 0 <= j < i ==> (#[trigger] r@[j])@ == patches@[j]@,
        decreases patches.len() - i,
    {
        assert(decreases_to!(patches@ => patches@[i as int]));
        r.push(patches[i].clone());
        i += 1;
    }
    assert(patches_view(r@) =~= patches_view(patches@));
    r
}

impl Clone for ExpressionStructPatch {
    fn clone(&self) -> (r: ExpressionStructPatch)
        ensures
            r@ == self@,
        decreases self,
    {
        ExpressionStructPatch {
            prepended_fields: exprs_clone(self.prepended_fields.as_slice()),
            field_patches: patches_clone(self.field_patches.as_slice()),
            appended_fields: exprs_clone(self.appended_fields.as_slice()),
        }
    }
}

impl Clone for Expression {
    fn clone(&self) -> (r: Expression)
        ensures
            r@ == self@,
        decreases self,
    {
        match self {
            Expression::Literal(value) => Expression::Literal(value.clone()),
            Expression::Column(name) => Expression::Column(name.clone()),
            Expression::Predicate(pred) => Expression::Predicate(Box::new((**pred).clone())),
            Expression::Struct(exprs, nullability) => Expression::Struct(
                exprs_clone(exprs.as_slice()),
                match nullability {
                    Some(expr) => Some(Box::new((**expr).clone())),
                    None => None,
                },
            ),
            Expression::StructPatch(patch) => Expression::StructPatch(patch.clone()),
            Expression::Unary(e) => Expression::Unary(
                UnaryExpression::new(e.op, (*e.expr).clone()),
            ),
            Expression::Binary(e) => Expression::Binary(
                BinaryExpression::new(e.op, (*e.left).clone(), (*e.right).clone()),
            ),
            Expression::Variadic(e) => Expression::Variadic(
                VariadicExpression::new(e.op, exprs_clone(e.exprs.as_slice())),
            ),
            Expression::Opaque(e) => Expression::Opaque(
                OpaqueExpression::new(e.op.clone(), exprs_clone(e.exprs.as_slice())),
            ),
            Expression::Unknown(name) => Expression::Unknown(name.clone()),
            Expression::ParseJson(e) => Expression::ParseJson(
                ParseJsonExpression::new((*e.json_expr).clone(), (*e.output_schema).clone()),
            ),
            Expression::MapToStruct(e) => Expression::MapToStruct(
                MapToStructExpression::new((*e.map_expr).clone()),
            ),
            Expression::Cast(e) => Expression::Cast(
                CastExpression::new((*e.expr).clone(), e.target.clone()),
            ),
        }
    }
}

impl Clone for Predicate {
    fn clone(&self) -> (r: Predicate)
        ensures
            r@ == self@,
        decreases self,
    {
        match self {
            Predicate::BooleanExpression(expr) => Predicate::BooleanExpression(expr.clone()),
            Predicate::Not(pred) => Predicate::Not(Box::new((**pred).clone())),
            Predicate::Unary(p) => Predicate::Unary(UnaryPredicate::new(p.op, (*p.expr).clone())),
            Predicate::Binary(p) => Predicate::Binary(
                BinaryPredicate::new(p.op, (*p.left).clone(), (*p.right).clone()),
            ),
            Predicate::Junction(p) => Predicate::Junction(
                JunctionPredicate::new(p.op, preds_clone(p.preds.as_slice())),
            ),
            Predicate::Opaque(p) => Predicate::Opaque(
                OpaquePredicate::new(p.op.clone(), exprs_clone(p.exprs.as_slice())),
            ),
            Predicate::Unknown(name) => Predicate::Unknown(name.clone()),
        }
    }
}

// ---------------------------------------------------------------------------------------------
// Equality
// ---------------------------------------------------------------------------------------------

/// Whether two expressions are the same, part by part.
pub open spec fn same_expr(a: ExprView, b: ExprView) -> bool
    decreases a,
{
    match (a, b) {
        (ExprView::Literal(x), ExprView::Literal(y)) => physically_equal(x, y),
        (ExprView::Column(x), ExprView::Column(y)) => x == y,
        (ExprView::Predicate(x), ExprView::Predicate(y)) => same_pred(*x, *y),
        (ExprView::Struct(x, p), ExprView::Struct(y, q)) => same_exprs(x, y) && match (p, q) {
            (Some(u), Some(v)) => same_expr(*u, *v),
            (None, None) => true,
            _ => false,
        },
        (ExprView::StructPatch(x), ExprView::StructPatch(y)) => same_patch(x, y),
        (ExprView::Unary(op, x), ExprView::Unary(other, y)) => op == other && same_expr(*x, *y),
        (ExprView::Binary(op, x, u), ExprView::Binary(other, y, v)) => op == other && same_expr(
            *x,
            *y,
        ) && same_expr(*u, *v),
        (ExprView::Variadic(op, x), ExprView::Variadic(other, y)) => op == other && same_exprs(
            x,
            y,
        ),
        (ExprView::Opaque(op, x), ExprView::Opaque(other, y)) => op == other && same_exprs(x, y),
        (ExprView::Unknown(x), ExprView::Unknown(y)) => x == y,
        (ExprView::ParseJson(x, schema), ExprView::ParseJson(y, other)) => same_expr(*x, *y)
            && schema == other,
        (ExprView::MapToStruct(x), ExprView::MapToStruct(y)) => same_expr(*x, *y),
        (ExprView::Cast(x, ty), ExprView::Cast(y, other)) => same_expr(*x, *y) && ty == other,
        _ => false,
    }
}

/// Whether two predicates are the same, part by part.
pub open spec fn same_pred(a: PredView, b: PredView) -> bool
    decreases a,
{
    match (a, b) {
        (PredView::BooleanExpression(x), PredView::BooleanExpression(y)) => same_expr(*x, *y),
        (PredView::Not(x), PredView::Not(y)) => same_pred(*x, *y),
        (PredView::Unary(op, x), PredView::Unary(other, y)) => op == other && same_expr(*x, *y),
        (PredView::Binary(op, x, u), PredView::Binary(other, y, v)) => op == other && same_expr(
            *x,
            *y,
        ) && same_expr(*u, *v),
        (PredView::Junction(op, x), PredView::Junction(other, y)) => op == other && same_preds(
            x,
            y,
        ),
        (PredView::Opaque(op, x), PredView::Opaque(other, y)) => op == other && same_exprs(x, y),
        (PredView::Unknown(x), PredView::Unknown(y)) => x == y,
        _ => false,
    }
}

/// Whether two lists hold the same expressions.
pub open spec fn same_exprs(x: Seq<ExprView>, y: Seq<ExprView>) -> bool
    decreases x,
{
    &&& x.len() == y.len()
    &&& forall|i: int| #![trigger x[i], y[i]] 0 <= i < x.len() ==> same_expr(x[i], y[i])
}

/// Whether two lists hold the same predicates.
pub open spec fn same_preds(x: Seq<PredView>, y: Seq<PredView>) -> bool
    decreases x,
{
    &&& x.len() == y.len()
    &&& forall|i: int| #![trigger x[i], y[i]] 0 <= i < x.len() ==> same_pred(x[i], y[i])
}

/// Whether the same happens to two fields.
pub open spec fn same_field_patch(a: FieldPatchView, b: FieldPatchView) -> bool
    decreases a,
{
    &&& a.name == b.name
    &&& a.keep_input == b.keep_input
    &&& same_exprs(a.insertions, b.insertions)
}

/// Whether the same happens to two lists of fields.
pub open spec fn same_field_patches(x: Seq<FieldPatchView>, y: Seq<FieldPatchView>) -> bool
    decreases x,
{
    &&& x.len() == y.len()
    &&& forall|i: int| #![trigger x[i], y[i]] 0 <= i < x.len() ==> same_field_patch(x[i], y[i])
}

/// Whether two changes to the fields of a struct are the same.
pub open spec fn same_patch(a: PatchView, b: PatchView) -> bool
    decreases a,
{
    &&& same_exprs(a.prepended, b.prepended)
    &&& same_field_patches(a.patches, b.patches)
    &&& same_exprs(a.appended, b.appended)
}

impl OpaqueOp {
    /// Whether two operators are the same.
    pub fn same(&self, other: &OpaqueOp) -> (r: bool)
        ensures
            r == (self@ == other@),
    {
        self.name == other.name && self.text == other.text
    }
}

fn exprs_same(a: &[Expression], b: &[Expression]) -> (r: bool)
    ensures
        r == same_exprs(exprs_view(a@), exprs_view(b@)),
    decreases a@,
{
    if a.len() != b.len() {
        return false;
    }
    let mut i: usize = 0;
    while i < a.len()
        invariant
            i <= a.len(),
            a.len() == b.len(),
            forall|j: int|
                #![trigger exprs_view(a@)[j], exprs_view(b@)[j]]
                0 <= j < i ==> same_expr(exprs_view(a@)[j], exprs_view(b@)[j]),
        decreases a.len() - i,
    {
        assert(decreases_to!(a@ => a@[i as int]));
        if !a[i].same(&b[i]) {
            assert(!same_expr(exprs_view(a@)[i as int], exprs_view(b@)[i as int]));
            return false;
        }
        i += 1;
    }
    true
}

fn preds_same(a: &[Predicate], b: &[Predicate]) -> (r: bool)
    ensures
        r == same_preds(preds_view(a@), preds_view(b@)),
    decreases a@,
{
    if a.len() != b.len() {
        return false;
    }
    let mut i: usize = 0;
    while i < a.len()
        invariant
            i <= a.len(),
            a.len() == b.len(),
            forall|j: int|
                #![trigger preds_view(a@)[j], preds_view(b@)[j]]
                0 <= j < i ==> same_pred(preds_view(a@)[j], preds_view(b@)[j]),
        decreases a.len() - i,
    {
        assert(decreases_to!(a@ => a@[i as int]));
        if !a[i].same(&b[i]) {
            assert(!same_pred(preds_view(a@)[i as int], preds_view(b@)[i as int]));
            return false;
        }
        i += 1;
    }
    true
}

fn patches_same(a: &[ExpressionFieldPatch], b: &[ExpressionFieldPatch]) -> (r: bool)
    ensures
        r == same_field_patches(patches_view(a@), patches_view(b@)),
    decreases a@,
{
    if a.len() != b.len() {
        return false;
    }
    let mut i: usize = 0;
    while i < a.len()
        invariant
            i <= a.len(),
            a.len() == b.len(),
            forall|j: int|
                #![trigger patches_view(a@)[j], patches_view(b@)[j]]
                0 <= j < i ==> same_field_patch(patches_view(a@)[j], patches_view(b@)[j]),
        decreases a.len() - i,
    {
        assert(decreases_to!(a@ => a@[i as int]));
        let same: bool = a[i].name == b[i].name && a[i].keep_input == b[i].keep_input
            && exprs_same(a[i].insertions.as_slice(), b[i].insertions.as_slice());
        if !same {
            assert(!same_field_patch(patches_view(a@)[i as int], patches_view(b@)[i as int]));
            return false;
        }
        i += 1;
    }
    true
}

impl ExpressionStructPatch {
    /// Whether two changes are the same.
    pub fn same(&self, other: &ExpressionStructPatch) -> (r: bool)
        ensures
            r == same_patch(self@, other@),
        decreases self,
    {
        exprs_same(self.prepended_fields.as_slice(), other.prepended_fields.as_slice())
            && patches_same(self.field_patches.as_slice(), other.field_patches.as_slice())
            && exprs_same(self.appended_fields.as_slice(), other.appended_fields.as_slice())
    }
}

impl Expression {
    /// Whether two expressions are the same, part by part.
    pub fn same(&self, other: &Expression) -> (r: bool)
        ensures
            r == same_expr(self@, other@),
        decreases self,
    {
        match (self, other) {
            (Expression::Literal(a), Expression::Literal(b)) => a.physical_eq(b),
            (Expression::Column(a), Expression::Column(b)) => a.same(b),
            (Expression::Predicate(a), Expression::Predicate(b)) => a.same(b),
            (Expression::Struct(a, p), Expression::Struct(b, q)) => exprs_same(
                a.as_slice(),
                b.as_slice(),
            ) && match (p, q) {
                (Some(u), Some(v)) => u.same(v),
                (None, None) => true,
                _ => false,
            },
            (Expression::StructPatch(a), Expression::StructPatch(b)) => a.same(b),
            (Expression::Unary(a), Expression::Unary(b)) => a.op == b.op && a.expr.same(&b.expr),
            (Expression::Binary(a), Expression::Binary(b)) => a.op == b.op && a.left.same(
                &b.left,
            ) && a.right.same(&b.right),
            (Expression::Variadic(a), Expression::Variadic(b)) => a.op == b.op && exprs_same(
                a.exprs.as_slice(),
                b.exprs.as_slice(),
            ),
            (Expression::Opaque(a), Expression::Opaque(b)) => a.op.same(&b.op) && exprs_same(
                a.exprs.as_slice(),
                b.exprs.as_slice(),
            ),
            (Expression::Unknown(a), Expression::Unknown(b)) => *a == *b,
            (Expression::ParseJson(a), Expression::ParseJson(b)) => a.json_expr.same(&b.json_expr)
                && a.output_schema.same(&b.output_schema),
            (Expression::MapToStruct(a), Expression::MapToStruct(b)) => a.map_expr.same(
                &b.map_expr,
            ),
            (Expression::Cast(a), Expression::Cast(b)) => a.expr.same(&b.expr) && a.target.same(
                &b.target,
            ),
            _ => false,
        }
    }
}

impl Predicate {
    /// Whether two predicates are the same, part by part.
    pub fn same(&self, other: &Predicate) -> (r: bool)
        ensures
            r == same_pred(self@, other@),
        decreases self,
    {
        match (self, other) {
            (Predicate::BooleanExpression(a), Predicate::BooleanExpression(b)) => a.same(b),
            (Predicate::Not(a), Predicate::Not(b)) => a.same(b),
            (Predicate::Unary(a), Predicate::Unary(b)) => a.op == b.op && a.expr.same(&b.expr),
            (Predicate::Binary(a), Predicate::Binary(b)) => a.op == b.op && a.left.same(&b.left)
                && a.right.same(&b.right),
            (Predicate::Junction(a), Predicate::Junction(b)) => a.op == b.op && preds_same(
                a.preds.as_slice(),
                b.preds.as_slice(),
            ),
            (Predicate::Opaque(a), Predicate::Opaque(b)) => a.op.same(&b.op) && exprs_same(
                a.exprs.as_slice(),
                b.exprs.as_slice(),
            ),
            (Predicate::Unknown(a), Predicate::Unknown(b)) => *a == *b,
            _ => false,
        }
    }
}

impl PartialEq for Expression {
    fn eq(&self, other: &Expression) -> (r: bool) {
        self.same(other)
    }
}

impl PartialEqSpecImpl for Expression {
    open spec fn obeys_eq_spec() -> bool {
        true
    }

    open spec fn eq_spec(&self, other: &Expression) -> bool {
        same_expr(self@, other@)
    }
}

impl PartialEq for Predicate {
    fn eq(&self, other: &Predicate) -> (r: bool) {
        self.same(other)
    }
}

impl PartialEqSpecImpl for Predicate {
    open spec fn obeys_eq_spec() -> bool {
        true
    }

    open spec fn eq_spec(&self, other: &Predicate) -> bool {
        same_pred(self@, other@)
    }
}

} // verus!
