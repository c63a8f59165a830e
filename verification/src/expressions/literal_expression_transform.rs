//! A row of literals from a schema and the values of its leaves.

use vstd::prelude::*;

use super::scalar_text::scalar_text;
use super::scalars::{scalars_view, Scalar, ScalarView};
use super::tree::{exprs_view, null_lit, ExprView, Expression};
use crate::error::DeltaResult;
use crate::schema::{DataType, FieldView, StructField, StructType, TypeView};

verus! {

/// Why no row could be made.
#[derive(Debug)]
pub enum Error {
    /// A value does not fit the schema.
    Schema(String),
    /// There are more values than leaves: the first of those too many.
    ExcessScalars(Scalar),
    /// There are fewer values than leaves.
    InsufficientScalars,
    /// No expression was made.
    EmptyStack,
    /// Something that is not supported.
    Unsupported(String),
}

impl Error {
    /// The error as text.
    pub open spec fn text(self) -> Seq<char> {
        match self {
            Error::Schema(message) => "Schema error: "@ + message@,
            Error::ExcessScalars(scalar) => "Excess scalar: "@ + scalar_text(scalar@)
                + " given for literal expression transform"@,
            Error::InsufficientScalars => "Too few scalars given for literal expression transform"@,
            Error::EmptyStack => "No Expression was created after performing the transform"@,
            Error::Unsupported(message) => "Unsupported operation: "@ + message@,
        }
    }

    /// The error as text.
    pub fn to_string(&self) -> (r: String)
        ensures
            r@ == self.text(),
    {
        match self {
            Error::Schema(message) => {
                let mut text: String = "Schema error: ".to_owned();
                text.append(message.as_str());
                text
            },
            Error::ExcessScalars(scalar) => {
                let mut text: String = "Excess scalar: ".to_owned();
                scalar.push_text(&mut text);
                text.append(" given for literal expression transform");
                text
            },
            Error::InsufficientScalars => {
                "Too few scalars given for literal expression transform".to_owned()
            },
            Error::EmptyStack => {
                "No Expression was created after performing the transform".to_owned()
            },
            Error::Unsupported(message) => {
                let mut text: String = "Unsupported operation: ".to_owned();
                text.append(message.as_str());
                text
            },
        }
    }
}

/// Why no row can be made.
pub enum Problem {
    /// A value does not fit the schema, as the text says.
    Schema(Seq<char>),
    /// There are more values than leaves: the first of those too many.
    Excess(ScalarView),
    /// There are fewer values than leaves.
    Insufficient,
}

/// Whether an error reports a problem.
pub open spec fn reports(error: Error, problem: Problem) -> bool {
    match problem {
        Problem::Schema(message) => error matches Error::Schema(m) && m@ == message,
        Problem::Excess(scalar) => error matches Error::ExcessScalars(s) && s@ == scalar,
        Problem::Insufficient => error is InsufficientScalars,
    }
}

/// The text that says that a value has another type than its leaf.
pub open spec fn mismatched(expected: TypeView, actual: TypeView) -> Seq<char> {
    "Mismatched scalar type while creating Expression: expected "@ + expected.text() + ", got "@
        + actual.text()
}

/// What becomes of a type, given the values from a position on: an expression, if there is one for
/// the type, and the position after the values that it took.
///
/// A struct becomes a struct; anything else takes one value, which has to be of its type. For
/// variants there are no values.
pub open spec fn type_literal(ty: TypeView, scalars: Seq<ScalarView>, from: nat) -> Result<
    (Option<ExprView>, nat),
    Problem,
>
    decreases ty, 0nat,
{
    match ty {
        TypeView::Struct(fields) => match struct_literal(fields, scalars, from) {
            Ok((expr, to)) => Ok((Some(expr), to)),
            Err(problem) => Err(problem),
        },
        TypeView::Variant(_) => Ok((None, from)),
        _ => if from >= scalars.len() {
            Err(Problem::Insufficient)
        } else if scalars[from as int].data_type() != ty {
            Err(Problem::Schema(mismatched(ty, scalars[from as int].data_type())))
        } else {
            Ok((Some(ExprView::Literal(scalars[from as int])), from + 1))
        },
    }
}

/// What becomes of the first `n` fields, given the values from a position on.
pub open spec fn fields_literal(
    fields: Seq<FieldView>,
    n: nat,
    scalars: Seq<ScalarView>,
    from: nat,
) -> Result<(Seq<ExprView>, nat), Problem>
    decreases fields, n,
{
    if n == 0 || n > fields.len() {
        Ok((Seq::empty(), from))
    } else {
        match fields_literal(fields, (n - 1) as nat, scalars, from) {
            Err(problem) => Err(problem),
            Ok((exprs, middle)) => match type_literal(fields[n - 1].ty, scalars, middle) {
                Err(problem) => Err(problem),
                Ok((Some(expr), to)) => Ok((exprs.push(expr), to)),
                Ok((None, to)) => Ok((exprs, to)),
            },
        }
    }
}

/// Whether an expression is a null value.
pub open spec fn is_null_literal(expr: ExprView) -> bool {
    expr matches ExprView::Literal(ScalarView::Null(_))
}

/// Whether a field that must not be null has a null value.
pub open spec fn has_misplaced_null(fields: Seq<FieldView>, exprs: Seq<ExprView>) -> bool {
    exists|i: int|
        0 <= i < exprs.len() && #[trigger] is_null_literal(exprs[i]) && !fields[i].nullable
}

/// Whether all values are null.
pub open spec fn all_null(exprs: Seq<ExprView>) -> bool {
    forall|i: int| 0 <= i < exprs.len() ==> #[trigger] is_null_literal(exprs[i])
}

/// What becomes of a struct, given the values from a position on.
///
/// Where all values are null though one must not be, the struct itself is null.
pub open spec fn struct_literal(
    fields: Seq<FieldView>,
    scalars: Seq<ScalarView>,
    from: nat,
) -> Result<(ExprView, nat), Problem>
    decreases fields, fields.len() + 1,
{
    match fields_literal(fields, fields.len(), scalars, from) {
        Err(problem) => Err(problem),
        Ok((exprs, to)) => if exprs.len() != fields.len() {
            Err(Problem::Insufficient)
        } else if !has_misplaced_null(fields, exprs) {
            Ok((ExprView::Struct(exprs, None), to))
        } else if all_null(exprs) {
            Ok((ExprView::Literal(ScalarView::Null(TypeView::Struct(fields))), to))
        } else {
            Err(
                Problem::Schema(
                    "NULL value for non-nullable struct field with non-NULL siblings"@,
                ),
            )
        },
    }
}

/// The row that a schema and the values of its leaves make up.
pub open spec fn row_literal(fields: Seq<FieldView>, scalars: Seq<ScalarView>) -> Result<
    ExprView,
    Problem,
> {
    match struct_literal(fields, scalars, 0) {
        Err(problem) => Err(problem),
        Ok((expr, to)) => if to < scalars.len() {
            Err(Problem::Excess(scalars[to as int]))
        } else {
            Ok(expr)
        },
    }
}

fn mismatch_error(expected: &DataType, actual: &DataType) -> (r: Error)
    ensures
        reports(r, Problem::Schema(mismatched(expected@, actual@))),
{
    let mut message: String =
        "Mismatched scalar type while creating Expression: expected ".to_owned();
    message.append(expected.to_string().as_str());
    message.append(", got ");
    message.append(actual.to_string().as_str());
    Error::Schema(message)
}

fn transform_type(data_type: &DataType, scalars: &[Scalar], from: usize) -> (r: Result<
    (Option<Expression>, usize),
    Error,
>)
    requires
        from <= scalars@.len(),
    ensures
        match (r, type_literal(data_type@, scalars_view(scalars@), from as nat)) {
            (Ok((Some(expr), to)), Ok((Some(expected), end))) => expr@ == expected && to == end
                && to <= scalars@.len(),
            (Ok((None, to)), Ok((None, end))) => to == end && to <= scalars@.len(),
            (Err(error), Err(problem)) => reports(error, problem),
            _ => false,
        },
    decreases data_type, 0nat,
{
    match data_type {
        DataType::Struct(struct_type) => match transform_struct(struct_type, scalars, from) {
            Ok((expr, to)) => Ok((Some(expr), to)),
            Err(error) => Err(error),
        },
        DataType::Variant(_) => Ok((None, from)),
        _ => {
            if from >= scalars.len() {
                return Err(Error::InsufficientScalars);
            }
            let scalar: &Scalar = &scalars[from];
            let actual: DataType = scalar.data_type();
            if !actual.same(data_type) {
                return Err(mismatch_error(data_type, &actual));
            }
            Ok((Some(Expression::Literal(scalar.clone())), from + 1))
        },
    }
}

fn transform_struct(struct_type: &StructType, scalars: &[Scalar], from: usize) -> (r: Result<
    (Expression, usize),
    Error,
>)
    requires
        from <= scalars@.len(),
    ensures
        match (r, struct_literal(struct_type@, scalars_view(scalars@), from as nat)) {
            (Ok((expr, to)), Ok((expected, end))) => expr@ == expected && to == end && to
                <= scalars@.len(),
            (Err(error), Err(problem)) => reports(error, problem),
            _ => false,
        },
    decreases struct_type, 0nat,
{
    let mut field_exprs: Vec<Expression> = Vec::new();
    let mut to: usize = from;
    let mut i: usize = 0;
    assert(exprs_view(field_exprs@) =~= Seq::<ExprView>::empty());
    while i < struct_type.fields.len()
        invariant
            i <= struct_type.fields.len(),
            to <= scalars@.len(),
            fields_literal(struct_type@, i as nat, scalars_view(scalars@), from as nat) == Ok::<
                (Seq<ExprView>, nat),
                Problem,
            >((exprs_view(field_exprs@), to as nat)),
        decreases struct_type.fields.len() - i,
    {
        let field: &StructField = &struct_type.fields[i];
        let ghost so_far = fields_literal(
            struct_type@,
            (i + 1) as nat,
            scalars_view(scalars@),
            from as nat,
        );
        assert(decreases_to!(struct_type.fields@ => struct_type.fields@[i as int]));
        match transform_type(&field.data_type, scalars, to) {
            Err(error) => {
                proof {
                    assert(so_far is Err && reports(error, so_far->Err_0));
                    lemma_problem_stays(
                        struct_type@,
                        (i + 1) as nat,
                        struct_type@.len(),
                        scalars_view(scalars@),
                        from as nat,
                    );
                }
                return Err(error);
            },
            Ok((Some(expr), end)) => {
                let ghost before = field_exprs@;
                field_exprs.push(expr);
                assert(exprs_view(field_exprs@) =~= exprs_view(before).push(expr@));
                to = end;
            },
            Ok((None, end)) => {
                to = end;
            },
        }
        i += 1;
    }
    if field_exprs.len() != struct_type.fields.len() {
        return Err(Error::InsufficientScalars);
    }
    let ghost exprs = exprs_view(field_exprs@);
    let mut found_non_nullable_null: bool = false;
    let mut every_null: bool = true;
    let mut i: usize = 0;
    while i < field_exprs.len()
        invariant
            i <= field_exprs.len(),
            field_exprs@.len() == struct_type.fields@.len(),
            exprs == exprs_view(field_exprs@),
            found_non_nullable_null == exists|j: int|
                0 <= j < i && #[trigger] is_null_literal(exprs[j]) && !struct_type@[j].nullable,
            every_null == forall|j: int| 0 <= j < i ==> #[trigger] is_null_literal(exprs[j]),
        decreases field_exprs.len() - i,
    {
        let null: bool = match &field_exprs[i] {
            Expression::Literal(Scalar::Null(_)) => true,
            _ => false,
        };
        assert(null == is_null_literal(exprs[i as int]));
        if !null {
            every_null = false;
        } else if !struct_type.fields[i].nullable {
            assert(is_null_literal(exprs[i as int]) && !struct_type@[i as int].nullable);
            found_non_nullable_null = true;
        }
        i += 1;
    }
    assert(found_non_nullable_null == has_misplaced_null(struct_type@, exprs));
    assert(every_null == all_null(exprs));
    if found_non_nullable_null {
        if !every_null {
            return Err(
                Error::Schema(
                    "NULL value for non-nullable struct field with non-NULL siblings".to_owned(),
                ),
            );
        }
        Ok((null_lit(DataType::Struct(Box::new(struct_type.clone()))), to))
    } else {
        Ok((Expression::struct_from(field_exprs), to))
    }
}

proof fn lemma_problem_stays(
    fields: Seq<FieldView>,
    n: nat,
    m: nat,
    scalars: Seq<ScalarView>,
    from: nat,
)
    requires
        n <= m <= fields.len(),
        fields_literal(fields, n, scalars, from) is Err,
    ensures
        fields_literal(fields, m, scalars, from) == fields_literal(fields, n, scalars, from),
    decreases m,
{
    if n < m {
        lemma_problem_stays(fields, n, (m - 1) as nat, scalars, from);
    }
}

/// The row that a schema and the values of its leaves make up.
pub fn literal_expression_transform(schema: &StructType, scalars: &[Scalar]) -> (r: DeltaResult<
    Expression,
>)
    ensures
        match (r, row_literal(schema@, scalars_view(scalars@))) {
            (Ok(expr), Ok(expected)) => expr@ == expected,
            (Err(error), Err(problem)) => error matches
                crate::error::Error::LiteralExpressionTransformError(inner) && reports(
                inner,
                problem,
            ),
            _ => false,
        },
{
    match transform_struct(schema, scalars, 0) {
        Err(error) => Err(crate::error::Error::LiteralExpressionTransformError(error)),
        Ok((expr, to)) => {
            if to < scalars.len() {
                Err(
                    crate::error::Error::LiteralExpressionTransformError(
                        Error::ExcessScalars(scalars[to].clone()),
                    ),
                )
            } else {
                Ok(expr)
            }
        },
    }
}

// ---------------------------------------------------------------------------------------------
// Laws
// ---------------------------------------------------------------------------------------------

/// How many values a type takes.
pub open spec fn leaf_count(ty: TypeView) -> nat
    decreases ty, 0nat,
{
    match ty {
        TypeView::Struct(fields) => leaves_count(fields, fields.len()),
        TypeView::Variant(_) => 0,
        _ => 1,
    }
}

/// How many values the first `n` fields take.
pub open spec fn leaves_count(fields: Seq<FieldView>, n: nat) -> nat
    decreases fields, n,
{
    if n == 0 || n > fields.len() {
        0
    } else {
        leaves_count(fields, (n - 1) as nat) + leaf_count(fields[n - 1].ty)
    }
}

proof fn lemma_type_takes_its_leaves(ty: TypeView, scalars: Seq<ScalarView>, from: nat)
    ensures
        type_literal(ty, scalars, from) matches Ok((_, to)) ==> to == from + leaf_count(ty),
    decreases ty, 0nat,
{
    match ty {
        TypeView::Struct(fields) => {
            lemma_fields_take_their_leaves(fields, fields.len(), scalars, from);
        },
        _ => {},
    }
}

proof fn lemma_fields_take_their_leaves(
    fields: Seq<FieldView>,
    n: nat,
    scalars: Seq<ScalarView>,
    from: nat,
)
    ensures
        fields_literal(fields, n, scalars, from) matches Ok((_, to)) ==> to == from + leaves_count(
            fields,
            n,
        ),
    decreases fields, n,
{
    if 0 < n <= fields.len() {
        lemma_fields_take_their_leaves(fields, (n - 1) as nat, scalars, from);
        match fields_literal(fields, (n - 1) as nat, scalars, from) {
            Ok((_, middle)) => {
                assert(decreases_to!(fields => fields[n - 1]));
                lemma_type_takes_its_leaves(fields[n - 1].ty, scalars, middle);
            },
            Err(_) => {},
        }
    }
}

/// A row is made only where there is exactly one value for each leaf of the schema.
pub proof fn law_row_has_a_value_for_each_leaf(fields: Seq<FieldView>, scalars: Seq<ScalarView>)
    requires
        row_literal(fields, scalars) is Ok,
    ensures
        scalars.len() == leaves_count(fields, fields.len()),
{
    lemma_fields_take_their_leaves(fields, fields.len(), scalars, 0);
    lemma_no_more_than_there_are(fields, fields.len(), scalars, 0);
}

proof fn lemma_type_no_more_than_there_are(ty: TypeView, scalars: Seq<ScalarView>, from: nat)
    requires
        from <= scalars.len(),
    ensures
        type_literal(ty, scalars, from) matches Ok((_, to)) ==> to <= scalars.len(),
    decreases ty, 0nat,
{
    match ty {
        TypeView::Struct(fields) => {
            lemma_no_more_than_there_are(fields, fields.len(), scalars, from);
        },
        _ => {},
    }
}

proof fn lemma_no_more_than_there_are(
    fields: Seq<FieldView>,
    n: nat,
    scalars: Seq<ScalarView>,
    from: nat,
)
    requires
        from <= scalars.len(),
    ensures
        fields_literal(fields, n, scalars, from) matches Ok((_, to)) ==> to <= scalars.len(),
    decreases fields, n,
{
    if 0 < n <= fields.len() {
        lemma_no_more_than_there_are(fields, (n - 1) as nat, scalars, from);
        match fields_literal(fields, (n - 1) as nat, scalars, from) {
            Ok((_, middle)) => {
                assert(decreases_to!(fields => fields[n - 1]));
                lemma_type_no_more_than_there_are(fields[n - 1].ty, scalars, middle);
            },
            Err(_) => {},
        }
    }
}

/// The values that an expression made of structs of values holds, in order.
pub open spec fn held_values(expr: ExprView) -> Seq<ScalarView>
    decreases expr, 0nat,
{
    match expr {
        ExprView::Literal(scalar) => seq![scalar],
        ExprView::Struct(exprs, _) => all_held_values(exprs, exprs.len()),
        _ => Seq::empty(),
    }
}

/// The values that the first `n` expressions hold, in order.
pub open spec fn all_held_values(exprs: Seq<ExprView>, n: nat) -> Seq<ScalarView>
    decreases exprs, n,
{
    if n == 0 || n > exprs.len() {
        Seq::empty()
    } else {
        all_held_values(exprs, (n - 1) as nat) + held_values(exprs[n - 1])
    }
}

/// Whether every field of a type, and of the structs in it, may be null.
pub open spec fn nullable_throughout(ty: TypeView) -> bool
    decreases ty, 0nat,
{
    match ty {
        TypeView::Struct(fields) => fields_nullable_throughout(fields, fields.len()),
        _ => true,
    }
}

/// Whether each of the first `n` fields, and of the structs in them, may be null.
pub open spec fn fields_nullable_throughout(fields: Seq<FieldView>, n: nat) -> bool
    decreases fields, n,
{
    if n == 0 || n > fields.len() {
        true
    } else {
        fields_nullable_throughout(fields, (n - 1) as nat) && fields[n - 1].nullable
            && nullable_throughout(fields[n - 1].ty)
    }
}

proof fn lemma_held_values_pushed(exprs: Seq<ExprView>, expr: ExprView, n: nat)
    requires
        n <= exprs.len(),
    ensures
        all_held_values(exprs.push(expr), n) == all_held_values(exprs, n),
    decreases n,
{
    if n > 0 {
        lemma_held_values_pushed(exprs, expr, (n - 1) as nat);
        assert(exprs.push(expr)[n - 1] == exprs[n - 1]);
    }
}

proof fn lemma_fields_nullable(fields: Seq<FieldView>, n: nat)
    requires
        n <= fields.len(),
        fields_nullable_throughout(fields, n),
    ensures
        forall|i: int| 0 <= i < n ==> (#[trigger] fields[i]).nullable,
    decreases n,
{
    if n > 0 {
        lemma_fields_nullable(fields, (n - 1) as nat);
    }
}

proof fn lemma_type_holds_its_values(ty: TypeView, scalars: Seq<ScalarView>, from: nat)
    requires
        nullable_throughout(ty),
        from <= scalars.len(),
    ensures
        type_literal(ty, scalars, from) matches Ok((expr, to)) ==> from <= to <= scalars.len()
            && match expr {
            Some(expr) => held_values(expr) == scalars.subrange(from as int, to as int),
            None => to == from,
        },
    decreases ty, 0nat,
{
    match ty {
        TypeView::Struct(fields) => {
            lemma_fields_hold_their_values(fields, fields.len(), scalars, from);
            lemma_fields_nullable(fields, fields.len());
        },
        TypeView::Variant(_) => {},
        _ => {
            if from < scalars.len() {
                assert(scalars.subrange(from as int, from as int + 1) =~= seq![scalars[from as int]]);
            }
        },
    }
}

proof fn lemma_fields_hold_their_values(
    fields: Seq<FieldView>,
    n: nat,
    scalars: Seq<ScalarView>,
    from: nat,
)
    requires
        n <= fields.len(),
        fields_nullable_throughout(fields, n),
        from <= scalars.len(),
    ensures
        fields_literal(fields, n, scalars, from) matches Ok((exprs, to)) ==> from <= to
            <= scalars.len() && all_held_values(exprs, exprs.len()) == scalars.subrange(
            from as int,
            to as int,
        ),
    decreases fields, n,
{
    if n == 0 {
        assert(scalars.subrange(from as int, from as int) =~= Seq::empty());
    } else {
        lemma_fields_hold_their_values(fields, (n - 1) as nat, scalars, from);
        match fields_literal(fields, (n - 1) as nat, scalars, from) {
            Ok((exprs, middle)) => {
                assert(decreases_to!(fields => fields[n - 1]));
                lemma_type_holds_its_values(fields[n - 1].ty, scalars, middle);
                match type_literal(fields[n - 1].ty, scalars, middle) {
                    Ok((Some(expr), to)) => {
                        lemma_held_values_pushed(exprs, expr, exprs.len());
                        assert(scalars.subrange(from as int, to as int) =~= scalars.subrange(
                            from as int,
                            middle as int,
                        ) + scalars.subrange(middle as int, to as int));
                    },
                    _ => {},
                }
            },
            Err(_) => {},
        }
    }
}

/// Where every field may be null, a row holds exactly the values that it was made of, in order.
pub proof fn law_row_holds_its_values_in_order(fields: Seq<FieldView>, scalars: Seq<ScalarView>)
    requires
        nullable_throughout(TypeView::Struct(fields)),
    ensures
        row_literal(fields, scalars) matches Ok(expr) ==> held_values(expr) == scalars,
{
    lemma_type_holds_its_values(TypeView::Struct(fields), scalars, 0);
    assert(scalars.subrange(0, scalars.len() as int) =~= scalars);
}

} // verus!
