//! Batches of rows, and the values at the columns of a batch.

use vstd::prelude::*;

use crate::error::{DeltaResult, Error};
use crate::expressions::column_names::{names_view, ColumnName};
use crate::expressions::scalars::{bytes_same, scalars_view, pairs_view, Scalar, ScalarView};
use crate::schema::{
    fields_same, fields_view, DataType, FieldView, StructField, StructType, TypeView,
};
use crate::text::same_text;

verus! {

// ---------------------------------------------------------------------------------------------
// Batches
// ---------------------------------------------------------------------------------------------

/// Rows of values, one for each field of a schema. A value that a row lacks is null.
#[derive(Debug)]
pub struct Batch {
    /// The schema.
    pub schema: StructType,
    /// The rows.
    pub rows: Vec<Vec<Scalar>>,
}

/// What a batch is.
#[verifier::ext_equal]
pub struct BatchView {
    /// The fields of the schema.
    pub fields: Seq<FieldView>,
    /// The rows.
    pub rows: Seq<Seq<ScalarView>>,
}

/// What some rows are.
pub open spec fn rows_view(rows: Seq<Vec<Scalar>>) -> Seq<Seq<ScalarView>> {
    rows.map_values(|row: Vec<Scalar>| scalars_view(row@))
}

impl View for Batch {
    type V = BatchView;

    open spec fn view(&self) -> BatchView {
        BatchView { fields: self.schema@, rows: rows_view(self.rows@) }
    }
}

/// What some batches are.
pub open spec fn batches_view(batches: Seq<Batch>) -> Seq<BatchView> {
    batches.map_values(|batch: Batch| batch@)
}

/// What some paths are.
pub open spec fn paths_view(paths: Seq<ColumnName>) -> Seq<Seq<Seq<char>>> {
    paths.map_values(|path: ColumnName| path@)
}

// ---------------------------------------------------------------------------------------------
// Failures
// ---------------------------------------------------------------------------------------------

/// Why an operator fails: the kind of error, and its message.
pub enum Failure {
    /// A column does not exist.
    Missing(Seq<char>),
    /// Something that is not supported.
    Unsupported(Seq<char>),
    /// An error with a message of its own.
    Generic(Seq<char>),
    /// Columns that do not fit a schema.
    Misfit(Seq<char>),
    /// A URL that is not valid.
    Url(Seq<char>),
    /// A value that does not fit a schema.
    Schema(Seq<char>),
}

impl Failure {
    /// Whether an error says just that.
    pub open spec fn is(self, error: Error) -> bool {
        match self {
            Failure::Missing(message) => error matches Error::MissingColumn(text) && text@
                == message,
            Failure::Unsupported(message) => error matches Error::Unsupported(text) && text@
                == message,
            Failure::Generic(message) => error matches Error::Generic(text) && text@ == message,
            Failure::Misfit(message) => error matches Error::Arrow(text) && text@ == message,
            Failure::Url(message) => error matches Error::InvalidUrl(text) && text@ == message,
            Failure::Schema(message) => error matches Error::Schema(text) && text@ == message,
        }
    }
}

// ---------------------------------------------------------------------------------------------
// Columns
// ---------------------------------------------------------------------------------------------

/// The position of the first field with a name, at or after `from`.
pub open spec fn position_from(fields: Seq<FieldView>, name: Seq<char>, from: int) -> Option<int>
    decreases fields.len() - from,
{
    if from >= fields.len() {
        None
    } else if fields[from].name == name {
        Some(from)
    } else {
        position_from(fields, name, from + 1)
    }
}

/// The fields of a struct; other types have none.
pub open spec fn fields_of(ty: TypeView) -> Seq<FieldView> {
    match ty {
        TypeView::Struct(fields) => fields,
        _ => Seq::empty(),
    }
}

/// The type of the column at a path: the path leads from a field to one of its own fields, and so
/// on.
pub open spec fn type_at(fields: Seq<FieldView>, path: Seq<Seq<char>>) -> Result<TypeView, Failure>
    decreases path.len(),
{
    if path.len() == 0 {
        Err(Failure::Missing("Empty column path"@))
    } else {
        match position_from(fields, path[0], 0) {
            None => Err(Failure::Missing("No such field: "@ + path[0])),
            Some(i) => if path.len() == 1 {
                Ok(fields[i].ty)
            } else {
                type_at(fields_of(fields[i].ty), path.skip(1))
            },
        }
    }
}

/// The value of a row at a path; nothing where it is null, or within something null.
pub open spec fn value_at(
    fields: Seq<FieldView>,
    row: Seq<ScalarView>,
    path: Seq<Seq<char>>,
) -> Option<ScalarView>
    decreases path.len(),
{
    if path.len() == 0 {
        None
    } else {
        match position_from(fields, path[0], 0) {
            None => None,
            Some(i) => if i >= row.len() || row[i] is Null {
                None
            } else if path.len() == 1 {
                Some(row[i])
            } else {
                match row[i] {
                    ScalarView::Struct(_, values) => value_at(
                        fields_of(fields[i].ty),
                        values,
                        path.skip(1),
                    ),
                    _ => None,
                }
            },
        }
    }
}

proof fn lemma_only_structs_have_fields(ty: DataType)
    requires
        !(ty is Struct),
    ensures
        fields_of(ty@) == Seq::<FieldView>::empty(),
{
    match ty {
        DataType::Array(inner) => {
            assert(ty@ == inner.view());
        },
        DataType::Mapping(inner) => {
            assert(ty@ == inner.view());
        },
        _ => {},
    }
}

/// The position of the first field with a name.
fn position(fields: &[StructField], name: &str) -> (r: Option<usize>)
    ensures
        match position_from(fields_view(fields@), name@, 0) {
            Some(i) => r matches Some(j) && i == j && j < fields@.len(),
            None => r is None,
        },
{
    let mut i: usize = 0;
    while i < fields.len()
        invariant
            i <= fields.len(),
            position_from(fields_view(fields@), name@, 0) == position_from(
                fields_view(fields@),
                name@,
                i as int,
            ),
        decreases fields.len() - i,
    {
        assert(fields_view(fields@)[i as int].name == fields@[i as int].name@);
        if same_text(fields[i].name.as_str(), name) {
            return Some(i);
        }
        i += 1;
    }
    None
}

/// The type of the column at a path.
pub fn extract_type<'a>(schema: &'a StructType, path: &ColumnName) -> (r: DeltaResult<&'a DataType>)
    ensures
        match type_at(schema@, path@) {
            Ok(ty) => r matches Ok(found) && found@ == ty,
            Err(failure) => r matches Err(error) && failure.is(error),
        },
{
    let names: &[String] = path.path();
    if names.len() == 0 {
        return Err(Error::missing_column("Empty column path"));
    }
    let mut fields: &'a [StructField] = schema.fields.as_slice();
    let mut i: usize = 0;
    assert(path@.skip(0) =~= path@);
    while i < names.len()
        invariant
            i < names.len(),
            names_view(names@) == path@,
            type_at(schema@, path@) == type_at(fields_view(fields@), path@.skip(i as int)),
        decreases names.len() - i,
    {
        let ghost rest = path@.skip(i as int);
        assert(rest[0] == names@[i as int]@);
        match position(fields, names[i].as_str()) {
            None => {
                let mut message: String = "No such field: ".to_owned();
                message.append(names[i].as_str());
                return Err(Error::MissingColumn(message));
            },
            Some(j) => {
                let found: &'a DataType = &fields[j].data_type;
                assert(fields_view(fields@)[j as int].ty == found@);
                if i + 1 == names.len() {
                    return Ok(found);
                }
                assert(rest.skip(1) =~= path@.skip(i + 1));
                match found {
                    DataType::Struct(inner) => {
                        fields = inner.fields.as_slice();
                    },
                    _ => {
                        proof {
                            let rest = path@.skip(i + 1);
                            lemma_only_structs_have_fields(*found);
                            assert(rest[0] == names@[i + 1]@);
                            assert(position_from(fields_of(found@), rest[0], 0) is None);
                            assert(type_at(fields_of(found@), rest) == Err::<TypeView, Failure>(
                                Failure::Missing("No such field: "@ + rest[0]),
                            ));
                        }
                        let mut message: String = "No such field: ".to_owned();
                        message.append(names[i + 1].as_str());
                        return Err(Error::MissingColumn(message));
                    },
                }
                i += 1;
            },
        }
    }
    Err(Error::missing_column("Empty column path"))
}

/// The value of a row at a path, if it is not null.
pub fn extract_value<'a>(schema: &StructType, row: &'a [Scalar], path: &ColumnName) -> (r: Option<
    &'a Scalar,
>)
    ensures
        match value_at(schema@, scalars_view(row@), path@) {
            Some(value) => r matches Some(found) && found@ == value,
            None => r is None,
        },
{
    let names: &[String] = path.path();
    let mut fields: &[StructField] = schema.fields.as_slice();
    let mut values: &'a [Scalar] = row;
    let mut i: usize = 0;
    assert(path@.skip(0) =~= path@);
    while i < names.len()
        invariant
            i <= names.len(),
            names_view(names@) == path@,
            value_at(schema@, scalars_view(row@), path@) == value_at(
                fields_view(fields@),
                scalars_view(values@),
                path@.skip(i as int),
            ),
        decreases names.len() - i,
    {
        let ghost rest = path@.skip(i as int);
        assert(rest[0] == names@[i as int]@);
        match position(fields, names[i].as_str()) {
            None => {
                return None;
            },
            Some(j) => {
                if j >= values.len() || values[j].is_null() {
                    return None;
                }
                let found: &'a Scalar = &values[j];
                assert(scalars_view(values@)[j as int] == found@);
                assert(fields_view(fields@)[j as int].ty == fields@[j as int].data_type@);
                if i + 1 == names.len() {
                    return Some(found);
                }
                assert(rest.skip(1) =~= path@.skip(i + 1));
                match found {
                    Scalar::Struct(data) => {
                        match &fields[j].data_type {
                            DataType::Struct(inner) => {
                                fields = inner.fields.as_slice();
                            },
                            _ => {
                                proof {
                                    let rest = path@.skip(i + 1);
                                    let ty = fields@[j as int].data_type;
                                    lemma_only_structs_have_fields(ty);
                                    assert(position_from(fields_of(ty@), rest[0], 0) is None);
                                    assert(value_at(
                                        fields_of(ty@),
                                        scalars_view(data.values@),
                                        rest,
                                    ) is None);
                                }
                                return None;
                            },
                        }
                        values = data.values.as_slice();
                    },
                    _ => {
                        return None;
                    },
                }
                i += 1;
            },
        }
    }
    None
}

// ---------------------------------------------------------------------------------------------
// Keys
// ---------------------------------------------------------------------------------------------

/// What a key is: a value, or nothing, for each of some columns.
pub type Key = Seq<Option<ScalarView>>;

/// What an optional value is.
pub open spec fn option_view(value: Option<Scalar>) -> Option<ScalarView> {
    match value {
        Some(value) => Some(value@),
        None => None,
    }
}

/// What a key is.
pub open spec fn key_view(key: Seq<Option<Scalar>>) -> Key {
    key.map_values(|value: Option<Scalar>| option_view(value))
}

/// The values of a row at some paths.
pub open spec fn key_at(
    fields: Seq<FieldView>,
    row: Seq<ScalarView>,
    paths: Seq<Seq<Seq<char>>>,
) -> Key {
    paths.map_values(|path: Seq<Seq<char>>| value_at(fields, row, path))
}

/// Why the first of `n` paths that leads nowhere does so.
pub open spec fn paths_failure(
    fields: Seq<FieldView>,
    paths: Seq<Seq<Seq<char>>>,
    n: nat,
) -> Option<Failure>
    decreases n,
{
    if n == 0 || n > paths.len() {
        None
    } else {
        match paths_failure(fields, paths, (n - 1) as nat) {
            Some(failure) => Some(failure),
            None => match type_at(fields, paths[n - 1]) {
                Ok(_) => None,
                Err(failure) => Some(failure),
            },
        }
    }
}

proof fn lemma_paths_failure_stays(
    fields: Seq<FieldView>,
    paths: Seq<Seq<Seq<char>>>,
    n: nat,
    m: nat,
)
    requires
        n <= m <= paths.len(),
        paths_failure(fields, paths, n) is Some,
    ensures
        paths_failure(fields, paths, m) == paths_failure(fields, paths, n),
    decreases m,
{
    if n < m {
        lemma_paths_failure_stays(fields, paths, n, (m - 1) as nat);
    }
}

/// Fails unless each path leads to a column.
pub fn check_paths(schema: &StructType, paths: &[ColumnName]) -> (r: DeltaResult<()>)
    ensures
        match paths_failure(schema@, paths_view(paths@), paths@.len()) {
            None => r is Ok,
            Some(failure) => r matches Err(error) && failure.is(error),
        },
{
    let mut i: usize = 0;
    while i < paths.len()
        invariant
            i <= paths.len(),
            paths_failure(schema@, paths_view(paths@), i as nat) is None,
        decreases paths.len() - i,
    {
        assert(paths_view(paths@)[i as int] == paths@[i as int]@);
        match extract_type(schema, &paths[i]) {
            Err(error) => {
                proof {
                    lemma_paths_failure_stays(
                        schema@,
                        paths_view(paths@),
                        (i + 1) as nat,
                        paths@.len(),
                    );
                }
                return Err(error);
            },
            Ok(_) => {},
        }
        i += 1;
    }
    Ok(())
}

/// The values of a row at some paths.
pub fn row_key(schema: &StructType, row: &[Scalar], paths: &[ColumnName]) -> (r: Vec<
    Option<Scalar>,
>)
    ensures
        key_view(r@) == key_at(schema@, scalars_view(row@), paths_view(paths@)),
{
    let mut key: Vec<Option<Scalar>> = Vec::new();
    let mut i: usize = 0;
    while i < paths.len()
        invariant
            i <= paths.len(),
            key@.len() == i,
            forall|j: int|
                0 <= j < i ==> option_view(#[trigger] key@[j]) == value_at(
                    schema@,
                    scalars_view(row@),
                    paths@[j]@,
                ),
        decreases paths.len() - i,
    {
        match extract_value(schema, row, &paths[i]) {
            Some(value) => {
                key.push(Some(value.clone()));
            },
            None => {
                key.push(None);
            },
        }
        i += 1;
    }
    assert(key_view(key@) =~= key_at(schema@, scalars_view(row@), paths_view(paths@)));
    key
}

/// Whether two values are the same in every part.
pub fn identical(a: &Scalar, b: &Scalar) -> (r: bool)
    ensures
        r == (a@ == b@),
    decreases a,
{
    match (a, b) {
        (Scalar::Integer(x), Scalar::Integer(y)) => *x == *y,
        (Scalar::Long(x), Scalar::Long(y)) => *x == *y,
        (Scalar::Short(x), Scalar::Short(y)) => *x == *y,
        (Scalar::Byte(x), Scalar::Byte(y)) => *x == *y,
        (Scalar::Float(x), Scalar::Float(y)) => x.bits == y.bits && same_text(
            x.text.as_str(),
            y.text.as_str(),
        ),
        (Scalar::Double(x), Scalar::Double(y)) => x.bits == y.bits && same_text(
            x.text.as_str(),
            y.text.as_str(),
        ),
        (Scalar::String(x), Scalar::String(y)) => same_text(x.as_str(), y.as_str()),
        (Scalar::Boolean(x), Scalar::Boolean(y)) => *x == *y,
        (Scalar::Timestamp(x), Scalar::Timestamp(y)) => *x == *y,
        (Scalar::TimestampNtz(x), Scalar::TimestampNtz(y)) => *x == *y,
        (Scalar::IntervalYearMonth(x), Scalar::IntervalYearMonth(y)) => *x == *y,
        (Scalar::IntervalDayTime(x), Scalar::IntervalDayTime(y)) => *x == *y,
        (Scalar::Date(x), Scalar::Date(y)) => *x == *y,
        (Scalar::Binary(x), Scalar::Binary(y)) => bytes_same(x.as_slice(), y.as_slice()),
        (Scalar::Decimal(x), Scalar::Decimal(y)) => *x == *y,
        (Scalar::Null(x), Scalar::Null(y)) => x.same(y),
        (Scalar::Struct(x), Scalar::Struct(y)) => fields_same(
            x.fields.as_slice(),
            y.fields.as_slice(),
        ) && all_identical(x.values.as_slice(), y.values.as_slice()),
        (Scalar::Array(x), Scalar::Array(y)) => x.tpe.same(&y.tpe) && all_identical(
            x.elements.as_slice(),
            y.elements.as_slice(),
        ),
        (Scalar::Mapping(x), Scalar::Mapping(y)) => x.data_type.same(&y.data_type)
            && pairs_identical(x.pairs.as_slice(), y.pairs.as_slice()),
        _ => false,
    }
}

fn all_identical(a: &[Scalar], b: &[Scalar]) -> (r: bool)
    ensures
        r == (scalars_view(a@) == scalars_view(b@)),
    decreases a@,
{
    if a.len() != b.len() {
        assert(scalars_view(a@).len() != scalars_view(b@).len());
        return false;
    }
    let mut i: usize = 0;
    while i < a.len()
        invariant
            i <= a.len(),
            a.len() == b.len(),
            forall|j: int| 0 <= j < i ==> (#[trigger] a@[j])@ == b@[j]@,
        decreases a.len() - i,
    {
        assert(decreases_to!(a@ => a@[i as int]));
        if !identical(&a[i], &b[i]) {
            assert(scalars_view(a@)[i as int] != scalars_view(b@)[i as int]);
            return false;
        }
        i += 1;
    }
    assert(scalars_view(a@) =~= scalars_view(b@));
    true
}

fn pairs_identical(a: &[(Scalar, Scalar)], b: &[(Scalar, Scalar)]) -> (r: bool)
    ensures
        r == (pairs_view(a@) == pairs_view(b@)),
    decreases a@,
{
    if a.len() != b.len() {
        assert(pairs_view(a@).len() != pairs_view(b@).len());
        return false;
    }
    let mut i: usize = 0;
    while i < a.len()
        invariant
            i <= a.len(),
            a.len() == b.len(),
            forall|j: int|
                0 <= j < i ==> (#[trigger] a@[j]).0@ == b@[j].0@ && a@[j].1@ == b@[j].1@,
        decreases a.len() - i,
    {
        assert(decreases_to!(a@ => a@[i as int]));
        if !identical(&a[i].0, &b[i].0) || !identical(&a[i].1, &b[i].1) {
            assert(pairs_view(a@)[i as int] != pairs_view(b@)[i as int]);
            return false;
        }
        i += 1;
    }
    assert(pairs_view(a@) =~= pairs_view(b@));
    true
}

/// Whether two keys are the same.
pub fn keys_identical(a: &[Option<Scalar>], b: &[Option<Scalar>]) -> (r: bool)
    ensures
        r == (key_view(a@) == key_view(b@)),
{
    if a.len() != b.len() {
        assert(key_view(a@).len() != key_view(b@).len());
        return false;
    }
    let mut i: usize = 0;
    while i < a.len()
        invariant
            i <= a.len(),
            a.len() == b.len(),
            forall|j: int| 0 <= j < i ==> option_view(#[trigger] a@[j]) == option_view(b@[j]),
        decreases a.len() - i,
    {
        let same: bool = match (&a[i], &b[i]) {
            (Some(x), Some(y)) => identical(x, y),
            (None, None) => true,
            _ => false,
        };
        if !same {
            assert(key_view(a@)[i as int] != key_view(b@)[i as int]);
            return false;
        }
        i += 1;
    }
    assert(key_view(a@) =~= key_view(b@));
    true
}

// ---------------------------------------------------------------------------------------------
// Nulls
// ---------------------------------------------------------------------------------------------

/// Why the first of `n` fields that must not be null is null in some row.
pub open spec fn nulls_failure(
    output: Seq<FieldView>,
    rows: Seq<Seq<ScalarView>>,
    n: nat,
) -> Option<Failure>
    decreases n,
{
    if n == 0 || n > output.len() {
        None
    } else {
        match nulls_failure(output, rows, (n - 1) as nat) {
            Some(failure) => Some(failure),
            None => if !output[n - 1].nullable && has_null(rows, n - 1) {
                Some(
                    Failure::Misfit(
                        "Column '"@ + output[n - 1].name
                            + "' is declared as non-nullable but contains null values"@,
                    ),
                )
            } else {
                None
            },
        }
    }
}

/// Whether a value is null in some row.
pub open spec fn has_null(rows: Seq<Seq<ScalarView>>, j: int) -> bool {
    exists|i: int| 0 <= i < rows.len() && (#[trigger] rows[i])[j] is Null
}

proof fn lemma_nulls_failure_stays(
    output: Seq<FieldView>,
    rows: Seq<Seq<ScalarView>>,
    n: nat,
    m: nat,
)
    requires
        n <= m <= output.len(),
        nulls_failure(output, rows, n) is Some,
    ensures
        nulls_failure(output, rows, m) == nulls_failure(output, rows, n),
    decreases m,
{
    if n < m {
        lemma_nulls_failure_stays(output, rows, n, (m - 1) as nat);
    }
}

/// Fails unless each field that must not be null has a value in each row.
pub(crate) fn check_nulls(fields: &[StructField], rows: &[Vec<Scalar>]) -> (r: DeltaResult<()>)
    requires
        forall|i: int| 0 <= i < rows@.len() ==> (#[trigger] rows@[i])@.len() == fields@.len(),
    ensures
        match nulls_failure(fields_view(fields@), rows_view(rows@), fields@.len()) {
            None => r is Ok,
            Some(failure) => r matches Err(error) && failure.is(error),
        },
{
    let ghost output = fields_view(fields@);
    let ghost cells = rows_view(rows@);
    let mut j: usize = 0;
    while j < fields.len()
        invariant
            j <= fields@.len(),
            output == fields_view(fields@),
            cells == rows_view(rows@),
            forall|i: int| 0 <= i < rows@.len() ==> (#[trigger] rows@[i])@.len() == fields@.len(),
            nulls_failure(output, cells, j as nat) is None,
        decreases fields@.len() - j,
    {
        assert(output[j as int] == fields@[j as int]@);
        if !fields[j].nullable {
            let mut i: usize = 0;
            while i < rows.len()
                invariant
                    j < fields@.len(),
                    i <= rows@.len(),
                    output == fields_view(fields@),
                    output[j as int] == fields@[j as int]@,
                    cells == rows_view(rows@),
                    !fields@[j as int].nullable,
                    forall|k: int|
                        0 <= k < rows@.len() ==> (#[trigger] rows@[k])@.len() == fields@.len(),
                    forall|k: int| 0 <= k < i ==> !((#[trigger] cells[k])[j as int] is Null),
                    nulls_failure(output, cells, j as nat) is None,
                decreases rows@.len() - i,
            {
                assert(rows@[i as int]@.len() == fields@.len());
                assert(cells[i as int] == scalars_view(rows@[i as int]@));
                assert(cells[i as int][j as int] == rows@[i as int]@[j as int]@);
                if rows[i][j].is_null() {
                    let mut message: String = "Column '".to_owned();
                    message.append(fields[j].name.as_str());
                    message.append("' is declared as non-nullable but contains null values");
                    proof {
                        assert(has_null(cells, j as int));
                        lemma_nulls_failure_stays(output, cells, (j + 1) as nat, output.len());
                    }
                    return Err(Error::Arrow(message));
                }
                i += 1;
            }
            assert(!has_null(cells, j as int));
        }
        j += 1;
    }
    Ok(())
}

} // verus!
