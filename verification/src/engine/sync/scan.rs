//! Rows from files: which files a scan reads, and what stands in rows beside what was read.

use vstd::prelude::*;

use super::batch::{
    batches_view, check_nulls, extract_type, extract_value, nulls_failure, rows_view, type_at,
    value_at, Batch, BatchView, Failure,
};
use crate::error::{DeltaResult, Error};
use crate::expressions::column_names::{names_view, ColumnName};
use crate::expressions::scalar_data::elements_problem;
use crate::expressions::scalars::{scalars_clone, scalars_view, ArrayData, Scalar, ScalarView};
use crate::schema::{
    fields_view, ArrayType, DataType, FieldView, PrimitiveType, StructField, StructType, TypeView,
};
use crate::text::same_text;
use crate::FileMeta;

verus! {

// ---------------------------------------------------------------------------------------------
// Files named by rows
// ---------------------------------------------------------------------------------------------

/// A file to read, and values that stand beside its rows.
#[derive(Debug)]
pub struct ScanFile {
    /// The file.
    pub meta: FileMeta,
    /// The values.
    pub file_constants: Vec<Scalar>,
}

/// What a file to read is.
#[verifier::ext_equal]
pub struct ScanFileView {
    /// Where the file is.
    pub location: Seq<char>,
    /// When it was last modified.
    pub last_modified: i64,
    /// Its size.
    pub size: u64,
    /// The values that stand beside its rows.
    pub file_constants: Seq<ScalarView>,
}

impl View for ScanFile {
    type V = ScanFileView;

    open spec fn view(&self) -> ScanFileView {
        ScanFileView {
            location: self.meta.location@,
            last_modified: self.meta.last_modified,
            size: self.meta.size,
            file_constants: scalars_view(self.file_constants@),
        }
    }
}

/// What some files to read are.
pub open spec fn files_view(files: Seq<ScanFile>) -> Seq<ScanFileView> {
    files.map_values(|file: ScanFile| file@)
}

/// A scan of files that the rows of batches name.
#[derive(Debug)]
pub struct DynamicScan {
    /// The URL that paths are relative to.
    pub base_url: String,
    /// The columns whose values stand beside the rows of a file.
    pub file_constant_columns: Vec<String>,
    /// The column with the path of a file.
    pub path_column: ColumnName,
    /// The column with its size.
    pub file_size_column: ColumnName,
    /// The column with the time when it was last modified.
    pub last_modified_column: ColumnName,
    /// The column with its deletion vector.
    pub dv_column: ColumnName,
}

/// What `url::Url::join` makes of a path relative to a base: a URL, or why there is none.
pub uninterp spec fn joined_url(base: Seq<char>, path: Seq<char>) -> Result<Seq<char>, Seq<char>>;

/// `url::Url::join` on a base that `url::Url::parse` reads. The result, or the text of the error,
/// depends on the two texts alone and is named [`joined_url`]; what it is, is not stated.
#[verifier::external_body]
pub(crate) fn join_url(base: &str, path: &str) -> (r: Result<String, String>)
    ensures
        match r {
            Ok(url) => joined_url(base@, path@) == Ok::<Seq<char>, Seq<char>>(url@),
            Err(message) => joined_url(base@, path@) == Err::<Seq<char>, Seq<char>>(message@),
        },
{
    let base = url::Url::parse(base).map_err(|error| error.to_string())?;
    base.join(path).map(|url| url.to_string()).map_err(|error| error.to_string())
}

/// Why a column does not have a type: it is missing, or it has another type.
pub open spec fn kind_failure(
    fields: Seq<FieldView>,
    path: Seq<Seq<char>>,
    expected: PrimitiveType,
    what: Seq<char>,
) -> Option<Failure> {
    match type_at(fields, path) {
        Err(failure) => Some(failure),
        Ok(ty) => if ty == TypeView::Primitive(expected) {
            None
        } else {
            Some(Failure::Generic("Expected "@ + what + ", got "@ + ty.text()))
        },
    }
}

/// The text of a row at a path.
pub open spec fn text_at(
    fields: Seq<FieldView>,
    row: Seq<ScalarView>,
    path: Seq<Seq<char>>,
) -> Option<Seq<char>> {
    match value_at(fields, row, path) {
        Some(ScalarView::String(text)) => Some(text),
        _ => None,
    }
}

/// The 64-bit integer of a row at a path.
pub open spec fn long_at(
    fields: Seq<FieldView>,
    row: Seq<ScalarView>,
    path: Seq<Seq<char>>,
) -> Option<i64> {
    match value_at(fields, row, path) {
        Some(ScalarView::Long(value)) => Some(value),
        _ => None,
    }
}

/// The value of a row in a column, as a constant: text, a 64-bit integer or a null.
pub open spec fn constant_at(
    fields: Seq<FieldView>,
    row: Seq<ScalarView>,
    name: Seq<char>,
) -> Result<ScalarView, Failure> {
    match type_at(fields, seq![name]) {
        Err(failure) => Err(failure),
        Ok(ty) => match value_at(fields, row, seq![name]) {
            None => Ok(ScalarView::Null(ty)),
            Some(ScalarView::String(text)) => Ok(ScalarView::String(text)),
            Some(ScalarView::Long(value)) => Ok(ScalarView::Long(value)),
            Some(_) => Err(
                Failure::Unsupported("Scalar conversion from array type "@ + ty.text()),
            ),
        },
    }
}

/// The values of a row in the first `n` of some columns, as constants.
pub open spec fn constants_at(
    fields: Seq<FieldView>,
    row: Seq<ScalarView>,
    names: Seq<Seq<char>>,
    n: nat,
) -> Result<Seq<ScalarView>, Failure>
    decreases n,
{
    if n == 0 || n > names.len() {
        Ok(Seq::empty())
    } else {
        match constants_at(fields, row, names, (n - 1) as nat) {
            Err(failure) => Err(failure),
            Ok(before) => match constant_at(fields, row, names[n - 1]) {
                Err(failure) => Err(failure),
                Ok(value) => Ok(before.push(value)),
            },
        }
    }
}

impl DynamicScan {
    /// Why a batch with those fields names no files.
    pub open spec fn batch_failure(self, fields: Seq<FieldView>) -> Option<Failure> {
        match kind_failure(
            fields,
            self.path_column@,
            PrimitiveType::String,
            "STRING Load path"@,
        ) {
            Some(failure) => Some(failure),
            None => match kind_failure(
                fields,
                self.file_size_column@,
                PrimitiveType::Long,
                "LONG Load file size"@,
            ) {
                Some(failure) => Some(failure),
                None => match kind_failure(
                    fields,
                    self.last_modified_column@,
                    PrimitiveType::Long,
                    "LONG Load last modified"@,
                ) {
                    Some(failure) => Some(failure),
                    None => match type_at(fields, self.dv_column@) {
                        Err(failure) => Some(failure),
                        Ok(_) => None,
                    },
                },
            },
        }
    }

    /// The path that a row names. A row with a deletion vector is not supported.
    pub open spec fn row_path(self, fields: Seq<FieldView>, row: Seq<ScalarView>) -> Result<
        Seq<char>,
        Failure,
    > {
        match text_at(fields, row, self.path_column@) {
            None => Err(Failure::Generic("DynamicScan path must not be null"@)),
            Some(path) => if value_at(fields, row, self.dv_column@) is Some {
                Err(Failure::Unsupported("SyncPlanExecutor DynamicScan with deletion vectors"@))
            } else {
                Ok(path)
            },
        }
    }

    /// The file that a row names, given its URL.
    pub open spec fn row_file(
        self,
        fields: Seq<FieldView>,
        row: Seq<ScalarView>,
        url: Result<Seq<char>, Seq<char>>,
    ) -> Result<ScanFileView, Failure> {
        match url {
            Err(message) => Err(Failure::Url(message)),
            Ok(location) => match long_at(fields, row, self.file_size_column@) {
                None => Err(Failure::Generic("DynamicScan file size must not be null"@)),
                Some(size) => if size <= 0 {
                    Err(Failure::Generic("DynamicScan file size must be positive"@))
                } else {
                    match long_at(fields, row, self.last_modified_column@) {
                        None => Err(
                            Failure::Generic("DynamicScan last-modified time must not be null"@),
                        ),
                        Some(last_modified) => match constants_at(
                            fields,
                            row,
                            names_view(self.file_constant_columns@),
                            self.file_constant_columns@.len(),
                        ) {
                            Err(failure) => Err(failure),
                            Ok(file_constants) => Ok(
                                ScanFileView {
                                    location,
                                    last_modified,
                                    size: size as u64,
                                    file_constants,
                                },
                            ),
                        },
                    }
                },
            },
        }
    }

    /// The file that a row names.
    pub open spec fn file(self, fields: Seq<FieldView>, row: Seq<ScalarView>) -> Result<
        ScanFileView,
        Failure,
    > {
        match self.row_path(fields, row) {
            Err(failure) => Err(failure),
            Ok(path) => self.row_file(fields, row, joined_url(self.base_url@, path)),
        }
    }

    /// Some files, and those that the first `n` rows of a batch name.
    pub open spec fn with_rows(
        self,
        before: Seq<ScanFileView>,
        batch: BatchView,
        n: nat,
    ) -> Result<Seq<ScanFileView>, Failure>
        decreases n,
    {
        if n == 0 || n > batch.rows.len() {
            Ok(before)
        } else {
            match self.with_rows(before, batch, (n - 1) as nat) {
                Err(failure) => Err(failure),
                Ok(files) => match self.file(batch.fields, batch.rows[n - 1]) {
                    Err(failure) => Err(failure),
                    Ok(file) => Ok(files.push(file)),
                },
            }
        }
    }

    /// The files that the rows of the first `n` batches name.
    pub open spec fn files(self, input: Seq<BatchView>, n: nat) -> Result<
        Seq<ScanFileView>,
        Failure,
    >
        decreases n,
    {
        if n == 0 || n > input.len() {
            Ok(Seq::empty())
        } else {
            match self.files(input, (n - 1) as nat) {
                Err(failure) => Err(failure),
                Ok(before) => match self.batch_failure(input[n - 1].fields) {
                    Some(failure) => Err(failure),
                    None => self.with_rows(before, input[n - 1], input[n - 1].rows.len()),
                },
            }
        }
    }
}

proof fn lemma_constants_failure_stays(
    fields: Seq<FieldView>,
    row: Seq<ScalarView>,
    names: Seq<Seq<char>>,
    n: nat,
    m: nat,
)
    requires
        n <= m <= names.len(),
        constants_at(fields, row, names, n) is Err,
    ensures
        constants_at(fields, row, names, m) == constants_at(fields, row, names, n),
    decreases m,
{
    if n < m {
        lemma_constants_failure_stays(fields, row, names, n, (m - 1) as nat);
    }
}

proof fn lemma_rows_failure_stays(
    scan: DynamicScan,
    before: Seq<ScanFileView>,
    batch: BatchView,
    n: nat,
    m: nat,
)
    requires
        n <= m <= batch.rows.len(),
        scan.with_rows(before, batch, n) is Err,
    ensures
        scan.with_rows(before, batch, m) == scan.with_rows(before, batch, n),
    decreases m,
{
    if n < m {
        lemma_rows_failure_stays(scan, before, batch, n, (m - 1) as nat);
    }
}

proof fn lemma_files_failure_stays(scan: DynamicScan, input: Seq<BatchView>, n: nat, m: nat)
    requires
        n <= m <= input.len(),
        scan.files(input, n) is Err,
    ensures
        scan.files(input, m) == scan.files(input, n),
    decreases m,
{
    if n < m {
        lemma_files_failure_stays(scan, input, n, (m - 1) as nat);
    }
}

/// Fails unless a column has a primitive type.
fn check_kind(schema: &StructType, path: &ColumnName, expected: PrimitiveType, what: &str) -> (r:
    DeltaResult<()>)
    ensures
        match kind_failure(schema@, path@, expected, what@) {
            None => r is Ok,
            Some(failure) => r matches Err(error) && failure.is(error),
        },
{
    match extract_type(schema, path) {
        Err(error) => Err(error),
        Ok(ty) => {
            if ty.same(&DataType::Primitive(expected)) {
                Ok(())
            } else {
                let mut message: String = "Expected ".to_owned();
                message.append(what);
                message.append(", got ");
                message.append(ty.to_string().as_str());
                Err(Error::Generic(message))
            }
        },
    }
}

/// The value of a row in a column, as a constant: text, a 64-bit integer or a null.
pub fn scalar_value(schema: &StructType, row: &[Scalar], name: &str) -> (r: DeltaResult<Scalar>)
    ensures
        match constant_at(schema@, scalars_view(row@), name@) {
            Ok(value) => r matches Ok(found) && found@ == value,
            Err(failure) => r matches Err(error) && failure.is(error),
        },
{
    let path: ColumnName = ColumnName::top_level(name);
    match extract_type(schema, &path) {
        Err(error) => Err(error),
        Ok(ty) => match extract_value(schema, row, &path) {
            None => Ok(Scalar::Null(ty.clone())),
            Some(Scalar::String(text)) => Ok(Scalar::String(text.clone())),
            Some(Scalar::Long(value)) => Ok(Scalar::Long(*value)),
            Some(_) => {
                let mut message: String = "Scalar conversion from array type ".to_owned();
                message.append(ty.to_string().as_str());
                Err(Error::Unsupported(message))
            },
        },
    }
}

fn long_value(schema: &StructType, row: &[Scalar], path: &ColumnName) -> (r: Option<i64>)
    ensures
        r == long_at(schema@, scalars_view(row@), path@),
{
    match extract_value(schema, row, path) {
        Some(Scalar::Long(value)) => Some(*value),
        _ => None,
    }
}

impl DynamicScan {
    /// Fails unless a batch with that schema names files.
    fn check_batch(&self, schema: &StructType) -> (r: DeltaResult<()>)
        ensures
            match self.batch_failure(schema@) {
                None => r is Ok,
                Some(failure) => r matches Err(error) && failure.is(error),
            },
    {
        match check_kind(schema, &self.path_column, PrimitiveType::String, "STRING Load path") {
            Err(error) => {
                return Err(error);
            },
            Ok(_) => {},
        }
        match check_kind(
            schema,
            &self.file_size_column,
            PrimitiveType::Long,
            "LONG Load file size",
        ) {
            Err(error) => {
                return Err(error);
            },
            Ok(_) => {},
        }
        match check_kind(
            schema,
            &self.last_modified_column,
            PrimitiveType::Long,
            "LONG Load last modified",
        ) {
            Err(error) => {
                return Err(error);
            },
            Ok(_) => {},
        }
        match extract_type(schema, &self.dv_column) {
            Err(error) => Err(error),
            Ok(_) => Ok(()),
        }
    }

    /// The path that a row names.
    pub fn path_of(&self, schema: &StructType, row: &[Scalar]) -> (r: DeltaResult<String>)
        ensures
            match self.row_path(schema@, scalars_view(row@)) {
                Ok(path) => r matches Ok(found) && found@ == path,
                Err(failure) => r matches Err(error) && failure.is(error),
            },
    {
        match extract_value(schema, row, &self.path_column) {
            Some(Scalar::String(path)) => if extract_value(schema, row, &self.dv_column).is_some() {
                Err(Error::unsupported("SyncPlanExecutor DynamicScan with deletion vectors"))
            } else {
                Ok(path.clone())
            },
            _ => Err(Error::generic("DynamicScan path must not be null")),
        }
    }

    /// The values of a row that stand beside the rows of the file that it names.
    fn constants_of(&self, schema: &StructType, row: &[Scalar]) -> (r: DeltaResult<Vec<Scalar>>)
        ensures
            match constants_at(
                schema@,
                scalars_view(row@),
                names_view(self.file_constant_columns@),
                self.file_constant_columns@.len(),
            ) {
                Ok(values) => r matches Ok(found) && scalars_view(found@) == values,
                Err(failure) => r matches Err(error) && failure.is(error),
            },
    {
        let ghost cells = scalars_view(row@);
        let ghost names = names_view(self.file_constant_columns@);
        let mut file_constants: Vec<Scalar> = Vec::new();
        let mut i: usize = 0;
        assert(scalars_view(file_constants@) =~= Seq::empty());
        while i < self.file_constant_columns.len()
            invariant
                i <= self.file_constant_columns@.len(),
                cells == scalars_view(row@),
                names == names_view(self.file_constant_columns@),
                constants_at(schema@, cells, names, i as nat) == Ok::<Seq<ScalarView>, Failure>(
                    scalars_view(file_constants@),
                ),
            decreases self.file_constant_columns@.len() - i,
        {
            assert(names[i as int] == self.file_constant_columns@[i as int]@);
            match scalar_value(schema, row, self.file_constant_columns[i].as_str()) {
                Err(error) => {
                    proof {
                        lemma_constants_failure_stays(
                            schema@,
                            cells,
                            names,
                            (i + 1) as nat,
                            names.len(),
                        );
                    }
                    return Err(error);
                },
                Ok(value) => {
                    let ghost before = file_constants@;
                    file_constants.push(value);
                    assert(scalars_view(file_constants@) =~= scalars_view(before).push(value@));
                },
            }
            i += 1;
        }
        Ok(file_constants)
    }

    /// The file that a row names, given its URL or why it has none.
    pub fn file_of(&self, schema: &StructType, row: &[Scalar], url: Result<String, String>) -> (r:
        DeltaResult<ScanFile>)
        ensures
            match self.row_file(
                schema@,
                scalars_view(row@),
                match url {
                    Ok(location) => Ok(location@),
                    Err(message) => Err(message@),
                },
            ) {
                Ok(file) => r matches Ok(found) && found@ == file,
                Err(failure) => r matches Err(error) && failure.is(error),
            },
    {
        let location: String = match url {
            Err(message) => {
                return Err(Error::InvalidUrl(message));
            },
            Ok(location) => location,
        };
        let size: u64 = match long_value(schema, row, &self.file_size_column) {
            None => {
                return Err(Error::generic("DynamicScan file size must not be null"));
            },
            Some(size) => {
                if size <= 0 {
                    return Err(Error::generic("DynamicScan file size must be positive"));
                }
                size as u64
            },
        };
        let last_modified: i64 = match long_value(schema, row, &self.last_modified_column) {
            None => {
                return Err(Error::generic("DynamicScan last-modified time must not be null"));
            },
            Some(last_modified) => last_modified,
        };
        match self.constants_of(schema, row) {
            Err(error) => Err(error),
            Ok(file_constants) => Ok(
                ScanFile { meta: FileMeta { location, last_modified, size }, file_constants },
            ),
        }
    }
}

/// The files that the rows of some batches name.
pub fn dynamic_scan_files(scan: &DynamicScan, input: &[Batch]) -> (r: DeltaResult<Vec<ScanFile>>)
    ensures
        match scan.files(batches_view(input@), input@.len()) {
            Ok(files) => r matches Ok(found) && files_view(found@) == files,
            Err(failure) => r matches Err(error) && failure.is(error),
        },
{
    let ghost batches = batches_view(input@);
    let mut files: Vec<ScanFile> = Vec::new();
    let mut b: usize = 0;
    assert(files_view(files@) =~= Seq::empty());
    while b < input.len()
        invariant
            b <= input@.len(),
            batches == batches_view(input@),
            scan.files(batches, b as nat) == Ok::<Seq<ScanFileView>, Failure>(files_view(files@)),
        decreases input@.len() - b,
    {
        let batch: &Batch = &input[b];
        assert(batches[b as int] == batch@);
        match scan.check_batch(&batch.schema) {
            Err(error) => {
                proof {
                    lemma_files_failure_stays(*scan, batches, (b + 1) as nat, batches.len());
                }
                return Err(error);
            },
            Ok(_) => {},
        }
        let ghost before = files_view(files@);
        let mut i: usize = 0;
        while i < batch.rows.len()
            invariant
                b < input@.len(),
                i <= batch.rows@.len(),
                batches == batches_view(input@),
                batches[b as int] == batch@,
                scan.files(batches, b as nat) == Ok::<Seq<ScanFileView>, Failure>(before),
                scan.batch_failure(batch@.fields) is None,
                scan.with_rows(before, batch@, i as nat) == Ok::<Seq<ScanFileView>, Failure>(
                    files_view(files@),
                ),
            decreases batch.rows@.len() - i,
        {
            let row: &[Scalar] = batch.rows[i].as_slice();
            assert(batch@.rows[i as int] == scalars_view(row@));
            let file: DeltaResult<ScanFile> = match scan.path_of(&batch.schema, row) {
                Err(error) => Err(error),
                Ok(path) => scan.file_of(
                    &batch.schema,
                    row,
                    join_url(scan.base_url.as_str(), path.as_str()),
                ),
            };
            match file {
                Err(error) => {
                    proof {
                        lemma_rows_failure_stays(
                            *scan,
                            before,
                            batch@,
                            (i + 1) as nat,
                            batch@.rows.len(),
                        );
                        lemma_files_failure_stays(*scan, batches, (b + 1) as nat, batches.len());
                    }
                    return Err(error);
                },
                Ok(file) => {
                    let ghost so_far = files@;
                    files.push(file);
                    assert(files_view(files@) =~= files_view(so_far).push(file@));
                },
            }
            i += 1;
        }
        b += 1;
    }
    Ok(files)
}

// ---------------------------------------------------------------------------------------------
// Constants beside what was read
// ---------------------------------------------------------------------------------------------

/// The position of the first of some names that is `name`, at or after `from`.
pub open spec fn slot_from(names: Seq<Seq<char>>, name: Seq<char>, from: int) -> Option<int>
    decreases names.len() - from,
{
    if from >= names.len() {
        None
    } else if names[from] == name {
        Some(from)
    } else {
        slot_from(names, name, from + 1)
    }
}

/// Those of the first `n` fields that are read from a file: the ones that are not constant.
pub open spec fn read_fields(fields: Seq<FieldView>, constants: Seq<Seq<char>>, n: nat) -> Seq<
    FieldView,
>
    decreases n,
{
    if n == 0 || n > fields.len() {
        Seq::empty()
    } else {
        let before = read_fields(fields, constants, (n - 1) as nat);
        if slot_from(constants, fields[n - 1].name, 0) is None {
            before.push(fields[n - 1])
        } else {
            before
        }
    }
}

/// The position of the first of some names that is `name`.
fn slot(names: &[String], name: &str) -> (r: Option<usize>)
    ensures
        match slot_from(names_view(names@), name@, 0) {
            Some(i) => r matches Some(j) && i == j && j < names@.len(),
            None => r is None,
        },
{
    let mut i: usize = 0;
    while i < names.len()
        invariant
            i <= names@.len(),
            slot_from(names_view(names@), name@, 0) == slot_from(
                names_view(names@),
                name@,
                i as int,
            ),
        decreases names@.len() - i,
    {
        assert(names_view(names@)[i as int] == names@[i as int]@);
        if same_text(names[i].as_str(), name) {
            return Some(i);
        }
        i += 1;
    }
    None
}

/// The schema of what is read from a file: the fields that are not constant.
pub fn read_schema(schema: &StructType, file_constant_columns: &[String]) -> (r: StructType)
    ensures
        r@ == read_fields(schema@, names_view(file_constant_columns@), schema@.len()),
{
    let ghost names = names_view(file_constant_columns@);
    let mut fields: Vec<StructField> = Vec::new();
    let mut i: usize = 0;
    assert(fields_view(fields@) =~= Seq::empty());
    while i < schema.fields.len()
        invariant
            i <= schema.fields@.len(),
            names == names_view(file_constant_columns@),
            fields_view(fields@) == read_fields(schema@, names, i as nat),
        decreases schema.fields@.len() - i,
    {
        assert(schema@[i as int] == schema.fields@[i as int]@);
        if slot(file_constant_columns, schema.fields[i].name.as_str()).is_none() {
            let ghost before = fields@;
            fields.push(schema.fields[i].clone());
            assert(fields_view(fields@) =~= fields_view(before).push(schema@[i as int]));
        }
        i += 1;
    }
    StructType { fields }
}

/// A row as it was read, with the constants in their places: the first `n` fields.
pub open spec fn spliced(
    fields: Seq<FieldView>,
    names: Seq<Seq<char>>,
    constants: Seq<ScalarView>,
    row: Seq<ScalarView>,
    n: nat,
) -> Seq<ScalarView>
    decreases n,
{
    if n == 0 || n > fields.len() {
        Seq::empty()
    } else {
        spliced(fields, names, constants, row, (n - 1) as nat).push(
            match slot_from(names, fields[n - 1].name, 0) {
                Some(slot) => constants[slot],
                None => {
                    let place = read_fields(fields, names, (n - 1) as nat).len();
                    if place < row.len() {
                        row[place as int]
                    } else {
                        ScalarView::Null(fields[n - 1].ty)
                    }
                },
            },
        )
    }
}

/// A batch as it was read, with the constants in their places.
pub open spec fn spliced_batch(
    batch: BatchView,
    fields: Seq<FieldView>,
    names: Seq<Seq<char>>,
    constants: Seq<ScalarView>,
) -> Result<BatchView, Failure> {
    if read_fields(fields, names, fields.len()).len() > batch.fields.len() {
        Err(Failure::Generic("scan output has fewer columns than schema"@))
    } else {
        Ok(
            BatchView {
                fields,
                rows: batch.rows.map_values(
                    |row: Seq<ScalarView>| spliced(fields, names, constants, row, fields.len()),
                ),
            },
        )
    }
}

fn splice_row(
    schema: &StructType,
    file_constant_columns: &[String],
    constants: &[Scalar],
    row: &[Scalar],
) -> (r: Vec<Scalar>)
    requires
        file_constant_columns@.len() <= constants@.len(),
    ensures
        scalars_view(r@) == spliced(
            schema@,
            names_view(file_constant_columns@),
            scalars_view(constants@),
            scalars_view(row@),
            schema@.len(),
        ),
{
    let ghost names = names_view(file_constant_columns@);
    let ghost values = scalars_view(constants@);
    let ghost cells = scalars_view(row@);
    let mut out: Vec<Scalar> = Vec::new();
    let mut i: usize = 0;
    let mut place: usize = 0;
    assert(scalars_view(out@) =~= Seq::empty());
    while i < schema.fields.len()
        invariant
            i <= schema.fields@.len(),
            file_constant_columns@.len() <= constants@.len(),
            names == names_view(file_constant_columns@),
            values == scalars_view(constants@),
            cells == scalars_view(row@),
            place == read_fields(schema@, names, i as nat).len(),
            place <= i,
            scalars_view(out@) == spliced(schema@, names, values, cells, i as nat),
        decreases schema.fields@.len() - i,
    {
        let ghost before = out@;
        assert(schema@[i as int] == schema.fields@[i as int]@);
        let value: Scalar = match slot(file_constant_columns, schema.fields[i].name.as_str()) {
            Some(slot) => constants[slot].clone(),
            None => {
                let read: Scalar = if place < row.len() {
                    row[place].clone()
                } else {
                    Scalar::Null(schema.fields[i].data_type.clone())
                };
                place += 1;
                read
            },
        };
        out.push(value);
        assert(scalars_view(out@) =~= scalars_view(before).push(value@));
        i += 1;
    }
    out
}

/// A batch as it was read, with the constants of its file in their places.
pub fn splice_file_constants(
    batch: &Batch,
    schema: &StructType,
    file_constant_columns: &[String],
    constants: &[Scalar],
) -> (r: DeltaResult<Batch>)
    requires
        file_constant_columns@.len() <= constants@.len(),
    ensures
        match spliced_batch(
            batch@,
            schema@,
            names_view(file_constant_columns@),
            scalars_view(constants@),
        ) {
            Ok(whole) => r matches Ok(found) && found@ == whole,
            Err(failure) => r matches Err(error) && failure.is(error),
        },
{
    let ghost names = names_view(file_constant_columns@);
    let ghost values = scalars_view(constants@);
    let read: StructType = read_schema(schema, file_constant_columns);
    assert(read@.len() == read.fields@.len());
    if read.fields.len() > batch.schema.fields.len() {
        return Err(Error::generic("scan output has fewer columns than schema"));
    }
    let mut rows: Vec<Vec<Scalar>> = Vec::new();
    let mut i: usize = 0;
    while i < batch.rows.len()
        invariant
            i <= batch.rows@.len(),
            file_constant_columns@.len() <= constants@.len(),
            names == names_view(file_constant_columns@),
            values == scalars_view(constants@),
            rows@.len() == i,
            forall|j: int|
                0 <= j < i ==> scalars_view((#[trigger] rows@[j])@) == spliced(
                    schema@,
                    names,
                    values,
                    batch@.rows[j],
                    schema@.len(),
                ),
        decreases batch.rows@.len() - i,
    {
        assert(batch@.rows[i as int] == scalars_view(batch.rows@[i as int]@));
        rows.push(splice_row(schema, file_constant_columns, constants, batch.rows[i].as_slice()));
        i += 1;
    }
    let whole: Batch = Batch { schema: schema.clone(), rows };
    assert(whole@.rows =~= batch@.rows.map_values(
        |row: Seq<ScalarView>| spliced(schema@, names, values, row, schema@.len()),
    ));
    Ok(whole)
}

/// Constants do not disturb what was read: each field that is not constant keeps its value, and the
/// constant ones have theirs.
pub proof fn law_constants_stand_in_their_places(
    fields: Seq<FieldView>,
    names: Seq<Seq<char>>,
    constants: Seq<ScalarView>,
    row: Seq<ScalarView>,
    n: nat,
    j: int,
)
    requires
        0 <= j < n <= fields.len(),
        row.len() == read_fields(fields, names, fields.len()).len(),
    ensures
        spliced(fields, names, constants, row, n).len() == n,
        match slot_from(names, fields[j].name, 0) {
            Some(slot) => spliced(fields, names, constants, row, n)[j] == constants[slot],
            None => {
                let place = read_fields(fields, names, j as nat).len() as int;
                &&& place < row.len()
                &&& read_fields(fields, names, fields.len())[place] == fields[j]
                &&& spliced(fields, names, constants, row, n)[j] == row[place]
            },
        },
    decreases n,
{
    lemma_spliced_len(fields, names, constants, row, n);
    lemma_read_fields_grow(fields, names, (j + 1) as nat, fields.len());
    if j < n - 1 {
        lemma_spliced_len(fields, names, constants, row, (n - 1) as nat);
        law_constants_stand_in_their_places(fields, names, constants, row, (n - 1) as nat, j);
    } else {
        lemma_spliced_len(fields, names, constants, row, j as nat);
    }
}

proof fn lemma_spliced_len(
    fields: Seq<FieldView>,
    names: Seq<Seq<char>>,
    constants: Seq<ScalarView>,
    row: Seq<ScalarView>,
    n: nat,
)
    requires
        n <= fields.len(),
    ensures
        spliced(fields, names, constants, row, n).len() == n,
    decreases n,
{
    if n > 0 {
        lemma_spliced_len(fields, names, constants, row, (n - 1) as nat);
    }
}

proof fn lemma_read_fields_grow(fields: Seq<FieldView>, names: Seq<Seq<char>>, n: nat, m: nat)
    requires
        n <= m <= fields.len(),
    ensures
        read_fields(fields, names, n).len() <= read_fields(fields, names, m).len(),
        forall|i: int|
            0 <= i < read_fields(fields, names, n).len() ==> #[trigger] read_fields(
                fields,
                names,
                m,
            )[i] == read_fields(fields, names, n)[i],
    decreases m,
{
    if n < m {
        lemma_read_fields_grow(fields, names, n, (m - 1) as nat);
    }
}

// ---------------------------------------------------------------------------------------------
// Literal rows
// ---------------------------------------------------------------------------------------------

/// The values of some rows in a column.
pub open spec fn column_of(rows: Seq<Seq<ScalarView>>, j: int) -> Seq<ScalarView> {
    rows.map_values(|row: Seq<ScalarView>| row[j])
}

/// Why the first of `n` columns with a value of another type has one.
pub open spec fn values_failure(
    fields: Seq<FieldView>,
    rows: Seq<Seq<ScalarView>>,
    n: nat,
) -> Option<Failure>
    decreases n,
{
    if n == 0 || n > fields.len() {
        None
    } else {
        match values_failure(fields, rows, (n - 1) as nat) {
            Some(failure) => Some(failure),
            None => match elements_problem(
                fields[n - 1].ty,
                true,
                column_of(rows, n - 1),
                rows.len(),
            ) {
                Some(problem) => Some(Failure::Schema(problem)),
                None => None,
            },
        }
    }
}

/// The first `width` values of each row.
pub open spec fn narrowed(rows: Seq<Seq<ScalarView>>, width: nat) -> Seq<Seq<ScalarView>> {
    rows.map_values(|row: Seq<ScalarView>| row.take(width as int))
}

/// The batch of some literal rows: as many values of each as there are fields.
pub open spec fn values_batch(fields: Seq<FieldView>, rows: Seq<Seq<ScalarView>>) -> Result<
    BatchView,
    Failure,
> {
    let cells = narrowed(rows, fields.len());
    match values_failure(fields, cells, fields.len()) {
        Some(failure) => Err(failure),
        None => if fields.len() == 0 {
            Err(Failure::Misfit("must either specify a row count or at least one column"@))
        } else {
            match nulls_failure(fields, cells, fields.len()) {
                Some(failure) => Err(failure),
                None => Ok(BatchView { fields, rows: cells }),
            }
        },
    }
}

/// The first `width` values of each row.
fn narrow(rows: &[Vec<Scalar>], width: usize) -> (r: Vec<Vec<Scalar>>)
    requires
        forall|i: int| 0 <= i < rows@.len() ==> (#[trigger] rows@[i])@.len() >= width,
    ensures
        rows_view(r@) == narrowed(rows_view(rows@), width as nat),
        forall|i: int| 0 <= i < r@.len() ==> (#[trigger] r@[i])@.len() == width,
{
    let mut out: Vec<Vec<Scalar>> = Vec::new();
    let mut i: usize = 0;
    while i < rows.len()
        invariant
            i <= rows@.len(),
            forall|j: int| 0 <= j < rows@.len() ==> (#[trigger] rows@[j])@.len() >= width,
            out@.len() == i,
            forall|j: int|
                0 <= j < i ==> (#[trigger] out@[j])@.len() == width && scalars_view(out@[j]@)
                    == scalars_view(rows@[j]@).take(width as int),
        decreases rows@.len() - i,
    {
        assert(rows@[i as int]@.len() >= width);
        let cells: &[Scalar] = vstd::slice::slice_subrange(rows[i].as_slice(), 0, width);
        let row: Vec<Scalar> = scalars_clone(cells);
        proof {
            assert(scalars_view(cells@) =~= scalars_view(rows@[i as int]@).take(width as int));
            assert(scalars_view(row@).len() == row@.len());
        }
        out.push(row);
        i += 1;
    }
    assert(rows_view(out@) =~= narrowed(rows_view(rows@), width as nat));
    out
}

proof fn lemma_values_failure_stays(
    fields: Seq<FieldView>,
    rows: Seq<Seq<ScalarView>>,
    n: nat,
    m: nat,
)
    requires
        n <= m <= fields.len(),
        values_failure(fields, rows, n) is Some,
    ensures
        values_failure(fields, rows, m) == values_failure(fields, rows, n),
    decreases m,
{
    if n < m {
        lemma_values_failure_stays(fields, rows, n, (m - 1) as nat);
    }
}

/// The batch of some literal rows, each with a value for each field.
pub fn values_to_record_batch(schema: StructType, rows: Vec<Vec<Scalar>>) -> (r: DeltaResult<Batch>)
    requires
        forall|i: int| 0 <= i < rows@.len() ==> (#[trigger] rows@[i])@.len() >= schema.fields@.len(),
    ensures
        match values_batch(schema@, rows_view(rows@)) {
            Ok(batch) => r matches Ok(found) && found@ == batch,
            Err(failure) => r matches Err(error) && failure.is(error),
        },
{
    let ghost fields = schema@;
    let width: usize = schema.fields.len();
    let whole: Vec<Vec<Scalar>> = narrow(rows.as_slice(), width);
    let ghost cells = rows_view(whole@);
    let mut j: usize = 0;
    while j < schema.fields.len()
        invariant
            j <= schema.fields@.len(),
            fields == schema@,
            cells == rows_view(whole@),
            cells == narrowed(rows_view(rows@), fields.len()),
            forall|i: int|
                0 <= i < whole@.len() ==> (#[trigger] whole@[i])@.len() == schema.fields@.len(),
            values_failure(fields, cells, j as nat) is None,
        decreases schema.fields@.len() - j,
    {
        assert(fields[j as int] == schema.fields@[j as int]@);
        let mut column: Vec<Scalar> = Vec::new();
        let mut i: usize = 0;
        while i < whole.len()
            invariant
                i <= whole@.len(),
                j < schema.fields@.len(),
                cells == rows_view(whole@),
                forall|k: int|
                    0 <= k < whole@.len() ==> (#[trigger] whole@[k])@.len() == schema.fields@.len(),
                column@.len() == i,
                forall|k: int| 0 <= k < i ==> (#[trigger] column@[k])@ == cells[k][j as int],
            decreases whole@.len() - i,
        {
            assert(whole@[i as int]@.len() == schema.fields@.len());
            assert(cells[i as int] == scalars_view(whole@[i as int]@));
            column.push(whole[i][j].clone());
            i += 1;
        }
        assert(scalars_view(column@) =~= column_of(cells, j as int));
        let element_type: ArrayType = ArrayType::new(schema.fields[j].data_type.clone(), true);
        match ArrayData::try_new(element_type, column) {
            Err(error) => {
                proof {
                    lemma_values_failure_stays(fields, cells, (j + 1) as nat, fields.len());
                }
                return Err(error);
            },
            Ok(_) => {},
        }
        j += 1;
    }
    if schema.fields.len() == 0 {
        return Err(Error::arrow("must either specify a row count or at least one column"));
    }
    match check_nulls(schema.fields.as_slice(), whole.as_slice()) {
        Err(error) => Err(error),
        Ok(_) => Ok(Batch { schema, rows: whole }),
    }
}

} // verus!
