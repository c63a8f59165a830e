//! The errors that the library reports.

use vstd::prelude::*;
use vstd::std_specs::convert::FromSpecImpl;

use crate::expressions::literal_expression_transform::Error as TransformError;
use crate::history_manager::error::LogHistoryError;
use crate::schema::DataType;
use crate::text::{decimal, push_decimal};
use crate::Version;

verus! {

// ---------------------------------------------------------------------------------------------
// Conversion errors
// ---------------------------------------------------------------------------------------------

/// A scalar that could not be converted: what was expected, what was found, and where in a nested
/// value.
#[derive(Debug)]
pub struct ScalarConversionError {
    expected: String,
    actual: String,
    // Innermost first: parents add themselves as the error passes them.
    path: Vec<String>,
}

/// What a conversion error says. The path goes from the innermost element out.
pub struct ConversionView {
    /// What was expected.
    pub expected: Seq<char>,
    /// What was found.
    pub actual: Seq<char>,
    /// Where, from the innermost element out.
    pub path: Seq<Seq<char>>,
}

impl View for ScalarConversionError {
    type V = ConversionView;

    closed spec fn view(&self) -> ConversionView {
        ConversionView {
            expected: self.expected@,
            actual: self.actual@,
            path: self.path@.map_values(|element: String| element@),
        }
    }
}

impl ConversionView {
    /// The outermost `n` elements of a path, with a dot before each one that is not an index.
    pub open spec fn path_text(path: Seq<Seq<char>>, n: nat) -> Seq<char>
        decreases n,
    {
        if n == 0 || n > path.len() {
            Seq::empty()
        } else {
            let before = Self::path_text(path, (n - 1) as nat);
            let element = path[path.len() - n];
            if before.len() > 0 && !(element.len() > 0 && element[0] == '[') {
                before + "."@ + element
            } else {
                before + element
            }
        }
    }

    /// The error as text.
    pub open spec fn text(self) -> Seq<char> {
        let path = Self::path_text(self.path, self.path.len());
        "Cannot convert "@ + (if path.len() == 0 {
            "scalar"@
        } else {
            path
        }) + ": expected "@ + self.expected + ", found "@ + self.actual
    }
}

impl ScalarConversionError {
    /// The error for a value that is not what was expected.
    pub fn new(expected: &str, actual: &str) -> (r: ScalarConversionError)
        ensures
            r@ == (ConversionView {
                expected: expected@,
                actual: actual@,
                path: Seq::<Seq<char>>::empty(),
            }),
    {
        let r: ScalarConversionError = ScalarConversionError {
            expected: expected.to_owned(),
            actual: actual.to_owned(),
            path: Vec::new(),
        };
        assert(r@.path =~= Seq::<Seq<char>>::empty());
        r
    }

    /// The error as its parent `element` sees it.
    pub fn add_path_context(self, element: &str) -> (r: ScalarConversionError)
        ensures
            r@ == (ConversionView { path: self@.path.push(element@), ..self@ }),
    {
        let mut path: Vec<String> = self.path;
        path.push(element.to_owned());
        let r: ScalarConversionError = ScalarConversionError {
            expected: self.expected,
            actual: self.actual,
            path,
        };
        assert(r@.path =~= self@.path.push(element@));
        r
    }

    /// Where the value is, from the outermost element in.
    pub fn path_string(&self) -> (r: String)
        ensures
            r@ == ConversionView::path_text(self@.path, self@.path.len()),
    {
        let mut path: String = String::new();
        let mut n: usize = 0;
        assert(path@ =~= ConversionView::path_text(self@.path, 0));
        while n < self.path.len()
            invariant
                n <= self.path.len(),
                path@ == ConversionView::path_text(self@.path, n as nat),
            decreases self.path.len() - n,
        {
            let element: &str = self.path[self.path.len() - 1 - n].as_str();
            assert(element@ == self@.path[self@.path.len() - (n + 1)]);
            let is_index: bool = !element.is_empty() && element.get_char(0) == '[';
            if !path.as_str().is_empty() && !is_index {
                path.append(".");
            }
            path.append(element);
            n += 1;
        }
        path
    }

    /// The error as text.
    pub fn to_string(&self) -> (r: String)
        ensures
            r@ == self@.text(),
    {
        let path: String = self.path_string();
        let mut text: String = "Cannot convert ".to_owned();
        if path.as_str().is_empty() {
            text.append("scalar");
        } else {
            text.append(path.as_str());
        }
        text.append(": expected ");
        text.append(self.expected.as_str());
        text.append(", found ");
        text.append(self.actual.as_str());
        text
    }
}

/// Adds the place of a nested value to a conversion error; other errors stay as they are.
pub fn add_scalar_path_context(error: Error, element: &str) -> (r: Error)
    ensures
        match error {
            Error::ScalarConversion(inner) => r matches Error::ScalarConversion(outer) && outer@ == (
            ConversionView { path: inner@.path.push(element@), ..inner@ }),
            _ => r == error,
        },
{
    match error {
        Error::ScalarConversion(inner) => Error::ScalarConversion(inner.add_path_context(element)),
        other => other,
    }
}

// ---------------------------------------------------------------------------------------------
// Errors
// ---------------------------------------------------------------------------------------------

/// The error of most of the library's functions.
#[derive(Debug)]
pub enum Error {
    /// A checkpoint could not be written.
    CheckpointWrite(String),
    /// Engine data was not of the expected kind.
    EngineDataType(String),
    /// An error with a message of its own.
    Generic(String),
    /// A catalog version beyond the largest one.
    MaxCatalogVersion(String),
    /// Something that should not happen.
    InternalError(String),
    /// A file does not exist.
    FileNotFound(String),
    /// A column does not exist.
    MissingColumn(String),
    /// Partition values that do not fit the table.
    InvalidPartitionValues(String),
    /// A column has another type than expected.
    UnexpectedColumnType(String),
    /// Expected data is missing.
    MissingData(String),
    /// A deletion vector is broken.
    DeletionVector(String),
    /// A selection vector is longer than the data that it selects from.
    InvalidSelectionVector(String),
    /// A transaction is not in a state for what was asked.
    InvalidTransactionState(String),
    /// A protocol action that is not valid.
    InvalidProtocol(String),
    /// A task could not be joined.
    JoinFailure(String),
    /// A column mapping mode that does not exist.
    InvalidColumnMappingMode(String),
    /// A table location that is not valid.
    InvalidTableLocation(String),
    /// A decimal, or a decimal type, that does not fit its limits.
    InvalidDecimal(String),
    /// Values that do not fit the fields of a struct.
    InvalidStructData(String),
    /// An expression that cannot be evaluated.
    InvalidExpressionEvaluation(String),
    /// A log path that is not valid.
    InvalidLogPath(String),
    /// A file exists already.
    FileAlreadyExists(String),
    /// Something that is not supported.
    Unsupported(String),
    /// A checksum cannot be written.
    ChecksumWriteUnsupported(String),
    /// A checkpoint that is not valid.
    InvalidCheckpoint(String),
    /// A value or a type that does not fit a schema.
    Schema(String),
    /// Statistics that are not valid.
    StatsValidation(String),
    /// Arrow data or types that do not fit.
    Arrow(String),
    /// A failure of another library, with its text.
    GenericError(String),
    /// Reading or writing failed, with the text of the failure.
    IOError(String),
    /// A Parquet file could not be read or written.
    Parquet(String),
    /// An object store failed.
    ObjectStore(String),
    /// A path that an object store does not take.
    ObjectStorePath(String),
    /// A web request failed.
    Reqwest(String),
    /// A URL that is not valid.
    InvalidUrl(String),
    /// JSON text that is not valid, with the text of the failure.
    MalformedJson(String),
    /// Bytes that are not UTF-8.
    Utf8Error(String),
    /// A text that is no integer.
    ParseIntError(String),
    /// Parameters of a geographic type that are not valid.
    InvalidGeoParams(String),
    /// A failure of the engine that reads and writes for the library, with its text.
    Engine(String),
    /// A value of one type could not be read as another.
    Extract(&'static str, &'static str),
    /// A scalar could not be converted.
    ScalarConversion(ScalarConversionError),
    /// The versions at the end of the log do not follow one another.
    LogTailVersionsNotContiguous {
        /// The version before the gap.
        first_version: Version,
        /// The version after it.
        second_version: Version,
    },
    /// No table version was found.
    MissingVersion,
    /// The log has no table metadata.
    MissingMetadata,
    /// The log has no protocol.
    MissingProtocol,
    /// The log has neither table metadata nor a protocol.
    MissingMetadataAndProtocol,
    /// A text that is no value of a type.
    ParseError(String, DataType),
    /// The table has no change data feed at a version.
    ChangeDataFeedUnsupported(Version),
    /// The table has no row tracking at a version of a change feed.
    RowTrackingChangeFeedUnsupported(Version),
    /// The schema changed within a change data feed: the expected one and the one found.
    ChangeDataFeedIncompatibleSchema(String, String),
    /// Scalars that do not fit a schema.
    LiteralExpressionTransformError(TransformError),
    /// A timestamp query that could not be answered.
    LogHistory(Box<LogHistoryError>),
    /// A plan gave another kind of result than expected.
    PlanResultTypeMismatch {
        /// The expected kind.
        expected: &'static str,
        /// The kind found.
        actual: &'static str,
    },
    /// The operation was cancelled.
    Cancelled,
}

/// The result of most of the library's functions.
pub type DeltaResult<T> = Result<T, Error>;

impl Error {
    /// The error as text.
    pub open spec fn text(self) -> Seq<char>
        decreases self,
    {
        match self {
            Error::CheckpointWrite(s) => "Error writing checkpoint: "@ + s@,
            Error::EngineDataType(s) => "Invalid engine data type. Could not convert to "@ + s@,
            Error::Generic(s) => "Generic delta kernel error: "@ + s@,
            Error::MaxCatalogVersion(s) => "Max catalog version error: "@ + s@,
            Error::InternalError(s) => "Internal error "@ + s@ + ". This is a kernel bug, please report."@,
            Error::FileNotFound(s) => "File not found: "@ + s@,
            Error::MissingColumn(s) => s@,
            Error::InvalidPartitionValues(s) => "Invalid partition values: "@ + s@,
            Error::UnexpectedColumnType(s) => "Expected column type: "@ + s@,
            Error::MissingData(s) => "Expected is missing: "@ + s@,
            Error::DeletionVector(s) => "Deletion Vector error: "@ + s@,
            Error::InvalidSelectionVector(s) => "Selection vector is larger than data length: "@ + s@,
            Error::InvalidTransactionState(s) => "Invalid transaction state: "@ + s@,
            Error::InvalidProtocol(s) => "Invalid protocol action in the delta log: "@ + s@,
            Error::JoinFailure(s) => "Join failure: "@ + s@,
            Error::InvalidColumnMappingMode(s) => "Invalid column mapping mode: "@ + s@,
            Error::InvalidTableLocation(s) => "Invalid table location: "@ + s@ + "."@,
            Error::InvalidDecimal(s) => "Invalid decimal: "@ + s@,
            Error::InvalidStructData(s) => "Invalid struct data: "@ + s@,
            Error::InvalidExpressionEvaluation(s) => "Invalid expression evaluation: "@ + s@,
            Error::InvalidLogPath(s) => "Invalid log path: "@ + s@,
            Error::FileAlreadyExists(s) => "File already exists: "@ + s@,
            Error::Unsupported(s) => "Unsupported: "@ + s@,
            Error::ChecksumWriteUnsupported(s) => "Checksum write unsupported: "@ + s@,
            Error::InvalidCheckpoint(s) => "Invalid Checkpoint: "@ + s@,
            Error::Schema(s) => "Schema error: "@ + s@,
            Error::StatsValidation(s) => "Stats validation error: "@ + s@,
            Error::Arrow(s) => "Invalid argument error: "@ + s@,
            Error::GenericError(s) => "Generic error: "@ + s@,
            Error::IOError(s) => s@,
            Error::Parquet(s) => "Arrow error: "@ + s@,
            Error::ObjectStore(s) => "Error interacting with object store: "@ + s@,
            Error::ObjectStorePath(s) => "Object store path error: "@ + s@,
            Error::Reqwest(s) => "Reqwest Error: "@ + s@,
            Error::InvalidUrl(s) => "Invalid url: "@ + s@,
            Error::MalformedJson(s) => s@,
            Error::Utf8Error(s) => "Could not convert to string from utf-8: "@ + s@,
            Error::ParseIntError(s) => "Could not parse int: "@ + s@,
            Error::InvalidGeoParams(s) => "Invalid geo parameters: "@ + s@,
            Error::Engine(s) => s@,
            Error::Extract(ty, field) => "Error extracting type "@ + ty@ + ": "@ + field@,
            Error::ScalarConversion(error) => error@.text(),
            Error::LogTailVersionsNotContiguous { first_version, second_version } => "Log tail versions "@ + decimal(first_version as int) + " and "@ + decimal(
                    second_version as int,
                ) + " are not contiguous"@,
            Error::MissingVersion => "No table version found."@,
            Error::MissingMetadata => "No table metadata found in delta log."@,
            Error::MissingProtocol => "No protocol found in delta log."@,
            Error::MissingMetadataAndProtocol => "No table metadata or protocol found in delta log."@,
            Error::ParseError(raw, ty) => "Failed to parse value '"@ + raw@ + "' as '"@ + ty@.text() + "'"@,
            Error::ChangeDataFeedUnsupported(version) => "Change data feed is unsupported for the table at version "@ + decimal(
                    version as int,
                ),
            Error::RowTrackingChangeFeedUnsupported(version) => "Row tracking (delta.enableRowTracking) must be enabled for the entire row-tracking change feed range, but it is not enabled at version "@
                    + decimal(version as int),
            Error::ChangeDataFeedIncompatibleSchema(expected, actual) => "Change data feed encountered incompatible schema. Expected "@ + expected@ + ", got "@
                    + actual@,
            Error::PlanResultTypeMismatch { expected, actual } => "Declarative plan execution yielded the incorrect type: expected PlanResult::"@
                    + expected@ + ", got PlanResult::"@ + actual@,
            Error::Cancelled => "Operation cancelled"@,
            Error::LiteralExpressionTransformError(error) => error.text(),
            Error::LogHistory(error) => error.text(),
        }
    }

    /// The error as text.
    pub fn to_string(&self) -> (r: String)
        ensures
            r@ == self.text(),
        decreases self,
    {
        let mut text: String = String::new();
        match self {
            Error::CheckpointWrite(s) => {
                text.append("Error writing checkpoint: ");
                text.append(s.as_str());
            },
            Error::EngineDataType(s) => {
                text.append("Invalid engine data type. Could not convert to ");
                text.append(s.as_str());
            },
            Error::Generic(s) => {
                text.append("Generic delta kernel error: ");
                text.append(s.as_str());
            },
            Error::MaxCatalogVersion(s) => {
                text.append("Max catalog version error: ");
                text.append(s.as_str());
            },
            Error::InternalError(s) => {
                text.append("Internal error ");
                text.append(s.as_str());
                text.append(". This is a kernel bug, please report.");
            },
            Error::FileNotFound(s) => {
                text.append("File not found: ");
                text.append(s.as_str());
            },
            Error::MissingColumn(s) => {
                text.append(s.as_str());
            },
            Error::InvalidPartitionValues(s) => {
                text.append("Invalid partition values: ");
                text.append(s.as_str());
            },
            Error::UnexpectedColumnType(s) => {
                text.append("Expected column type: ");
                text.append(s.as_str());
            },
            Error::MissingData(s) => {
                text.append("Expected is missing: ");
                text.append(s.as_str());
            },
            Error::DeletionVector(s) => {
                text.append("Deletion Vector error: ");
                text.append(s.as_str());
            },
            Error::InvalidSelectionVector(s) => {
                text.append("Selection vector is larger than data length: ");
                text.append(s.as_str());
            },
            Error::InvalidTransactionState(s) => {
                text.append("Invalid transaction state: ");
                text.append(s.as_str());
            },
            Error::InvalidProtocol(s) => {
                text.append("Invalid protocol action in the delta log: ");
                text.append(s.as_str());
            },
            Error::JoinFailure(s) => {
                text.append("Join failure: ");
                text.append(s.as_str());
            },
            Error::InvalidColumnMappingMode(s) => {
                text.append("Invalid column mapping mode: ");
                text.append(s.as_str());
            },
            Error::InvalidTableLocation(s) => {
                text.append("Invalid table location: ");
                text.append(s.as_str());
                text.append(".");
            },
            Error::InvalidDecimal(s) => {
                text.append("Invalid decimal: ");
                text.append(s.as_str());
            },
            Error::InvalidStructData(s) => {
                text.append("Invalid struct data: ");
                text.append(s.as_str());
            },
            Error::InvalidExpressionEvaluation(s) => {
                text.append("Invalid expression evaluation: ");
                text.append(s.as_str());
            },
            Error::InvalidLogPath(s) => {
                text.append("Invalid log path: ");
                text.append(s.as_str());
            },
            Error::FileAlreadyExists(s) => {
                text.append("File already exists: ");
                text.append(s.as_str());
            },
            Error::Unsupported(s) => {
                text.append("Unsupported: ");
                text.append(s.as_str());
            },
            Error::ChecksumWriteUnsupported(s) => {
                text.append("Checksum write unsupported: ");
                text.append(s.as_str());
            },
            Error::InvalidCheckpoint(s) => {
                text.append("Invalid Checkpoint: ");
                text.append(s.as_str());
            },
            Error::Schema(s) => {
                text.append("Schema error: ");
                text.append(s.as_str());
            },
            Error::StatsValidation(s) => {
                text.append("Stats validation error: ");
                text.append(s.as_str());
            },
            Error::Arrow(s) => {
                text.append("Invalid argument error: ");
                text.append(s.as_str());
            },
            Error::GenericError(s) => {
                text.append("Generic error: ");
                text.append(s.as_str());
            },
            Error::IOError(s) => {
                text.append(s.as_str());
            },
            Error::Parquet(s) => {
                text.append("Arrow error: ");
                text.append(s.as_str());
            },
            Error::ObjectStore(s) => {
                text.append("Error interacting with object store: ");
                text.append(s.as_str());
            },
            Error::ObjectStorePath(s) => {
                text.append("Object store path error: ");
                text.append(s.as_str());
            },
            Error::Reqwest(s) => {
                text.append("Reqwest Error: ");
                text.append(s.as_str());
            },
            Error::InvalidUrl(s) => {
                text.append("Invalid url: ");
                text.append(s.as_str());
            },
            Error::MalformedJson(s) => {
                text.append(s.as_str());
            },
            Error::Utf8Error(s) => {
                text.append("Could not convert to string from utf-8: ");
                text.append(s.as_str());
            },
            Error::ParseIntError(s) => {
                text.append("Could not parse int: ");
                text.append(s.as_str());
            },
            Error::InvalidGeoParams(s) => {
                text.append("Invalid geo parameters: ");
                text.append(s.as_str());
            },
            Error::Engine(s) => {
                text.append(s.as_str());
            },
            Error::Extract(ty, field) => {
                text.append("Error extracting type ");
                text.append(ty);
                text.append(": ");
                text.append(field);
            },
            Error::ScalarConversion(error) => {
                text.append(error.to_string().as_str());
            },
            Error::LogTailVersionsNotContiguous { first_version, second_version } => {
                text.append("Log tail versions ");
                push_decimal(&mut text, *first_version as i128);
                text.append(" and ");
                push_decimal(&mut text, *second_version as i128);
                text.append(" are not contiguous");
            },
            Error::MissingVersion => {
                text.append("No table version found.");
            },
            Error::MissingMetadata => {
                text.append("No table metadata found in delta log.");
            },
            Error::MissingProtocol => {
                text.append("No protocol found in delta log.");
            },
            Error::MissingMetadataAndProtocol => {
                text.append("No table metadata or protocol found in delta log.");
            },
            Error::ParseError(raw, ty) => {
                text.append("Failed to parse value '");
                text.append(raw.as_str());
                text.append("' as '");
                text.append(ty.to_string().as_str());
                text.append("'");
            },
            Error::ChangeDataFeedUnsupported(version) => {
                text.append("Change data feed is unsupported for the table at version ");
                push_decimal(&mut text, *version as i128);
            },
            Error::RowTrackingChangeFeedUnsupported(version) => {
                text.append(
                    "Row tracking (delta.enableRowTracking) must be enabled for the entire row-tracking change feed range, but it is not enabled at version ",
                );
                push_decimal(&mut text, *version as i128);
            },
            Error::ChangeDataFeedIncompatibleSchema(expected, actual) => {
                text.append("Change data feed encountered incompatible schema. Expected ");
                text.append(expected.as_str());
                text.append(", got ");
                text.append(actual.as_str());
            },
            Error::PlanResultTypeMismatch { expected, actual } => {
                text.append(
                    "Declarative plan execution yielded the incorrect type: expected PlanResult::",
                );
                text.append(expected);
                text.append(", got PlanResult::");
                text.append(actual);
            },
            Error::Cancelled => {
                text.append("Operation cancelled");
            },
            Error::LiteralExpressionTransformError(error) => {
                text.append(error.to_string().as_str());
            },
            Error::LogHistory(error) => {
                text.append(error.to_string().as_str());
            },
        }
        assert(text@ =~= self.text());
        text
    }

    /// The error for a scalar that is not what was expected.
    pub fn scalar_conversion(expected: &str, actual: &str) -> (r: Error)
        ensures
            r matches Error::ScalarConversion(error) && error@ == (ConversionView {
                expected: expected@,
                actual: actual@,
                path: Seq::<Seq<char>>::empty(),
            }),
    {
        Error::ScalarConversion(ScalarConversionError::new(expected, actual))
    }

    /// A checkpoint could not be written.
    pub fn checkpoint_write(message: &str) -> (r: Error)
        ensures
            r matches Error::CheckpointWrite(text) && text@ == message@,
    {
        Error::CheckpointWrite(message.to_owned())
    }

    /// A failure of another library, with its text.
    pub fn generic_err(message: &str) -> (r: Error)
        ensures
            r matches Error::GenericError(text) && text@ == message@,
    {
        Error::GenericError(message.to_owned())
    }

    /// A URL that is not valid.
    pub fn invalid_url(message: &str) -> (r: Error)
        ensures
            r matches Error::InvalidUrl(text) && text@ == message@,
    {
        Error::InvalidUrl(message.to_owned())
    }

    /// Parameters of a geographic type that are not valid.
    pub fn invalid_geo_params(message: &str) -> (r: Error)
        ensures
            r matches Error::InvalidGeoParams(text) && text@ == message@,
    {
        Error::InvalidGeoParams(message.to_owned())
    }

    /// Engine data was not of the expected kind.
    pub fn engine_data_type(message: &str) -> (r: Error)
        ensures
            r matches Error::EngineDataType(text) && text@ == message@,
    {
        Error::EngineDataType(message.to_owned())
    }

    /// An error with a message of its own.
    pub fn generic(message: &str) -> (r: Error)
        ensures
            r matches Error::Generic(text) && text@ == message@,
    {
        Error::Generic(message.to_owned())
    }

    /// Something that should not happen.
    pub fn internal_error(message: &str) -> (r: Error)
        ensures
            r matches Error::InternalError(text) && text@ == message@,
    {
        Error::InternalError(message.to_owned())
    }

    /// A file does not exist.
    pub fn file_not_found(message: &str) -> (r: Error)
        ensures
            r matches Error::FileNotFound(text) && text@ == message@,
    {
        Error::FileNotFound(message.to_owned())
    }

    /// A column does not exist.
    pub fn missing_column(message: &str) -> (r: Error)
        ensures
            r matches Error::MissingColumn(text) && text@ == message@,
    {
        Error::MissingColumn(message.to_owned())
    }

    /// Partition values that do not fit the table.
    pub fn invalid_partition_values(message: &str) -> (r: Error)
        ensures
            r matches Error::InvalidPartitionValues(text) && text@ == message@,
    {
        Error::InvalidPartitionValues(message.to_owned())
    }

    /// A column has another type than expected.
    pub fn unexpected_column_type(message: &str) -> (r: Error)
        ensures
            r matches Error::UnexpectedColumnType(text) && text@ == message@,
    {
        Error::UnexpectedColumnType(message.to_owned())
    }

    /// Expected data is missing.
    pub fn missing_data(message: &str) -> (r: Error)
        ensures
            r matches Error::MissingData(text) && text@ == message@,
    {
        Error::MissingData(message.to_owned())
    }

    /// A deletion vector is broken.
    pub fn deletion_vector(message: &str) -> (r: Error)
        ensures
            r matches Error::DeletionVector(text) && text@ == message@,
    {
        Error::DeletionVector(message.to_owned())
    }

    /// A transaction is not in a state for what was asked.
    pub fn invalid_transaction_state(message: &str) -> (r: Error)
        ensures
            r matches Error::InvalidTransactionState(text) && text@ == message@,
    {
        Error::InvalidTransactionState(message.to_owned())
    }

    /// A protocol action that is not valid.
    pub fn invalid_protocol(message: &str) -> (r: Error)
        ensures
            r matches Error::InvalidProtocol(text) && text@ == message@,
    {
        Error::InvalidProtocol(message.to_owned())
    }

    /// A task could not be joined.
    pub fn join_failure(message: &str) -> (r: Error)
        ensures
            r matches Error::JoinFailure(text) && text@ == message@,
    {
        Error::JoinFailure(message.to_owned())
    }

    /// A column mapping mode that does not exist.
    pub fn invalid_column_mapping_mode(message: &str) -> (r: Error)
        ensures
            r matches Error::InvalidColumnMappingMode(text) && text@ == message@,
    {
        Error::InvalidColumnMappingMode(message.to_owned())
    }

    /// A table location that is not valid.
    pub fn invalid_table_location(message: &str) -> (r: Error)
        ensures
            r matches Error::InvalidTableLocation(text) && text@ == message@,
    {
        Error::InvalidTableLocation(message.to_owned())
    }

    /// A decimal, or a decimal type, that does not fit its limits.
    pub fn invalid_decimal(message: &str) -> (r: Error)
        ensures
            r matches Error::InvalidDecimal(text) && text@ == message@,
    {
        Error::InvalidDecimal(message.to_owned())
    }

    /// Values that do not fit the fields of a struct.
    pub fn invalid_struct_data(message: &str) -> (r: Error)
        ensures
            r matches Error::InvalidStructData(text) && text@ == message@,
    {
        Error::InvalidStructData(message.to_owned())
    }

    /// An expression that cannot be evaluated.
    pub fn invalid_expression(message: &str) -> (r: Error)
        ensures
            r matches Error::InvalidExpressionEvaluation(text) && text@ == message@,
    {
        Error::InvalidExpressionEvaluation(message.to_owned())
    }

    /// A log path that is not valid.
    pub fn invalid_log_path(message: &str) -> (r: Error)
        ensures
            r matches Error::InvalidLogPath(text) && text@ == message@,
    {
        Error::InvalidLogPath(message.to_owned())
    }

    /// Something that is not supported.
    pub fn unsupported(message: &str) -> (r: Error)
        ensures
            r matches Error::Unsupported(text) && text@ == message@,
    {
        Error::Unsupported(message.to_owned())
    }

    /// A checkpoint that is not valid.
    pub fn invalid_checkpoint(message: &str) -> (r: Error)
        ensures
            r matches Error::InvalidCheckpoint(text) && text@ == message@,
    {
        Error::InvalidCheckpoint(message.to_owned())
    }

    /// A value or a type that does not fit a schema.
    pub fn schema(message: &str) -> (r: Error)
        ensures
            r matches Error::Schema(text) && text@ == message@,
    {
        Error::Schema(message.to_owned())
    }

    /// Statistics that are not valid.
    pub fn stats_validation(message: &str) -> (r: Error)
        ensures
            r matches Error::StatsValidation(text) && text@ == message@,
    {
        Error::StatsValidation(message.to_owned())
    }

    /// Arrow data or types that do not fit.
    pub fn arrow(message: &str) -> (r: Error)
        ensures
            r matches Error::Arrow(text) && text@ == message@,
    {
        Error::Arrow(message.to_owned())
    }

    /// A failure of the engine that reads and writes for the library, with its text.
    pub fn engine(message: &str) -> (r: Error)
        ensures
            r matches Error::Engine(text) && text@ == message@,
    {
        Error::Engine(message.to_owned())
    }

    /// The table has no change data feed at a version.
    pub fn change_data_feed_unsupported(version: Version) -> (r: Error)
        ensures
            r == Error::ChangeDataFeedUnsupported(version),
    {
        Error::ChangeDataFeedUnsupported(version)
    }

    /// The table has no row tracking at a version of a change feed.
    pub fn row_tracking_change_feed_unsupported(version: Version) -> (r: Error)
        ensures
            r == Error::RowTrackingChangeFeedUnsupported(version),
    {
        Error::RowTrackingChangeFeedUnsupported(version)
    }

    /// The schema changed within a change data feed.
    pub fn change_data_feed_incompatible_schema(expected: &DataType, actual: &DataType) -> (r: Error)
        ensures
            r matches Error::ChangeDataFeedIncompatibleSchema(e, a) && e@ == expected@.text() && a@
                == actual@.text(),
    {
        Error::ChangeDataFeedIncompatibleSchema(expected.to_string(), actual.to_string())
    }

    /// The schema changed within a change data feed, at a version.
    pub fn change_data_feed_incompatible_schema_at_version(
        expected: &DataType,
        actual: &DataType,
        version: Version,
    ) -> (r: Error)
        ensures
            r matches Error::ChangeDataFeedIncompatibleSchema(e, a) && e@ == expected@.text() && a@
                == "schema at version "@ + decimal(version as int) + ": "@ + actual@.text(),
    {
        let mut found: String = "schema at version ".to_owned();
        push_decimal(&mut found, version as i128);
        found.append(": ");
        found.append(actual.to_string().as_str());
        Error::ChangeDataFeedIncompatibleSchema(expected.to_string(), found)
    }

    /// A plan gave another kind of result than expected.
    pub fn plan_result_type_mismatch(expected: &'static str, actual: &'static str) -> (r: Error)
        ensures
            r == (Error::PlanResultTypeMismatch { expected, actual }),
    {
        Error::PlanResultTypeMismatch { expected, actual }
    }
}

impl From<ScalarConversionError> for Error {
    fn from(error: ScalarConversionError) -> (r: Error) {
        Error::ScalarConversion(error)
    }
}

impl FromSpecImpl<ScalarConversionError> for Error {
    open spec fn obeys_from_spec() -> bool {
        true
    }

    open spec fn from_spec(error: ScalarConversionError) -> Error {
        Error::ScalarConversion(error)
    }
}

impl From<TransformError> for Error {
    fn from(error: TransformError) -> (r: Error) {
        Error::LiteralExpressionTransformError(error)
    }
}

impl FromSpecImpl<TransformError> for Error {
    open spec fn obeys_from_spec() -> bool {
        true
    }

    open spec fn from_spec(error: TransformError) -> Error {
        Error::LiteralExpressionTransformError(error)
    }
}

impl From<Box<LogHistoryError>> for Error {
    fn from(error: Box<LogHistoryError>) -> (r: Error) {
        Error::LogHistory(error)
    }
}

impl FromSpecImpl<Box<LogHistoryError>> for Error {
    open spec fn obeys_from_spec() -> bool {
        true
    }

    open spec fn from_spec(error: Box<LogHistoryError>) -> Error {
        Error::LogHistory(error)
    }
}

} // verus!
