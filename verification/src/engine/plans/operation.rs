//! What a plan executor is asked to do, and what it gives back.

use std::ops::Range;

use vstd::prelude::*;

use crate::error::{DeltaResult, Error};
use crate::schema::StructType;
use crate::FileMeta;

verus! {

/// A file, or a range of its bytes.
#[derive(Debug)]
pub struct FileSlice {
    /// Where the file is.
    pub location: String,
    /// The bytes to read, if not all of them.
    pub range: Option<Range<u64>>,
}

/// A query for rows.
#[derive(Debug)]
pub enum Query {
    /// The rows of JSON files.
    ScanJson {
        /// The files.
        files: Vec<FileMeta>,
        /// What is read of each row.
        schema: StructType,
    },
    /// The rows of Parquet files.
    ScanParquet {
        /// The files.
        files: Vec<FileMeta>,
        /// What is read of each row.
        schema: StructType,
    },
}

/// Something to do with files.
#[derive(Debug)]
pub enum IoOperation {
    /// List the files of a directory, or those after a file.
    FileListing(String),
    /// Read bytes.
    ReadBytes(Vec<FileSlice>),
    /// Copy a file, unless there is one at the destination.
    AtomicCopy {
        /// The file to copy.
        source: String,
        /// Where to.
        destination: String,
    },
    /// Write bytes to a file.
    WriteBytes {
        /// The file.
        path: String,
        /// The bytes.
        data: Vec<u8>,
        /// Whether a file that is there may be replaced.
        overwrite: bool,
    },
    /// Look up the metadata of a file.
    HeadFile(String),
    /// Read the footer of a Parquet file.
    ParquetFooter(FileMeta),
}

/// What an executor is asked to do.
#[derive(Debug)]
pub enum Operation {
    /// Answer a query.
    QueryPlan(Query),
    /// Do something with files.
    IoOperation(IoOperation),
}

/// What an executor gives back.
#[derive(Debug)]
pub enum PlanResult<D, F> {
    /// Rows.
    Data(D),
    /// The metadata of files, each as far as it could be had.
    FileMeta(Vec<DeltaResult<FileMeta>>),
    /// Bytes, each piece as far as it could be read.
    Bytes(Vec<DeltaResult<Vec<u8>>>),
    /// The footer of a Parquet file.
    ParquetFooter(F),
    /// Nothing.
    Unit,
}

impl<D, F> PlanResult<D, F> {
    /// What kind of result it is.
    pub open spec fn kind_name(self) -> Seq<char> {
        match self {
            PlanResult::Data(_) => "Data"@,
            PlanResult::FileMeta(_) => "FileMeta"@,
            PlanResult::Bytes(_) => "Bytes"@,
            PlanResult::ParquetFooter(_) => "ParquetFooter"@,
            PlanResult::Unit => "Unit"@,
        }
    }

    /// What kind of result it is.
    pub fn kind(&self) -> (r: &'static str)
        ensures
            r@ == self.kind_name(),
    {
        match self {
            PlanResult::Data(_) => "Data",
            PlanResult::FileMeta(_) => "FileMeta",
            PlanResult::Bytes(_) => "Bytes",
            PlanResult::ParquetFooter(_) => "ParquetFooter",
            PlanResult::Unit => "Unit",
        }
    }

    /// Whether an error says that another kind of result was expected.
    pub open spec fn is_mismatch(self, expected: Seq<char>, error: Error) -> bool {
        error matches Error::PlanResultTypeMismatch { expected: e, actual: a } && e@ == expected
            && a@ == self.kind_name()
    }

    /// The rows, if that is what was given back.
    pub fn into_data(self) -> (r: DeltaResult<D>)
        ensures
            match self {
                PlanResult::Data(data) => r == Ok::<D, Error>(data),
                _ => r matches Err(error) && self.is_mismatch("Data"@, error),
            },
    {
        match self {
            PlanResult::Data(data) => Ok(data),
            other => Err(Error::plan_result_type_mismatch("Data", other.kind())),
        }
    }

    /// The metadata of files, if that is what was given back.
    pub fn into_file_meta(self) -> (r: DeltaResult<Vec<DeltaResult<FileMeta>>>)
        ensures
            match self {
                PlanResult::FileMeta(metas) => r == Ok::<Vec<DeltaResult<FileMeta>>, Error>(metas),
                _ => r matches Err(error) && self.is_mismatch("FileMeta"@, error),
            },
    {
        match self {
            PlanResult::FileMeta(metas) => Ok(metas),
            other => Err(Error::plan_result_type_mismatch("FileMeta", other.kind())),
        }
    }

    /// The bytes, if that is what was given back.
    pub fn into_bytes(self) -> (r: DeltaResult<Vec<DeltaResult<Vec<u8>>>>)
        ensures
            match self {
                PlanResult::Bytes(bytes) => r == Ok::<Vec<DeltaResult<Vec<u8>>>, Error>(bytes),
                _ => r matches Err(error) && self.is_mismatch("Bytes"@, error),
            },
    {
        match self {
            PlanResult::Bytes(bytes) => Ok(bytes),
            other => Err(Error::plan_result_type_mismatch("Bytes", other.kind())),
        }
    }

    /// The footer of a Parquet file, if that is what was given back.
    pub fn into_parquet_footer(self) -> (r: DeltaResult<F>)
        ensures
            match self {
                PlanResult::ParquetFooter(footer) => r == Ok::<F, Error>(footer),
                _ => r matches Err(error) && self.is_mismatch("ParquetFooter"@, error),
            },
    {
        match self {
            PlanResult::ParquetFooter(footer) => Ok(footer),
            other => Err(Error::plan_result_type_mismatch("ParquetFooter", other.kind())),
        }
    }

    /// Nothing, if that is what was given back.
    pub fn into_unit(self) -> (r: DeltaResult<()>)
        ensures
            match self {
                PlanResult::Unit => r == Ok::<(), Error>(()),
                _ => r matches Err(error) && self.is_mismatch("Unit"@, error),
            },
    {
        match self {
            PlanResult::Unit => Ok(()),
            other => Err(Error::plan_result_type_mismatch("Unit", other.kind())),
        }
    }
}

/// Does what it is asked: answers queries and works with files.
pub trait PlanExecutor {
    /// The rows that it gives back.
    type Data;

    /// The footers that it gives back.
    type Footer;

    /// Whether it may give back a result when asked for something.
    closed spec fn may_give(
        &self,
        op: Operation,
        result: DeltaResult<PlanResult<Self::Data, Self::Footer>>,
    ) -> bool {
        true
    }

    /// Does what it is asked.
    fn execute_op(&self, op: Operation) -> (r: DeltaResult<PlanResult<Self::Data, Self::Footer>>)
        ensures
            self.may_give(op, r),
    ;
}

} // verus!
