//! Storage by way of a plan executor.

use std::sync::Arc;

use itertools::Itertools;
use vstd::prelude::*;

use super::operation::{FileSlice, IoOperation, Operation, PlanExecutor, PlanResult};
use crate::error::{DeltaResult, Error};
use crate::FileMeta;

verus! {

/// Works with files by asking a plan executor.
#[derive(Debug)]
pub struct PlanBasedStorageHandler<P: PlanExecutor> {
    executor: Arc<P>,
}

/// The text that says how many there were where one was expected.
pub open spec fn not_one(count: nat) -> Seq<char> {
    if count == 0 {
        "got zero elements when exactly one was expected"@
    } else {
        "got at least 2 elements when exactly one was expected"@
    }
}

/// The only item of a list, or the text that says that there is none or more than one, as
/// `itertools::Itertools::exactly_one` has it.
#[verifier::external_body]
fn exactly_one<T>(items: Vec<T>) -> (r: Result<T, String>)
    ensures
        match r {
            Ok(item) => items@.len() == 1 && item == items@[0],
            Err(text) => items@.len() != 1 && text@ == not_one(items@.len()),
        },
{
    items.into_iter().exactly_one().map_err(|error| error.to_string())
}

/// What is said of a file, from what was given back for it.
pub open spec fn is_head<D, F>(
    result: DeltaResult<PlanResult<D, F>>,
    r: DeltaResult<FileMeta>,
) -> bool {
    match result {
        Err(error) => r == Err::<FileMeta, Error>(error),
        Ok(PlanResult::FileMeta(metas)) => if metas@.len() == 1 {
            r == metas@[0]
        } else {
            r matches Err(Error::Generic(message)) && message@
                == "Expected exactly one file meta: "@ + not_one(metas@.len())
        },
        Ok(other) => r matches Err(error) && other.is_mismatch("FileMeta"@, error),
    }
}

/// What is said of a file, from what was given back for it: there has to be the metadata of exactly
/// one file.
pub fn head_of<D, F>(result: DeltaResult<PlanResult<D, F>>) -> (r: DeltaResult<FileMeta>)
    ensures
        is_head(result, r),
{
    match result {
        Err(error) => Err(error),
        Ok(result) => match result.into_file_meta() {
            Err(error) => Err(error),
            Ok(metas) => match exactly_one(metas) {
                Ok(meta) => meta,
                Err(text) => {
                    let mut message: String = "Expected exactly one file meta: ".to_owned();
                    message.append(text.as_str());
                    Err(Error::Generic(message))
                },
            },
        },
    }
}

impl<P: PlanExecutor> PlanBasedStorageHandler<P> {
    /// The executor.
    pub closed spec fn asks(self) -> P {
        *self.executor
    }

    /// A handler that asks an executor.
    pub fn new(executor: Arc<P>) -> (r: PlanBasedStorageHandler<P>)
        ensures
            r.asks() == *executor,
    {
        PlanBasedStorageHandler { executor }
    }

    fn execute_io(&self, op: IoOperation) -> (r: DeltaResult<PlanResult<P::Data, P::Footer>>)
        ensures
            self.asks().may_give(Operation::IoOperation(op), r),
    {
        self.executor.execute_op(Operation::IoOperation(op))
    }

    /// The files of a directory, or those after a file.
    pub fn list_from(&self, path: &str) -> (r: DeltaResult<Vec<DeltaResult<FileMeta>>>)
        ensures
            exists|op: IoOperation, result: DeltaResult<PlanResult<P::Data, P::Footer>>|
                {
                    &&& #[trigger] self.asks().may_give(Operation::IoOperation(op), result)
                    &&& op matches IoOperation::FileListing(p) && p@ == path@
                    &&& match result {
                        Err(error) => r == Err::<Vec<DeltaResult<FileMeta>>, Error>(error),
                        Ok(PlanResult::FileMeta(metas)) => r == Ok::<
                            Vec<DeltaResult<FileMeta>>,
                            Error,
                        >(metas),
                        Ok(other) => r matches Err(error) && other.is_mismatch("FileMeta"@, error),
                    }
                },
    {
        match self.execute_io(IoOperation::FileListing(path.to_owned())) {
            Err(error) => Err(error),
            Ok(result) => result.into_file_meta(),
        }
    }

    /// The bytes of files, or of ranges of them.
    pub fn read_files(&self, files: Vec<FileSlice>) -> (r: DeltaResult<Vec<DeltaResult<Vec<u8>>>>)
        ensures
            exists|result: DeltaResult<PlanResult<P::Data, P::Footer>>|
                {
                    &&& #[trigger] self.asks().may_give(
                        Operation::IoOperation(IoOperation::ReadBytes(files)),
                        result,
                    )
                    &&& match result {
                        Err(error) => r == Err::<Vec<DeltaResult<Vec<u8>>>, Error>(error),
                        Ok(PlanResult::Bytes(bytes)) => r == Ok::<
                            Vec<DeltaResult<Vec<u8>>>,
                            Error,
                        >(bytes),
                        Ok(other) => r matches Err(error) && other.is_mismatch("Bytes"@, error),
                    }
                },
    {
        match self.execute_io(IoOperation::ReadBytes(files)) {
            Err(error) => Err(error),
            Ok(result) => result.into_bytes(),
        }
    }

    /// Copies a file, unless there is one at the destination.
    pub fn copy_atomic(&self, src: &str, dest: &str) -> (r: DeltaResult<()>)
        ensures
            exists|op: IoOperation, result: DeltaResult<PlanResult<P::Data, P::Footer>>|
                {
                    &&& #[trigger] self.asks().may_give(Operation::IoOperation(op), result)
                    &&& op matches IoOperation::AtomicCopy { source, destination } && source@
                        == src@ && destination@ == dest@
                    &&& is_done(result, r)
                },
    {
        let op: IoOperation = IoOperation::AtomicCopy {
            source: src.to_owned(),
            destination: dest.to_owned(),
        };
        done(self.execute_io(op))
    }

    /// Writes bytes to a file.
    pub fn put(&self, path: &str, data: Vec<u8>, overwrite: bool) -> (r: DeltaResult<()>)
        ensures
            exists|op: IoOperation, result: DeltaResult<PlanResult<P::Data, P::Footer>>|
                {
                    &&& #[trigger] self.asks().may_give(Operation::IoOperation(op), result)
                    &&& op matches IoOperation::WriteBytes { path: p, data: d, overwrite: o } && p@
                        == path@ && d == data && o == overwrite
                    &&& is_done(result, r)
                },
    {
        done(self.execute_io(IoOperation::WriteBytes { path: path.to_owned(), data, overwrite }))
    }

    /// The metadata of a file.
    pub fn head(&self, path: &str) -> (r: DeltaResult<FileMeta>)
        ensures
            exists|op: IoOperation, result: DeltaResult<PlanResult<P::Data, P::Footer>>|
                {
                    &&& #[trigger] self.asks().may_give(Operation::IoOperation(op), result)
                    &&& op matches IoOperation::HeadFile(p) && p@ == path@
                    &&& is_head(result, r)
                },
    {
        head_of(self.execute_io(IoOperation::HeadFile(path.to_owned())))
    }

    /// Deletes a file, which executors cannot be asked to do yet.
    pub fn delete(&self, _path: &str) -> (r: DeltaResult<()>)
        ensures
            r matches Err(Error::Unsupported(message)) && message@
                == "PlanBasedStorageHandler does not yet implement delete"@,
    {
        Err(Error::unsupported("PlanBasedStorageHandler does not yet implement delete"))
    }
}

/// Whether something was done, from what was given back for it.
pub open spec fn is_done<D, F>(result: DeltaResult<PlanResult<D, F>>, r: DeltaResult<()>) -> bool {
    match result {
        Err(error) => r == Err::<(), Error>(error),
        Ok(PlanResult::Unit) => r is Ok,
        Ok(other) => r matches Err(error) && other.is_mismatch("Unit"@, error),
    }
}

/// Whether something was done, from what was given back for it.
pub fn done<D, F>(result: DeltaResult<PlanResult<D, F>>) -> (r: DeltaResult<()>)
    ensures
        is_done(result, r),
{
    match result {
        Err(error) => Err(error),
        Ok(result) => result.into_unit(),
    }
}

} // verus!
