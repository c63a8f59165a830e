//! JSON files by way of a plan executor.

use std::sync::Arc;

use vstd::prelude::*;

use super::operation::{Operation, PlanExecutor, PlanResult, Query};
use crate::error::{DeltaResult, Error};
use crate::schema::StructType;
use crate::{FileMeta, FileSize};

verus! {

/// Writes JSON files.
pub trait JsonHandler {
    /// The rows that it writes.
    type Rows;

    /// Whether it may give back a result when asked to write.
    closed spec fn may_write(
        &self,
        path: Seq<char>,
        data: Self::Rows,
        overwrite: bool,
        result: DeltaResult<FileSize>,
    ) -> bool {
        true
    }

    /// Writes rows to a file and gives back its size. A file that is there is replaced only if it
    /// may be.
    fn write_json_file(&self, path: &str, data: Self::Rows, overwrite: bool) -> (r: DeltaResult<
        FileSize,
    >)
        ensures
            self.may_write(path@, data, overwrite, r),
    ;
}

/// Works with JSON files by asking a plan executor, and another handler for what executors cannot
/// be asked to do yet.
#[derive(Debug)]
pub struct PlanBasedJsonHandler<P: PlanExecutor, J: JsonHandler> {
    executor: Arc<P>,
    fallback: Option<Arc<J>>,
}

/// Rows, from what was given back for a query.
pub open spec fn is_rows<D, F>(result: DeltaResult<PlanResult<D, F>>, r: DeltaResult<D>) -> bool {
    match result {
        Err(error) => r == Err::<D, Error>(error),
        Ok(PlanResult::Data(data)) => r == Ok::<D, Error>(data),
        Ok(other) => r matches Err(error) && other.is_mismatch("Data"@, error),
    }
}

/// Rows, from what was given back for a query.
pub fn rows_of<D, F>(result: DeltaResult<PlanResult<D, F>>) -> (r: DeltaResult<D>)
    ensures
        is_rows(result, r),
{
    match result {
        Err(error) => Err(error),
        Ok(result) => result.into_data(),
    }
}

impl<P: PlanExecutor, J: JsonHandler> PlanBasedJsonHandler<P, J> {
    /// The executor.
    pub closed spec fn asks(self) -> P {
        *self.executor
    }

    /// The other handler.
    pub closed spec fn falls_back(self) -> Option<Arc<J>> {
        self.fallback
    }

    /// A handler that asks an executor, and falls back to another handler if there is one.
    pub fn new(plan_executor: Arc<P>, fallback: Option<Arc<J>>) -> (r: PlanBasedJsonHandler<P, J>)
        ensures
            r.asks() == *plan_executor,
            r.falls_back() == fallback,
    {
        PlanBasedJsonHandler { executor: plan_executor, fallback }
    }

    /// The rows of JSON files.
    pub fn read_json_files(&self, files: Vec<FileMeta>, physical_schema: StructType) -> (r:
        DeltaResult<P::Data>)
        ensures
            exists|result: DeltaResult<PlanResult<P::Data, P::Footer>>|
                {
                    &&& #[trigger] self.asks().may_give(
                        Operation::QueryPlan(
                            (Query::ScanJson { files, schema: physical_schema }),
                        ),
                        result,
                    )
                    &&& is_rows(result, r)
                },
    {
        let op: Operation = Operation::QueryPlan(
            Query::ScanJson { files, schema: physical_schema },
        );
        let ghost asked = op;
        let result: DeltaResult<PlanResult<P::Data, P::Footer>> = self.executor.execute_op(op);
        assert(self.asks().may_give(asked, result));
        rows_of(result)
    }

    /// Writes rows to a file, which only the other handler can do.
    pub fn write_json_file(&self, path: &str, data: J::Rows, overwrite: bool) -> (r: DeltaResult<
        FileSize,
    >)
        ensures
            match self.falls_back() {
                Some(handler) => handler.may_write(path@, data, overwrite, r),
                None => r matches Err(Error::Unsupported(message)) && message@
                    == "PlanBasedJsonHandler does not support write_json_file yet, and no fallback handler is configured"@,
            },
    {
        match &self.fallback {
            Some(fallback) => fallback.write_json_file(path, data, overwrite),
            None => Err(
                Error::unsupported(
                    "PlanBasedJsonHandler does not support write_json_file yet, and no fallback handler is configured",
                ),
            ),
        }
    }
}

} // verus!
