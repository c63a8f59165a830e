//! Parquet files by way of a plan executor.

use std::sync::Arc;

use vstd::prelude::*;

use super::json::{is_rows, rows_of};
use super::operation::{IoOperation, Operation, PlanExecutor, PlanResult, Query};
use crate::error::{DeltaResult, Error};
use crate::schema::StructType;
use crate::FileMeta;

verus! {

/// Writes Parquet files.
pub trait ParquetHandler {
    /// The rows that it writes.
    type Rows;

    /// Whether it may give back a result when asked to write.
    closed spec fn may_write(
        &self,
        location: Seq<char>,
        data: Self::Rows,
        result: DeltaResult<()>,
    ) -> bool {
        true
    }

    /// Writes rows to a file.
    fn write_parquet_file(&self, location: String, data: Self::Rows) -> (r: DeltaResult<()>)
        ensures
            self.may_write(location@, data, r),
    ;
}

/// Works with Parquet files by asking a plan executor, and another handler for what executors cannot
/// be asked to do yet.
#[derive(Debug)]
pub struct PlanBasedParquetHandler<P: PlanExecutor, Q: ParquetHandler> {
    executor: Arc<P>,
    fallback: Option<Arc<Q>>,
}

/// The footer of a file, from what was given back for it.
pub open spec fn is_footer<D, F>(result: DeltaResult<PlanResult<D, F>>, r: DeltaResult<F>) -> bool {
    match result {
        Err(error) => r == Err::<F, Error>(error),
        Ok(PlanResult::ParquetFooter(footer)) => r == Ok::<F, Error>(footer),
        Ok(other) => r matches Err(error) && other.is_mismatch("ParquetFooter"@, error),
    }
}

/// The footer of a file, from what was given back for it.
pub fn footer_of<D, F>(result: DeltaResult<PlanResult<D, F>>) -> (r: DeltaResult<F>)
    ensures
        is_footer(result, r),
{
    match result {
        Err(error) => Err(error),
        Ok(result) => result.into_parquet_footer(),
    }
}

impl<P: PlanExecutor, Q: ParquetHandler> PlanBasedParquetHandler<P, Q> {
    /// The executor.
    pub closed spec fn asks(self) -> P {
        *self.executor
    }

    /// The other handler.
    pub closed spec fn falls_back(self) -> Option<Arc<Q>> {
        self.fallback
    }

    /// A handler that asks an executor, and falls back to another handler if there is one.
    pub fn new(plan_executor: Arc<P>, fallback: Option<Arc<Q>>) -> (r: PlanBasedParquetHandler<
        P,
        Q,
    >)
        ensures
            r.asks() == *plan_executor,
            r.falls_back() == fallback,
    {
        PlanBasedParquetHandler { executor: plan_executor, fallback }
    }

    /// The rows of Parquet files.
    pub fn read_parquet_files(&self, files: Vec<FileMeta>, physical_schema: StructType) -> (r:
        DeltaResult<P::Data>)
        ensures
            exists|result: DeltaResult<PlanResult<P::Data, P::Footer>>|
                {
                    &&& #[trigger] self.asks().may_give(
                        Operation::QueryPlan(
                            (Query::ScanParquet { files, schema: physical_schema }),
                        ),
                        result,
                    )
                    &&& is_rows(result, r)
                },
    {
        let op: Operation = Operation::QueryPlan(
            Query::ScanParquet { files, schema: physical_schema },
        );
        let ghost asked = op;
        let result: DeltaResult<PlanResult<P::Data, P::Footer>> = self.executor.execute_op(op);
        assert(self.asks().may_give(asked, result));
        rows_of(result)
    }

    /// Writes rows to a file, which only the other handler can do.
    pub fn write_parquet_file(&self, location: String, data: Q::Rows) -> (r: DeltaResult<()>)
        ensures
            match self.falls_back() {
                Some(handler) => handler.may_write(location@, data, r),
                None => r matches Err(Error::Unsupported(message)) && message@
                    == "PlanBasedParquetHandler does not support write_parquet_file yet, and no fallback handler is configured"@,
            },
    {
        match &self.fallback {
            Some(fallback) => fallback.write_parquet_file(location, data),
            None => Err(
                Error::unsupported(
                    "PlanBasedParquetHandler does not support write_parquet_file yet, and no fallback handler is configured",
                ),
            ),
        }
    }

    /// The footer of a file.
    pub fn read_parquet_footer(&self, file: FileMeta) -> (r: DeltaResult<P::Footer>)
        ensures
            exists|result: DeltaResult<PlanResult<P::Data, P::Footer>>|
                {
                    &&& #[trigger] self.asks().may_give(
                        Operation::IoOperation(IoOperation::ParquetFooter(file)),
                        result,
                    )
                    &&& is_footer(result, r)
                },
    {
        let op: Operation = Operation::IoOperation(IoOperation::ParquetFooter(file));
        let ghost asked = op;
        let result: DeltaResult<PlanResult<P::Data, P::Footer>> = self.executor.execute_op(op);
        assert(self.asks().may_give(asked, result));
        footer_of(result)
    }
}

} // verus!
