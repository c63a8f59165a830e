//! What handlers make of what an executor gives back.

use vstd::prelude::*;

use super::json::is_rows;
use super::operation::PlanResult;
use super::parquet::is_footer;
use super::storage::{is_done, is_head};
use crate::error::{DeltaResult, Error};
use crate::FileMeta;

verus! {

/// Rows are handed on as they are, and so is an error; any other result is an error of its own.
pub proof fn law_rows_are_handed_on<D, F>(
    data: D,
    error: Error,
    other: PlanResult<D, F>,
    r: DeltaResult<D>,
)
    ensures
        is_rows(Ok::<PlanResult<D, F>, Error>(PlanResult::Data(data)), r) <==> r == Ok::<D, Error>(
            data,
        ),
        is_rows(Err::<PlanResult<D, F>, Error>(error), r) <==> r == Err::<D, Error>(error),
        !(other is Data) && is_rows(Ok::<PlanResult<D, F>, Error>(other), r) ==> r matches Err(
            Error::PlanResultTypeMismatch { .. },
        ),
{
}

/// A footer is handed on as it is, and so is an error; any other result is an error of its own.
pub proof fn law_footer_is_handed_on<D, F>(
    footer: F,
    error: Error,
    other: PlanResult<D, F>,
    r: DeltaResult<F>,
)
    ensures
        is_footer(Ok::<PlanResult<D, F>, Error>(PlanResult::ParquetFooter(footer)), r) <==> r
            == Ok::<F, Error>(footer),
        is_footer(Err::<PlanResult<D, F>, Error>(error), r) <==> r == Err::<F, Error>(error),
        !(other is ParquetFooter) && is_footer(Ok::<PlanResult<D, F>, Error>(other), r) ==> r
            matches Err(Error::PlanResultTypeMismatch { .. }),
{
}

/// What is said of one file is handed on; of no file, or of several, there is an error.
pub proof fn law_one_file_is_handed_on<D, F>(
    metas: Vec<DeltaResult<FileMeta>>,
    error: Error,
    other: PlanResult<D, F>,
    r: DeltaResult<FileMeta>,
)
    ensures
        metas@.len() == 1 && is_head(Ok::<PlanResult<D, F>, Error>(PlanResult::FileMeta(metas)), r)
            ==> r == metas@[0],
        metas@.len() != 1 && is_head(Ok::<PlanResult<D, F>, Error>(PlanResult::FileMeta(metas)), r)
            ==> r is Err,
        is_head(Err::<PlanResult<D, F>, Error>(error), r) <==> r == Err::<FileMeta, Error>(error),
        !(other is FileMeta) && is_head(Ok::<PlanResult<D, F>, Error>(other), r) ==> r matches Err(
            Error::PlanResultTypeMismatch { .. },
        ),
{
}

/// Something is done exactly where nothing is given back for it.
pub proof fn law_nothing_means_done<D, F>(error: Error, other: PlanResult<D, F>, r: DeltaResult<()>)
    ensures
        is_done(Ok::<PlanResult<D, F>, Error>(PlanResult::Unit), r) <==> r is Ok,
        is_done(Err::<PlanResult<D, F>, Error>(error), r) <==> r == Err::<(), Error>(error),
        !(other is Unit) && is_done(Ok::<PlanResult<D, F>, Error>(other), r) ==> r matches Err(
            Error::PlanResultTypeMismatch { .. },
        ),
{
}

} // verus!
