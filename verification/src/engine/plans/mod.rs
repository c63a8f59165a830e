//! An engine that works by way of a plan executor.
//!
//! What an executor can be asked to do is in [`operation`]. For what it cannot be asked to do yet,
//! the engine falls back to another engine, if there is one.

use std::sync::Arc;

use vstd::prelude::*;

pub mod json;
pub mod operation;
pub mod parquet;
pub mod result_laws;
pub mod storage;

use json::{JsonHandler, PlanBasedJsonHandler};
use operation::PlanExecutor;
use parquet::{ParquetHandler, PlanBasedParquetHandler};
use storage::PlanBasedStorageHandler;

verus! {

/// An engine that another one may fall back to.
pub trait Engine {
    /// What it evaluates expressions with.
    type Evaluation;

    /// What it writes JSON files with.
    type Json: JsonHandler;

    /// What it writes Parquet files with.
    type Parquet: ParquetHandler;

    /// What it evaluates expressions with.
    closed spec fn evaluates_with(&self) -> Arc<Self::Evaluation> {
        arbitrary()
    }

    /// What it writes JSON files with.
    closed spec fn writes_json_with(&self) -> Arc<Self::Json> {
        arbitrary()
    }

    /// What it writes Parquet files with.
    closed spec fn writes_parquet_with(&self) -> Arc<Self::Parquet> {
        arbitrary()
    }

    /// What it evaluates expressions with.
    fn evaluation_handler(&self) -> (r: Arc<Self::Evaluation>)
        ensures
            r == self.evaluates_with(),
    ;

    /// What it writes JSON files with.
    fn json_handler(&self) -> (r: Arc<Self::Json>)
        ensures
            r == self.writes_json_with(),
    ;

    /// What it writes Parquet files with.
    fn parquet_handler(&self) -> (r: Arc<Self::Parquet>)
        ensures
            r == self.writes_parquet_with(),
    ;
}

/// What expressions are evaluated with.
#[derive(Debug)]
pub enum Evaluation<E> {
    /// The evaluation on Arrow data.
    Arrow,
    /// That of the engine that is fallen back to.
    Fallback(Arc<E>),
}

impl<E> Clone for Evaluation<E> {
    fn clone(&self) -> (r: Evaluation<E>)
        ensures
            r == *self,
    {
        match self {
            Evaluation::Arrow => Evaluation::Arrow,
            Evaluation::Fallback(handler) => Evaluation::Fallback(Arc::clone(handler)),
        }
    }
}

/// An engine that works by way of a plan executor, and falls back to another engine if there is
/// one.
pub struct PlanBasedEngine<F: Engine, P: PlanExecutor> {
    executor: Arc<P>,
    evaluation: Evaluation<F::Evaluation>,
    storage: PlanBasedStorageHandler<P>,
    json: PlanBasedJsonHandler<P, F::Json>,
    parquet: PlanBasedParquetHandler<P, F::Parquet>,
}

impl<F: Engine, P: PlanExecutor> PlanBasedEngine<F, P> {
    /// The executor.
    pub closed spec fn asks(self) -> Arc<P> {
        self.executor
    }

    /// What expressions are evaluated with.
    pub closed spec fn evaluates_with(self) -> Evaluation<F::Evaluation> {
        self.evaluation
    }

    /// What works with files.
    pub closed spec fn stores_with(self) -> PlanBasedStorageHandler<P> {
        self.storage
    }

    /// What works with JSON files.
    pub closed spec fn works_with_json(self) -> PlanBasedJsonHandler<P, F::Json> {
        self.json
    }

    /// What works with Parquet files.
    pub closed spec fn works_with_parquet(self) -> PlanBasedParquetHandler<P, F::Parquet> {
        self.parquet
    }

    /// An engine that asks an executor. Expressions are evaluated, and files are written, with what
    /// the other engine has for it; without one, expressions are evaluated on Arrow data.
    pub fn new(fallback: Option<Arc<F>>, plan_executor: Arc<P>) -> (r: PlanBasedEngine<F, P>)
        ensures
            r.asks() == plan_executor,
            r.stores_with().asks() == *plan_executor,
            r.works_with_json().asks() == *plan_executor,
            r.works_with_parquet().asks() == *plan_executor,
            match fallback {
                Some(engine) => {
                    &&& r.evaluates_with() == Evaluation::Fallback(engine.evaluates_with())
                    &&& r.works_with_json().falls_back() == Some(engine.writes_json_with())
                    &&& r.works_with_parquet().falls_back() == Some(engine.writes_parquet_with())
                },
                None => {
                    &&& r.evaluates_with() is Arrow
                    &&& r.works_with_json().falls_back() is None
                    &&& r.works_with_parquet().falls_back() is None
                },
            },
    {
        let (evaluation, json, parquet) = match &fallback {
            Some(engine) => (
                Evaluation::Fallback(engine.evaluation_handler()),
                Some(engine.json_handler()),
                Some(engine.parquet_handler()),
            ),
            None => (Evaluation::Arrow, None, None),
        };
        PlanBasedEngine {
            evaluation,
            storage: PlanBasedStorageHandler::new(Arc::clone(&plan_executor)),
            json: PlanBasedJsonHandler::new(Arc::clone(&plan_executor), json),
            parquet: PlanBasedParquetHandler::new(Arc::clone(&plan_executor), parquet),
            executor: plan_executor,
        }
    }

    /// What expressions are evaluated with.
    pub fn evaluation_handler(&self) -> (r: Evaluation<F::Evaluation>)
        ensures
            r == self.evaluates_with(),
    {
        self.evaluation.clone()
    }

    /// What works with files.
    pub fn storage_handler(&self) -> (r: &PlanBasedStorageHandler<P>)
        ensures
            *r == self.stores_with(),
    {
        &self.storage
    }

    /// What works with JSON files.
    pub fn json_handler(&self) -> (r: &PlanBasedJsonHandler<P, F::Json>)
        ensures
            *r == self.works_with_json(),
    {
        &self.json
    }

    /// What works with Parquet files.
    pub fn parquet_handler(&self) -> (r: &PlanBasedParquetHandler<P, F::Parquet>)
        ensures
            *r == self.works_with_parquet(),
    {
        &self.parquet
    }

    /// The executor.
    pub fn plan_executor(&self) -> (r: Option<Arc<P>>)
        ensures
            r == Some(self.asks()),
    {
        Some(Arc::clone(&self.executor))
    }
}

} // verus!
