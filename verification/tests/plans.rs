use std::sync::Arc;

use delta_kernel::engine::plans::json::{JsonHandler, PlanBasedJsonHandler};
use delta_kernel::engine::plans::operation::{
    FileSlice, IoOperation, Operation, PlanExecutor, PlanResult, Query,
};
use delta_kernel::engine::plans::parquet::{ParquetHandler, PlanBasedParquetHandler};
use delta_kernel::engine::plans::storage::{done, head_of, PlanBasedStorageHandler};
use delta_kernel::engine::plans::{Engine, Evaluation, PlanBasedEngine};
use delta_kernel::error::{DeltaResult, Error};
use delta_kernel::schema::{DataType, PrimitiveType, StructField, StructType};
use delta_kernel::{FileMeta, FileSize};

/// Gives back what fits an operation, and refuses to look up one file.
#[derive(Debug)]
struct Executor;

impl PlanExecutor for Executor {
    type Data = Vec<String>;
    type Footer = u64;

    fn execute_op(&self, op: Operation) -> DeltaResult<PlanResult<Vec<String>, u64>> {
        match op {
            Operation::QueryPlan(Query::ScanJson { files, schema }) => {
                let rows = files.iter().map(|f| format!("json {}", f.location));
                let fields = schema.fields.iter().map(|f| f.name.clone());
                Ok(PlanResult::Data(rows.chain(fields).collect()))
            }
            Operation::QueryPlan(Query::ScanParquet { files, .. }) => Ok(PlanResult::Data(
                files.iter().map(|f| format!("parquet {}", f.location)).collect(),
            )),
            Operation::IoOperation(IoOperation::FileListing(path)) => Ok(PlanResult::FileMeta(
                (0..3).map(|i| Ok(meta(&format!("{path}{i}"), i))).collect(),
            )),
            Operation::IoOperation(IoOperation::ReadBytes(slices)) => Ok(PlanResult::Bytes(
                slices
                    .iter()
                    .map(|s| Ok(format!("{}{:?}", s.location, s.range).into_bytes()))
                    .collect(),
            )),
            Operation::IoOperation(IoOperation::AtomicCopy { source, destination }) => {
                if source == destination {
                    return Err(Error::FileAlreadyExists(destination));
                }
                Ok(PlanResult::Unit)
            }
            Operation::IoOperation(IoOperation::WriteBytes { path, data, overwrite }) => {
                if !overwrite && data.is_empty() {
                    return Err(Error::FileAlreadyExists(path));
                }
                Ok(PlanResult::Unit)
            }
            Operation::IoOperation(IoOperation::HeadFile(path)) => {
                if path == "missing" {
                    return Err(Error::file_not_found("missing"));
                }
                Ok(PlanResult::FileMeta(vec![Ok(meta(&path, 5))]))
            }
            Operation::IoOperation(IoOperation::ParquetFooter(file)) => {
                Ok(PlanResult::ParquetFooter(file.size))
            }
        }
    }
}

/// Writes nothing, and reports how much it was asked to write.
#[derive(Debug)]
struct Writer;

impl JsonHandler for Writer {
    type Rows = Vec<String>;

    fn write_json_file(
        &self,
        path: &str,
        data: Vec<String>,
        overwrite: bool,
    ) -> DeltaResult<FileSize> {
        if overwrite {
            return Err(Error::FileAlreadyExists(path.to_string()));
        }
        Ok(data.len() as u64)
    }
}

impl ParquetHandler for Writer {
    type Rows = Vec<String>;

    fn write_parquet_file(&self, location: String, data: Vec<String>) -> DeltaResult<()> {
        if data.is_empty() {
            return Err(Error::generic(&location));
        }
        Ok(())
    }
}

struct OtherEngine {
    evaluation: Arc<String>,
    writer: Arc<Writer>,
}

impl OtherEngine {
    fn new() -> OtherEngine {
        OtherEngine {
            evaluation: Arc::new("evaluation".to_string()),
            writer: Arc::new(Writer),
        }
    }
}

impl Engine for OtherEngine {
    type Evaluation = String;
    type Json = Writer;
    type Parquet = Writer;

    fn evaluation_handler(&self) -> Arc<String> {
        self.evaluation.clone()
    }

    fn json_handler(&self) -> Arc<Writer> {
        self.writer.clone()
    }

    fn parquet_handler(&self) -> Arc<Writer> {
        self.writer.clone()
    }
}

fn meta(location: &str, size: u64) -> FileMeta {
    FileMeta {
        location: location.to_string(),
        last_modified: 0,
        size,
    }
}

fn schema() -> StructType {
    StructType::new(vec![StructField::nullable(
        "x",
        DataType::Primitive(PrimitiveType::Integer),
    )])
}

fn plan_engine(fallback: Option<Arc<OtherEngine>>) -> PlanBasedEngine<OtherEngine, Executor> {
    PlanBasedEngine::new(fallback, Arc::new(Executor))
}

#[test]
fn uses_fallback_evaluation_handler_when_available() {
    let fallback = Arc::new(OtherEngine::new());
    let expected_evaluation_handler = fallback.evaluation_handler();
    let engine = plan_engine(Some(fallback));

    assert!(matches!(
        engine.evaluation_handler(),
        Evaluation::Fallback(handler) if Arc::ptr_eq(&handler, &expected_evaluation_handler)
    ));
}

#[test]
fn uses_arrow_evaluation_handler_without_fallback() {
    let engine = plan_engine(None);

    assert!(matches!(engine.evaluation_handler(), Evaluation::Arrow));
}

#[test]
fn unimplemented_writes_are_unsupported_without_fallback() {
    let engine = plan_engine(None);

    let json_err = engine
        .json_handler()
        .write_json_file("memory:///table/out", vec![], false)
        .expect_err("no fallback is configured");
    assert!(matches!(json_err, Error::Unsupported(_)));

    let parquet_err = engine
        .parquet_handler()
        .write_parquet_file("memory:///table/out".to_string(), vec![])
        .expect_err("no fallback is configured");
    assert!(matches!(parquet_err, Error::Unsupported(_)));
}

#[test]
fn writes_go_to_the_fallback() {
    let engine = plan_engine(Some(Arc::new(OtherEngine::new())));
    let rows = vec!["one".to_string(), "two".to_string()];
    let json = engine.json_handler();
    assert_eq!(json.write_json_file("out", rows.clone(), false).unwrap(), 2);
    assert!(matches!(
        json.write_json_file("out", rows.clone(), true),
        Err(Error::FileAlreadyExists(path)) if path == "out"
    ));
    let parquet = engine.parquet_handler();
    assert!(parquet.write_parquet_file("out".to_string(), rows).is_ok());
    assert!(matches!(
        parquet.write_parquet_file("out".to_string(), vec![]),
        Err(Error::Generic(message)) if message == "out"
    ));
    assert!(engine.plan_executor().is_some());
}

#[test]
fn reads_go_to_the_executor() {
    let executor = Arc::new(Executor);
    let json: PlanBasedJsonHandler<Executor, Writer> =
        PlanBasedJsonHandler::new(executor.clone(), None);
    assert_eq!(
        json.read_json_files(vec![meta("a", 1), meta("b", 1)], schema()).unwrap(),
        vec!["json a", "json b", "x"]
    );
    let parquet: PlanBasedParquetHandler<Executor, Writer> =
        PlanBasedParquetHandler::new(executor, None);
    assert_eq!(
        parquet.read_parquet_files(vec![meta("a", 1)], schema()).unwrap(),
        vec!["parquet a"]
    );
    assert_eq!(parquet.read_parquet_footer(meta("a", 17)).unwrap(), 17);
}

#[test]
fn storage_asks_the_executor() {
    let storage = PlanBasedStorageHandler::new(Arc::new(Executor));
    let files: Vec<String> = storage
        .list_from("dir/")
        .unwrap()
        .into_iter()
        .map(|file| file.unwrap().location)
        .collect();
    assert_eq!(files, vec!["dir/0", "dir/1", "dir/2"]);

    let bytes = storage
        .read_files(vec![
            FileSlice { location: "a".to_string(), range: None },
            FileSlice { location: "b".to_string(), range: Some(1..3) },
        ])
        .unwrap();
    assert_eq!(bytes[0].as_ref().unwrap(), b"aNone");
    assert_eq!(bytes[1].as_ref().unwrap(), b"bSome(1..3)");

    assert!(storage.copy_atomic("a", "b").is_ok());
    assert!(matches!(
        storage.copy_atomic("a", "a"),
        Err(Error::FileAlreadyExists(path)) if path == "a"
    ));
    assert!(storage.put("a", vec![1], false).is_ok());
    assert!(storage.put("a", vec![], false).is_err());
    assert!(storage.put("a", vec![], true).is_ok());

    let file = storage.head("file").unwrap();
    assert_eq!((file.location.as_str(), file.size), ("file", 5));
    assert!(matches!(storage.head("missing"), Err(Error::FileNotFound(_))));

    assert_eq!(
        storage.delete("a").unwrap_err().to_string(),
        "Unsupported: PlanBasedStorageHandler does not yet implement delete"
    );
}

#[test]
fn head_needs_exactly_one_file() {
    let none: DeltaResult<PlanResult<(), ()>> = Ok(PlanResult::FileMeta(vec![]));
    assert_eq!(
        head_of(none).unwrap_err().to_string(),
        "Generic delta kernel error: Expected exactly one file meta: got zero elements when \
         exactly one was expected"
    );
    let three: DeltaResult<PlanResult<(), ()>> = Ok(PlanResult::FileMeta(vec![
        Ok(meta("a", 1)),
        Ok(meta("b", 1)),
        Ok(meta("c", 1)),
    ]));
    assert_eq!(
        head_of(three).unwrap_err().to_string(),
        "Generic delta kernel error: Expected exactly one file meta: got at least 2 elements when \
         exactly one was expected"
    );
    let one: DeltaResult<PlanResult<(), ()>> = Ok(PlanResult::FileMeta(vec![Ok(meta("a", 1))]));
    assert_eq!(head_of(one).unwrap().location, "a");
    let failed: DeltaResult<PlanResult<(), ()>> =
        Ok(PlanResult::FileMeta(vec![Err(Error::MissingVersion)]));
    assert!(matches!(head_of(failed), Err(Error::MissingVersion)));
}

#[test]
fn another_kind_of_result_is_refused() {
    let bytes: DeltaResult<PlanResult<(), ()>> = Ok(PlanResult::Bytes(vec![]));
    assert_eq!(
        done(bytes).unwrap_err().to_string(),
        "Declarative plan execution yielded the incorrect type: expected PlanResult::Unit, got \
         PlanResult::Bytes"
    );
    let unit: PlanResult<(), ()> = PlanResult::Unit;
    assert!(matches!(
        unit.into_data(),
        Err(Error::PlanResultTypeMismatch { expected: "Data", actual: "Unit" })
    ));
    let data: PlanResult<(), ()> = PlanResult::Data(());
    assert!(matches!(
        data.into_file_meta(),
        Err(Error::PlanResultTypeMismatch { expected: "FileMeta", actual: "Data" })
    ));
    let footer: PlanResult<(), ()> = PlanResult::ParquetFooter(());
    assert!(matches!(
        footer.into_bytes(),
        Err(Error::PlanResultTypeMismatch { expected: "Bytes", actual: "ParquetFooter" })
    ));
    let metas: PlanResult<(), ()> = PlanResult::FileMeta(vec![]);
    assert!(matches!(
        metas.into_parquet_footer(),
        Err(Error::PlanResultTypeMismatch { expected: "ParquetFooter", actual: "FileMeta" })
    ));
}
