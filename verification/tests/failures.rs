use data_pipeline::batch::{Batch, Cell, DataKind, Field};
use data_pipeline::connectors::kafka::{commit_error, consumer_error, offsets_can_advance, subscribe_error};
use data_pipeline::connectors::postgres::{connect_error, row_params, sql_param, write_error, SqlParam, WriteStep};
use data_pipeline::connectors::simple::{stdin_read_error, StdoutSink};
use data_pipeline::dlq::{client_error, put_error, StorageScheme};
use data_pipeline::error::PipelineError;
use data_pipeline::rate_limit::RateLimitError;
use std::time::Duration;

fn connection(e: PipelineError) -> (String, String) {
    match e {
        PipelineError::ConnectionFailed { connector, message } => (connector, message),
        _ => panic!("expected a connection failure"),
    }
}

fn sink_failure(e: PipelineError) -> (String, u32, String) {
    match e {
        PipelineError::SinkWriteFailed { connector, retries, message } => (connector, retries, message),
        _ => panic!("expected a sink write failure"),
    }
}

fn internal(e: PipelineError) -> String {
    match e {
        PipelineError::Internal(m) => m,
        _ => panic!("expected an internal error"),
    }
}

#[test]
fn kafka_failures() {
    assert_eq!(connection(consumer_error("x")), ("kafka".to_string(), "Failed to create Kafka consumer: x".to_string()));
    assert_eq!(connection(subscribe_error("y")), ("kafka".to_string(), "Failed to subscribe to topics: y".to_string()));
    assert_eq!(internal(commit_error("z")), "Failed to commit Kafka offsets: z");
}

#[test]
fn offsets_that_can_be_acknowledged() {
    assert!(offsets_can_advance("0:1,1:9223372036854775806"));
    assert!(!offsets_can_advance("0:1,1:9223372036854775807"));
    // pieces that name no pair do not matter
    assert!(offsets_can_advance("batch_3"));
    assert!(offsets_can_advance(""));
}

#[test]
fn postgres_failures() {
    assert_eq!(connection(connect_error("refused")), ("postgres".to_string(), "Failed to connect to PostgreSQL: refused".to_string()));
    assert_eq!(
        sink_failure(write_error(WriteStep::CreateTable, "raw.t", "denied")),
        ("postgres".to_string(), 0, "Failed to create table raw.t: denied".to_string())
    );
    assert_eq!(sink_failure(write_error(WriteStep::Prepare, "t", "e")).2, "Failed to prepare statement: e");
    assert_eq!(sink_failure(write_error(WriteStep::Begin, "t", "e")).2, "Failed to begin transaction: e");
    assert_eq!(sink_failure(write_error(WriteStep::Insert, "t", "e")).2, "Failed to insert row: e");
    assert_eq!(sink_failure(write_error(WriteStep::Commit, "t", "e")).2, "Failed to commit transaction: e");
}

#[test]
fn sql_parameters_follow_the_column_type() {
    assert!(matches!(sql_param(DataKind::Utf8, &Cell::Text("a".to_string())), Ok(SqlParam::Text(s)) if s == "a"));
    assert!(matches!(sql_param(DataKind::Utf8, &Cell::Null), Ok(SqlParam::Text(s)) if s.is_empty()));
    assert!(matches!(sql_param(DataKind::Int64, &Cell::Int(-4)), Ok(SqlParam::BigInt(-4))));
    assert!(matches!(sql_param(DataKind::Int64, &Cell::Null), Ok(SqlParam::BigInt(0))));
    assert!(matches!(sql_param(DataKind::Float64, &Cell::Float(2.5f64.to_bits())), Ok(SqlParam::Double(b)) if f64::from_bits(b) == 2.5));
    assert!(matches!(sql_param(DataKind::Boolean, &Cell::Bool(true)), Ok(SqlParam::Bool(true))));
    assert!(matches!(sql_param(DataKind::Timestamp, &Cell::Int(1000)), Ok(SqlParam::TimestampMillis(1000))));
    assert!(matches!(sql_param(DataKind::Timestamp, &Cell::Int(-1)), Ok(SqlParam::TimestampMillis(-1))));
    assert!(matches!(sql_param(DataKind::Date32, &Cell::Int(3)), Ok(SqlParam::ColumnDebug)));
    assert!(matches!(sql_param(DataKind::Decimal128, &Cell::Wide(3)), Ok(SqlParam::ColumnDebug)));
}

#[test]
fn timestamps_out_of_range_are_refused() {
    assert_eq!(internal(sql_param(DataKind::Timestamp, &Cell::Int(i64::MAX)).err().unwrap()), "Invalid timestamp value");
    assert_eq!(internal(sql_param(DataKind::Timestamp, &Cell::Int(i64::MIN)).err().unwrap()), "Invalid timestamp value");
    let b = Batch::try_new(
        vec![Field::new("id", DataKind::Int64, false), Field::new("at", DataKind::Timestamp, true)],
        vec![vec![Cell::Int(1), Cell::Int(2)], vec![Cell::Int(5), Cell::Int(i64::MAX)]],
    )
    .ok()
    .unwrap();
    assert!(row_params(&b, 0).is_ok());
    assert_eq!(internal(row_params(&b, 1).err().unwrap()), "Invalid timestamp value");
}

#[test]
fn row_parameters() {
    let b = Batch::try_new(
        vec![Field::new("id", DataKind::Int64, false), Field::new("name", DataKind::Utf8, true)],
        vec![vec![Cell::Int(1), Cell::Int(2)], vec![Cell::Text("a".to_string()), Cell::Null]],
    )
    .ok()
    .unwrap();
    let p = row_params(&b, 1).ok().unwrap();
    assert_eq!(p.len(), 2);
    assert!(matches!(p[0], SqlParam::BigInt(2)));
    assert!(matches!(&p[1], SqlParam::Text(s) if s.is_empty()));
}

#[test]
fn stdout_write_outcomes() {
    let mut s = StdoutSink::new();
    let r = s.finish_write(4, Ok(80), Duration::from_millis(3)).ok().unwrap();
    assert_eq!((r.rows_written, r.bytes_written), (4, 80));
    assert_eq!(s.total_rows(), 4);
    let e = s.finish_write(9, Err("bad".to_string()), Duration::ZERO).err().unwrap();
    assert_eq!(sink_failure(e), ("stdout".to_string(), 0, "bad".to_string()));
    assert_eq!(s.total_rows(), 4);
    assert_eq!(internal(stdin_read_error("eof")), "Stdin read error: eof");
}

#[test]
fn storage_failures() {
    assert_eq!(
        sink_failure(put_error("dlq/x.ndjson", "503")),
        ("dlq".to_string(), 0, "Failed to write DLQ batch to dlq/x.ndjson: 503".to_string())
    );
    assert_eq!(connection(client_error(StorageScheme::S3, "no region")), ("s3".to_string(), "Failed to create S3 client: no region".to_string()));
    assert_eq!(connection(client_error(StorageScheme::Gcs, "no key")), ("gcs".to_string(), "Failed to create GCS client: no key".to_string()));
}

#[test]
fn rate_limit_error_texts() {
    assert_eq!(RateLimitError::ConfigError { message: "m".to_string() }.describe(), "Rate limiter configuration error: m");
    assert_eq!(RateLimitError::ClockError { message: "c".to_string() }.describe(), "Rate limiter clock error: c");
}

fn param_error(r: Result<SqlParam, PipelineError>) -> String {
    match r {
        Err(e) => internal(e),
        _ => panic!("expected an internal error"),
    }
}

#[test]
fn sql_parameters_refuse_cells_of_another_type() {
    assert_eq!(param_error(sql_param(DataKind::Int64, &Cell::Text("7".to_string()))), "Failed to downcast to Int64Array");
    assert_eq!(param_error(sql_param(DataKind::Utf8, &Cell::Int(7))), "Failed to downcast to StringArray");
    assert_eq!(param_error(sql_param(DataKind::Float64, &Cell::Int(7))), "Failed to downcast to Float64Array");
    assert_eq!(param_error(sql_param(DataKind::Boolean, &Cell::Int(1))), "Failed to downcast to BooleanArray");
    assert_eq!(
        param_error(sql_param(DataKind::Timestamp, &Cell::Bool(true))),
        "Failed to downcast to TimestampMillisecondArray"
    );
    assert_eq!(param_error(sql_param(DataKind::Timestamp, &Cell::Int(i64::MAX))), "Invalid timestamp value");
}
