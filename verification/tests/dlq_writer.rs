use data_pipeline::dlq::{
    batch_path_exec, estimate_record_size, init, ndjson_exec, normalize_metadata, parse_storage_uri, record_line_exec,
    DlqCompression, DlqConfig, DlqErrorCategory, DlqRecord, DlqWriter, StorageScheme,
};
use data_pipeline::error::PipelineError;
use data_pipeline::timestamp::UtcTimestamp;

fn record(id: &str, message: &str) -> DlqRecord {
    DlqRecord {
        id: id.to_string(),
        pipeline_id: "orders".to_string(),
        timestamp: UtcTimestamp::from_parts(0, 0).unwrap(),
        error_category: DlqErrorCategory::SinkError,
        error_message: message.to_string(),
        original_data: "{\"a\":1}".to_string(),
        metadata: vec![("attempt".to_string(), "2".to_string()), ("host".to_string(), "h\"1".to_string())],
    }
}

fn config(uri: &str, max_records: usize, max_bytes: usize) -> DlqConfig {
    DlqConfig {
        storage_uri: uri.to_string(),
        prefix: Some("dlq".to_string()),
        max_file_size_bytes: max_bytes,
        max_records_per_file: max_records,
        compression: DlqCompression::NoCompression,
    }
}

fn config_message(e: PipelineError) -> String {
    match e {
        PipelineError::ConfigError { message } => message,
        _ => panic!("expected a configuration error"),
    }
}

const LINE: &str = "{\"error_category\":\"sink_error\",\"error_message\":\"bad \\\"row\\\"\",\"id\":\"r1\",\"metadata\":{\"attempt\":\"2\",\"host\":\"h\\\"1\"},\"original_data\":{\"a\":1},\"pipeline_id\":\"orders\",\"timestamp\":\"1970-01-01T00:00:00+00:00\"}";

#[test]
fn record_lines_are_json_in_key_order() {
    let r = record("r1", "bad \"row\"");
    let line: String = record_line_exec(&r).into_iter().collect();
    assert_eq!(line, LINE);
    assert_eq!(estimate_record_size(&r), LINE.len());
}

#[test]
fn size_counts_utf8_bytes() {
    let r = record("r1", "é€😀");
    let line: String = record_line_exec(&r).into_iter().collect();
    assert_eq!(estimate_record_size(&r), line.len());
    assert!(line.len() > line.chars().count());
}

#[test]
fn ndjson_puts_one_record_per_line() {
    let out = ndjson_exec(&vec![record("r1", "bad \"row\""), record("r1", "bad \"row\"")]);
    assert_eq!(out, format!("{}\n{}\n", LINE, LINE));
}

#[test]
fn batch_paths_are_partitioned_by_date_pipeline_and_category() {
    let r = record("r1", "m");
    assert_eq!(batch_path_exec(&Some("dlq".to_string()), &r, "f"), "dlq/1970/01/01/orders/sink_error/f.ndjson");
    assert_eq!(batch_path_exec(&None, &r, "f"), "1970/01/01/orders/sink_error/f.ndjson");
}

#[test]
fn storage_uris() {
    let t = parse_storage_uri("s3://bucket/dlq/").ok().unwrap();
    assert_eq!(t.scheme, StorageScheme::S3);
    assert_eq!(t.bucket, "bucket");
    let t = parse_storage_uri("gs://b2").ok().unwrap();
    assert_eq!(t.scheme, StorageScheme::Gcs);
    assert_eq!(t.bucket, "b2");
    // empty segments are skipped
    assert_eq!(parse_storage_uri("s3:////deep/x").ok().unwrap().bucket, "deep");
    assert_eq!(config_message(parse_storage_uri("s3://").err().unwrap()), "Invalid S3 URI: missing bucket name");
    assert_eq!(config_message(parse_storage_uri("gs:///").err().unwrap()), "Invalid GCS URI: missing bucket name");
    assert_eq!(
        config_message(parse_storage_uri("file:///tmp").err().unwrap()),
        "Unsupported storage URI scheme: file:///tmp"
    );
}

#[test]
fn writer_hands_back_a_batch_at_the_record_limit() {
    let mut w = DlqWriter::new(config("s3://b/", 2, 1 << 30)).ok().unwrap();
    assert_eq!(w.target().bucket, "b");
    assert!(w.write_record(record("1", "m")).is_none());
    assert_eq!(w.stats().pending_records, 1);
    let batch = w.write_record(record("2", "m")).unwrap();
    assert_eq!(batch.iter().map(|r| r.id.as_str()).collect::<Vec<_>>(), vec!["1", "2"]);
    assert_eq!(w.stats().pending_records, 0);
    assert_eq!(w.stats().pending_size_bytes, 0);
}

#[test]
fn writer_hands_back_a_batch_at_the_size_limit() {
    let one = estimate_record_size(&record("1", "m"));
    let mut w = DlqWriter::new(config("s3://b/", 100, 2 * one)).ok().unwrap();
    assert!(w.write_record(record("1", "m")).is_none());
    assert_eq!(w.stats().pending_size_bytes, one);
    assert_eq!(w.write_record(record("2", "m")).unwrap().len(), 2);
}

#[test]
fn flush_hands_back_pending_records() {
    let mut w = DlqWriter::new(config("gs://b", 10, 1 << 30)).ok().unwrap();
    assert!(w.flush().is_none());
    w.write_record(record("a", "m"));
    w.write_record(record("b", "m"));
    let out = w.flush().unwrap();
    assert_eq!(out.len(), 2);
    assert!(w.flush().is_none());
    assert_eq!(w.stats().pending_records, 0);
}

#[test]
fn storage_writes_name_a_new_file() {
    let w = DlqWriter::new(config("s3://b/", 10, 1 << 30)).ok().unwrap();
    assert!(w.storage_write(&Vec::new()).is_none());
    let s = w.storage_write(&vec![record("r1", "bad \"row\"")]).unwrap();
    assert_eq!(s.content, format!("{}\n", LINE));
    let prefix = "dlq/1970/01/01/orders/sink_error/";
    assert!(s.path.starts_with(prefix));
    assert!(s.path.ends_with(".ndjson"));
    let id = &s.path[prefix.len()..s.path.len() - ".ndjson".len()];
    assert_eq!(id.len(), 36);
    assert_eq!(&id[14..15], "4");
    let other = w.storage_write(&vec![record("r1", "m")]).unwrap();
    assert_ne!(other.path, s.path);
}

#[test]
fn writer_needs_a_known_store() {
    let e = DlqWriter::new(config("ftp://x", 1, 1)).err().unwrap();
    assert_eq!(config_message(e), "Unsupported storage URI scheme: ftp://x");
}

#[test]
fn dlq_defaults_and_sync_init() {
    let d = DlqConfig::default();
    assert_eq!(d.storage_uri, "s3://default-dlq-bucket/");
    assert_eq!(d.prefix.as_deref(), Some("dlq"));
    assert_eq!(d.max_file_size_bytes, 100 * 1024 * 1024);
    assert_eq!(d.max_records_per_file, 10000);
    assert_eq!(d.compression, DlqCompression::NoCompression);
    let w = init().ok().unwrap();
    assert_eq!(w.target().scheme, StorageScheme::S3);
    assert_eq!(w.target().bucket, "default-dlq-bucket");
    assert_eq!(w.stats().pending_records, 0);
}

#[test]
fn checked_writes_take_records() {
    let mut w = DlqWriter::new(config("s3://b/", 2, 1 << 30)).ok().unwrap();
    assert!(matches!(w.write_record_checked(record("1", "m")), Some(None)));
    match w.write_record_checked(record("2", "m")) {
        Some(Some(batch)) => assert_eq!(batch.len(), 2),
        _ => panic!("expected a full batch"),
    }
}

#[test]
fn category_names() {
    assert_eq!(DlqErrorCategory::TransformationError.as_str(), "transformation_error");
    assert_eq!(DlqErrorCategory::SourceParsingError.as_str(), "source_parsing_error");
    assert_eq!(DlqErrorCategory::NetworkError.as_str(), "network_error");
    assert_eq!(DlqErrorCategory::AuthError.as_str(), "auth_error");
    assert_eq!(DlqErrorCategory::RateLimitError.as_str(), "rate_limit_error");
}

#[test]
fn writer_keeps_every_record_in_order() {
    let mut w = DlqWriter::new(config("s3://b/", 2, 1 << 30)).ok().unwrap();
    let mut out: Vec<String> = Vec::new();
    for id in ["1", "2", "3", "4", "5"] {
        if let Some(batch) = w.write_record(record(id, "m")) {
            out.extend(batch.into_iter().map(|r| r.id));
        }
    }
    assert_eq!(out, vec!["1", "2", "3", "4"]);
    assert_eq!(w.stats().pending_records, 1);
    out.extend(w.flush().unwrap().into_iter().map(|r| r.id));
    assert_eq!(out, vec!["1", "2", "3", "4", "5"]);
}

fn pair(k: &str, v: &str) -> (String, String) {
    (k.to_string(), v.to_string())
}

#[test]
fn metadata_is_written_as_a_map_holds_it() {
    let entries = vec![pair("zone", "b"), pair("host", "h1"), pair("attempt", "1"), pair("host", "h2"), pair("Host", "x")];
    assert_eq!(
        normalize_metadata(&entries),
        vec![pair("Host", "x"), pair("attempt", "1"), pair("host", "h2"), pair("zone", "b")]
    );
    assert_eq!(normalize_metadata(&Vec::new()), Vec::<(String, String)>::new());
    let mut r = record("r1", "bad \"row\"");
    r.metadata = vec![pair("host", "h\"1"), pair("attempt", "9"), pair("attempt", "2")];
    let line: String = record_line_exec(&r).into_iter().collect();
    assert_eq!(line, LINE);
}

#[test]
fn strings_are_escaped_by_the_json_table() {
    let r = record("r1", "a\u{1}\u{1f}\u{7f}é\t\u{8}\u{c}\r\n\\");
    let line: String = record_line_exec(&r).into_iter().collect();
    assert!(line.contains("\"error_message\":\"a\\u0001\\u001f\u{7f}é\\t\\b\\f\\r\\n\\\\\","));
}
