use data_pipeline::checkpoint::CheckpointManager;
use data_pipeline::config::{
    default_buffer_mb, default_concurrency, default_flush_interval, default_max_connections,
    default_sink_tps, default_source_tps, default_true, get_property, DriftPolicy, FeatureFlags,
};
use data_pipeline::error::{config_error, PipelineError};
use data_pipeline::loader::{config_format, json_config_error, list_error, read_error, yaml_config_error, ConfigFormat};
use data_pipeline::secrets::{classify, env_var_of, resolve, SecretKind};
use data_pipeline::text::{
    chars_of, concat2, contains, decimal_string, ends_with, parse_bool_exec, parse_i32, parse_i64,
    parse_u32, parse_u64, split_trimmed, starts_with, suffix_from, trim_string,
};
use data_pipeline::timestamp::UtcTimestamp;
use data_pipeline::types::{Checkpoint, DlqErrorType, WriteReceipt};

fn describe(e: &PipelineError) -> String {
    e.describe()
}

#[test]
fn text_helpers() {
    assert_eq!(chars_of("héllo"), vec!['h', 'é', 'l', 'l', 'o']);
    assert_eq!(concat2("ab", "cd"), "abcd");
    assert!(starts_with("env:X", "env:"));
    assert!(!starts_with("en", "env:"));
    assert!(ends_with("a.yaml", ".yaml"));
    assert!(contains("https://x.vault.azure.net/s", "vault.azure.net"));
    assert!(!contains("abc", "abd"));
    assert_eq!(suffix_from("env:HOME", 4), "HOME");
    assert_eq!(trim_string("\t a b \n"), "a b");
    assert_eq!(split_trimmed("a , b", ','), vec!["a", "b"]);
    assert_eq!(decimal_string(0), "0");
    assert_eq!(decimal_string(18446744073709551615), "18446744073709551615");
}

#[test]
fn number_parsing_follows_str_parse() {
    for s in ["0", "42", "+7", "-1", "", "+", "1a", "99999999999999999999", " 1"] {
        assert_eq!(parse_u64(s), s.parse::<u64>().ok(), "u64 {:?}", s);
        assert_eq!(parse_i64(s), s.parse::<i64>().ok(), "i64 {:?}", s);
        assert_eq!(parse_u32(s), s.parse::<u32>().ok(), "u32 {:?}", s);
        assert_eq!(parse_i32(s), s.parse::<i32>().ok(), "i32 {:?}", s);
    }
    assert_eq!(parse_i64("-9223372036854775808"), Some(i64::MIN));
    assert_eq!(parse_i32("2147483648"), None);
    for s in ["true", "false", "True", "1", ""] {
        assert_eq!(parse_bool_exec(s), s.parse::<bool>().ok());
    }
}

#[test]
fn properties_answer_the_first_match() {
    let p = vec![("k".to_string(), "1".to_string()), ("k".to_string(), "2".to_string())];
    assert_eq!(get_property(&p, "k").as_deref(), Some("1"));
    assert_eq!(get_property(&p, "z"), None);
}

#[test]
fn configuration_defaults() {
    assert!(default_true());
    assert_eq!(default_source_tps(), 10_000);
    assert_eq!(default_sink_tps(), 5_000);
    assert_eq!(default_max_connections(), 10);
    assert_eq!(default_buffer_mb(), 512);
    assert_eq!(default_flush_interval(), 5000);
    assert_eq!(default_concurrency(), 64);
    assert_eq!(DriftPolicy::default(), DriftPolicy::Dlq);
    let f = FeatureFlags::default();
    assert!(f.enable_dlq && !f.enable_schema_validation && f.require_tls && f.enable_lineage);
    assert_eq!((f.max_memory_buffer_mb, f.batch_flush_interval_ms, f.concurrency_limit), (512, 5000, 64));
}

#[test]
fn secret_references() {
    assert!(matches!(classify("env:DB"), SecretKind::Environment));
    assert!(matches!(classify("arn:aws:secretsmanager:eu:1:secret:x"), SecretKind::AwsSecretsManager));
    assert!(matches!(classify("https://kv.vault.azure.net/secrets/x"), SecretKind::AzureKeyVault));
    assert!(matches!(classify("gcp:projects/p/secrets/s"), SecretKind::GcpSecretManager));
    assert!(matches!(classify("hunter2"), SecretKind::Literal));
    // the environment prefix is tested first
    assert!(matches!(classify("env:vault.azure.net"), SecretKind::Environment));
    assert_eq!(env_var_of("env:DB_PASS").as_deref(), Some("DB_PASS"));
    assert_eq!(env_var_of("DB_PASS"), None);
}

#[test]
fn resolving_secrets() {
    assert_eq!(resolve("env:DB", Some("pw".to_string())).ok().unwrap(), "pw");
    match resolve("env:DB", None) {
        Err(PipelineError::SecretRetrievalFailed { key, message }) => {
            assert_eq!(key, "DB");
            assert_eq!(message, "Environment variable 'DB' not set");
        }
        _ => panic!("expected a failure"),
    }
    match resolve("gcp:x", None) {
        Err(PipelineError::SecretRetrievalFailed { key, message }) => {
            assert_eq!(key, "gcp:x");
            assert_eq!(message, "GCP Secret Manager not yet implemented");
        }
        _ => panic!("expected a failure"),
    }
    assert!(resolve("arn:aws:secretsmanager:x", None).is_err());
    assert!(resolve("a.vault.azure.net", None).is_err());
    assert_eq!(resolve("plain", Some("ignored".to_string())).ok().unwrap(), "plain");
}

#[test]
fn config_files_and_their_errors() {
    assert_eq!(config_format("p/a.yaml"), Some(ConfigFormat::Yaml));
    assert_eq!(config_format("p/a.json"), Some(ConfigFormat::Json));
    assert_eq!(config_format("p/a.yml"), None);
    assert_eq!(describe(&yaml_config_error("bad")), "Configuration error: Failed to parse YAML config: bad");
    assert_eq!(describe(&json_config_error("eof")), "Configuration error: Failed to parse JSON config: eof");
    assert_eq!(
        describe(&list_error("cfg/", "denied")),
        "Configuration error: Failed to list config objects at 'cfg/': denied"
    );
    assert_eq!(describe(&read_error("a.yaml", "gone")), "Configuration error: Failed to read config 'a.yaml': gone");
}

#[test]
fn error_texts() {
    let cases: Vec<(PipelineError, &str)> = vec![
        (
            PipelineError::ConnectionFailed { connector: "kafka".into(), message: "down".into() },
            "Connection failed for connector 'kafka': down",
        ),
        (
            PipelineError::AuthenticationFailed { connector: "pg".into(), message: "no".into() },
            "Authentication failed for connector 'pg': no",
        ),
        (PipelineError::SchemaValidation { message: "m".into() }, "Schema validation failed: m"),
        (PipelineError::Deserialization { message: "m".into() }, "Deserialization failed: m"),
        (
            PipelineError::TransformFailed { transform: "row_filter".into(), message: "m".into() },
            "Transformation 'row_filter' failed: m",
        ),
        (
            PipelineError::SinkWriteFailed { connector: "pg".into(), retries: 3, message: "m".into() },
            "Sink write failed for 'pg' after 3 retries: m",
        ),
        (PipelineError::CheckpointFailed { message: "m".into() }, "Checkpoint persistence failed: m"),
        (
            PipelineError::SecretRetrievalFailed { key: "k".into(), message: "m".into() },
            "Secret retrieval failed for key 'k': m",
        ),
        (config_error("m".into()), "Configuration error: m"),
        (PipelineError::RateLimitExceeded { message: "m".into() }, "Rate limit exceeded: m"),
        (
            PipelineError::WasmPluginError { plugin: "p".into(), message: "m".into() },
            "WASM plugin 'p' error: m",
        ),
        (PipelineError::Internal("m".into()), "Internal error: m"),
    ];
    for (e, text) in cases {
        assert_eq!(describe(&e), text);
    }
    let io = PipelineError::Io(std::io::Error::new(std::io::ErrorKind::Other, "disk"));
    assert_eq!(describe(&io), "disk");
    let json = PipelineError::SerdeJson(serde_json::from_str::<u8>("x").unwrap_err());
    assert_eq!(describe(&json), serde_json::from_str::<u8>("x").unwrap_err().to_string());
    let arrow = PipelineError::Arrow(arrow::error::ArrowError::ComputeError("c".into()));
    assert_eq!(describe(&arrow), "Compute error: c");
}

#[test]
fn timestamps() {
    let t = UtcTimestamp::from_parts(0, 0).unwrap();
    assert_eq!(t.to_rfc3339(), "1970-01-01T00:00:00+00:00");
    assert_eq!(t.date_path(), "1970/01/01");
    let t = UtcTimestamp::from_parts(1_700_000_000, 5).unwrap();
    assert_eq!((t.secs(), t.nanos()), (1_700_000_000, 5));
    assert_eq!(t.date_path(), "2023/11/14");
    assert!(UtcTimestamp::from_parts(i64::MAX, 0).is_none());
    assert!(UtcTimestamp::from_parts(0, 2_000_000_000).is_none());
    assert!(UtcTimestamp::now().secs() > 1_600_000_000);
}

#[test]
fn checkpoints() {
    let m = CheckpointManager::new("s3://bucket/ckpt".to_string());
    assert_eq!(m.path_for("p1"), "s3://bucket/ckpt/p1/cursor.json");
    let c = Checkpoint::new("p1".to_string(), "batch_3".to_string());
    assert_eq!(c.records_since_last, 0);
    let mut c = c.copy();
    c.timestamp = UtcTimestamp::from_parts(1_700_000_000, 5_000_000).unwrap();
    c.records_since_last = 42;
    c.offset = "0:\"7\"".to_string();
    let w = m.save(&c).ok().unwrap();
    assert_eq!(w.path, "s3://bucket/ckpt/p1/cursor.json");
    assert_eq!(
        w.content,
        "{\n  \"pipeline_id\": \"p1\",\n  \"offset\": \"0:\\\"7\\\"\",\n  \"timestamp\": \"2023-11-14T22:13:20.005Z\",\n  \"records_since_last\": 42\n}"
    );
    // what a save writes, a load gives back
    let back = m.load("p1", Some(w.content.clone())).ok().unwrap().unwrap();
    assert_eq!(back.pipeline_id, "p1");
    assert_eq!(back.offset, "0:\"7\"");
    assert_eq!((back.timestamp.secs(), back.timestamp.nanos()), (1_700_000_000, 5_000_000));
    assert_eq!(back.records_since_last, 42);
    // a fresh start
    assert!(matches!(m.load("p1", None), Ok(None)));
    // text that describes no checkpoint
    match m.load("p1", Some("{\"pipeline_id\": 3}".to_string())) {
        Err(PipelineError::Deserialization { message }) => {
            assert_eq!(message, "Invalid checkpoint at 's3://bucket/ckpt/p1/cursor.json'")
        }
        _ => panic!("expected a deserialization error"),
    }
    assert!(m.load("p1", Some("not json".to_string())).is_err());
    let d = c.copy();
    assert_eq!((d.pipeline_id.as_str(), d.records_since_last), ("p1", 42));
}

#[test]
fn record_types() {
    assert_eq!(DlqErrorType::SchemaValidation.to_string(), "schema_validation");
    assert_eq!(DlqErrorType::TransformError.to_string(), "transform_error");
    assert_eq!(DlqErrorType::SinkWriteError.to_string(), "sink_write_error");
    assert_eq!(DlqErrorType::DeserializationError.to_string(), "deserialization_error");
    let r = WriteReceipt::new(5, 10, std::time::Duration::from_secs(1));
    assert_eq!((r.rows_written, r.bytes_written), (5, 10));
}

#[test]
fn trimming_follows_str_trim() {
    let samples = [
        " a ", "\u{a0}x\u{3000}", "\u{85}\u{2028}y z\u{205f}", "\u{200b}w\u{200b}", "\t\n\r\u{b}\u{c}", "",
        "\u{1680}q\u{202f}",
    ];
    for s in samples {
        assert_eq!(trim_string(s), s.trim(), "{:?}", s);
    }
}
