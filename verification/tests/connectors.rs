use data_pipeline::batch::{Cell, DataKind, Field};
use data_pipeline::config::ConnectorConfig;
use data_pipeline::connectors::factory::{create_sink, create_source, SinkConnector, SourceConnector};
use data_pipeline::connectors::kafka::{
    commits_for, headers_json, kafka_batch_exec, kafka_fields, KafkaMessage, KafkaSource,
    KafkaSourceConfig,
};
use data_pipeline::connectors::postgres::{chunks, pg_type_exec, PostgresSink, PostgresSinkConfig};
use data_pipeline::connectors::settings::{
    bool_or_default, comma_list, required, text_or_default, u32_or_default, usize_or_default,
};
use data_pipeline::connectors::simple::{stdin_batch_exec, StdinSource, StdoutSink};
use data_pipeline::error::PipelineError;
use std::time::Duration;

fn props(p: &[(&str, &str)]) -> Vec<(String, String)> {
    p.iter().map(|(k, v)| (k.to_string(), v.to_string())).collect()
}

fn connector(kind: &str, p: &[(&str, &str)], s: &[(&str, &str)]) -> ConnectorConfig {
    ConnectorConfig { connector_type: kind.to_string(), properties: props(p), secrets: props(s) }
}

fn config_message(e: PipelineError) -> String {
    match e {
        PipelineError::ConfigError { message } => message,
        _ => panic!("expected a configuration error"),
    }
}

fn not_connected(e: PipelineError, who: &str) {
    match e {
        PipelineError::ConnectionFailed { connector, message } => {
            assert_eq!(connector, who);
            assert_eq!(message, "Not connected");
        }
        _ => panic!("expected a connection failure"),
    }
}

// ───────────── settings ─────────────

#[test]
fn settings_take_the_first_entry_and_defaults() {
    let p = props(&[("a", "1"), ("a", "2"), ("flag", "true"), ("bad", "x"), ("big", "4294967296")]);
    assert_eq!(required(&p, "a").ok().unwrap(), "1");
    assert_eq!(config_message(required(&p, "zz").err().unwrap()), "Missing required property: zz");
    assert_eq!(text_or_default(&p, "zz", "dflt"), "dflt");
    assert!(bool_or_default(&p, "flag", false));
    assert!(bool_or_default(&p, "bad", true));
    assert_eq!(usize_or_default(&p, "bad", 7), 7);
    assert_eq!(usize_or_default(&p, "a", 7), 1);
    // does not fit in a u32
    assert_eq!(u32_or_default(&p, "big", 9), 9);
    let plus = props(&[("n", "+12")]);
    assert_eq!(usize_or_default(&plus, "n", 0), 12);
}

#[test]
fn comma_lists_are_split_and_trimmed() {
    assert_eq!(comma_list(" a, b ,c"), vec!["a", "b", "c"]);
    assert_eq!(comma_list("x,,"), vec!["x", "", ""]);
    assert_eq!(comma_list(""), vec![""]);
}

// ───────────── Kafka ─────────────

#[test]
fn kafka_config_needs_servers_then_topics() {
    let e = KafkaSourceConfig::try_from(&connector("kafka", &[("topics", "t")], &[])).err().unwrap();
    assert_eq!(config_message(e), "Missing required property: bootstrap_servers");
    let e = KafkaSourceConfig::try_from(&connector("kafka", &[("bootstrap_servers", "h:9092")], &[]))
        .err()
        .unwrap();
    assert_eq!(config_message(e), "Missing required property: topics");
}

#[test]
fn kafka_config_defaults() {
    let c = KafkaSourceConfig::try_from(&connector(
        "kafka",
        &[("bootstrap_servers", "h:9092"), ("topics", "orders, users")],
        &[],
    ))
    .ok()
    .unwrap();
    assert_eq!(c.bootstrap_servers, "h:9092");
    assert_eq!(c.topics, vec!["orders", "users"]);
    assert_eq!(c.group_id, "rust-data-pipeline");
    assert_eq!(c.client_id, "rust-data-pipeline-source");
    assert_eq!(c.auto_offset_reset, "latest");
    assert!(!c.enable_auto_commit);
    assert_eq!(c.batch_size, 100);
    assert_eq!(c.poll_timeout_ms, 1000);
    assert!(c.security_protocol.is_none());
    assert!(c.sasl_username.is_none());
}

#[test]
fn kafka_client_settings() {
    let c = KafkaSourceConfig::try_from(&connector(
        "kafka",
        &[
            ("bootstrap_servers", "h:9092"),
            ("topics", "t"),
            ("enable_auto_commit", "true"),
            ("batch_size", "25"),
            ("security_protocol", "SASL_SSL"),
            ("sasl_mechanism", "PLAIN"),
        ],
        &[("sasl_username", "u"), ("sasl_password", "p")],
    ))
    .ok()
    .unwrap();
    let s = c.client_settings();
    let keys: Vec<&str> = s.iter().map(|(k, _)| k.as_str()).collect();
    assert_eq!(
        keys,
        vec![
            "bootstrap.servers",
            "group.id",
            "client.id",
            "auto.offset.reset",
            "enable.auto.commit",
            "security.protocol",
            "sasl.mechanism",
            "sasl.username",
            "sasl.password",
            "fetch.min.bytes",
            "fetch.max.wait.ms",
            "max.poll.records",
        ]
    );
    assert_eq!(s[4].1, "true");
    assert_eq!(s[8].1, "p");
    assert_eq!(s[11].1, "25");

    // a user without a password sets neither
    let c = KafkaSourceConfig::try_from(&connector(
        "kafka",
        &[("bootstrap_servers", "h"), ("topics", "t")],
        &[("sasl_username", "u")],
    ))
    .ok()
    .unwrap();
    let s = c.client_settings();
    assert_eq!(s.len(), 8);
    assert!(s.iter().all(|(k, _)| k != "sasl.username"));
}

fn message(partition: i32, offset: i64, ts: Option<i64>, key: Option<&[u8]>, payload: &[u8]) -> KafkaMessage {
    KafkaMessage {
        topic: "orders".to_string(),
        partition,
        offset,
        timestamp_ms: ts,
        key: key.map(|k| k.to_vec()),
        payload: Some(payload.to_vec()),
        headers_json: "{}".to_string(),
    }
}

#[test]
fn kafka_batch_has_one_row_per_message() {
    let ms = vec![message(0, 5, Some(1000), Some(b"k1"), b"{\"a\":1}"), message(1, 9, None, None, b"\xffx")];
    let b = kafka_batch_exec(&ms, 4242);
    assert_eq!(b.num_rows(), 2);
    assert_eq!(b.num_columns(), 7);
    assert_eq!(b.field(3).name, "timestamp");
    assert!(matches!(b.column(1)[1], Cell::Int(1)));
    assert!(matches!(b.column(2)[0], Cell::Int(5)));
    assert!(matches!(b.column(3)[1], Cell::Int(4242)));
    assert!(matches!(&b.column(4)[0], Cell::Text(s) if s == "k1"));
    assert!(matches!(&b.column(4)[1], Cell::Text(s) if s.is_empty()));
    // invalid UTF-8 is replaced, not refused
    assert!(matches!(&b.column(5)[1], Cell::Text(s) if s == "\u{FFFD}x"));
    assert!(matches!(&b.column(6)[0], Cell::Text(s) if s == "{}"));
    let empty = kafka_batch_exec(&Vec::new(), 0);
    assert_eq!(empty.num_rows(), 0);
    assert_eq!(empty.num_columns(), kafka_fields().len());
}

#[test]
fn kafka_source_lifecycle() {
    let cfg = connector("kafka", &[("bootstrap_servers", "h"), ("topics", "a,b")], &[]);
    let mut s = KafkaSource::from_config(&cfg).ok().unwrap();
    assert_eq!(s.name(), "kafka");
    assert!(!s.connected());
    not_connected(s.poll_batch(Vec::new(), 0).err().unwrap(), "kafka");
    not_connected(s.acknowledge("0:1").err().unwrap(), "kafka");
    s.mark_connected();
    assert!(s.connected());
    let b = s.poll_batch(vec![message(0, 3, Some(1), None, b"x")], 0).ok().unwrap();
    assert_eq!(b.num_rows(), 1);
    let c = s.acknowledge("0:3,1:7").ok().unwrap();
    assert_eq!(
        c,
        vec![
            ("a".to_string(), 0, 4),
            ("b".to_string(), 0, 4),
            ("a".to_string(), 1, 8),
            ("b".to_string(), 1, 8)
        ]
    );
    s.disconnect();
    assert!(!s.connected());
    assert_eq!(s.config().topics, vec!["a", "b"]);
}

#[test]
fn kafka_poll_takes_at_most_batch_size_messages() {
    let cfg = connector("kafka", &[("bootstrap_servers", "h"), ("topics", "a"), ("batch_size", "2")], &[]);
    let mut s = KafkaSource::from_config(&cfg).ok().unwrap();
    s.mark_connected();
    let ms = vec![message(0, 1, Some(1), None, b"a"), message(0, 2, Some(1), None, b"b"), message(0, 3, Some(1), None, b"c")];
    let b = s.poll_batch(ms, 0).ok().unwrap();
    assert_eq!(b.num_rows(), 2);
    assert!(matches!(b.column(2)[1], Cell::Int(2)));
}

#[test]
fn commits_skip_malformed_pieces() {
    let topics = vec!["t".to_string()];
    assert_eq!(commits_for("0:10,bogus,2:x,3:4:5,-1:0", &topics), vec![("t".to_string(), 0, 11), ("t".to_string(), -1, 1)]);
    assert!(commits_for("", &topics).is_empty());
    assert!(commits_for("0:1", &Vec::new()).is_empty());
}

// ───────────── PostgreSQL ─────────────

fn pg(p: &[(&str, &str)]) -> PostgresSinkConfig {
    PostgresSinkConfig::try_from(&connector("postgres", p, &[])).ok().unwrap()
}

#[test]
fn postgres_config_errors_and_defaults() {
    let e = PostgresSinkConfig::try_from(&connector("postgres", &[("table_name", "t")], &[])).err().unwrap();
    assert_eq!(config_message(e), "Missing required property: connection_string");
    let e = PostgresSinkConfig::try_from(&connector("postgres", &[("connection_string", "c")], &[]))
        .err()
        .unwrap();
    assert_eq!(config_message(e), "Missing required property: table_name");
    // the secret wins over the property
    let c = PostgresSinkConfig::try_from(&connector(
        "postgres",
        &[("connection_string", "plain"), ("table_name", "t")],
        &[("connection_string", "secret")],
    ))
    .ok()
    .unwrap();
    assert_eq!(c.connection_string, "secret");
    assert_eq!(c.batch_size, 1000);
    assert_eq!(c.max_connections, 10);
    assert!(!c.create_table_if_not_exists);
    assert!(!c.upsert_mode);
    assert!(c.upsert_keys.is_empty());
}

#[test]
fn postgres_statements() {
    let fields = vec![
        Field::new("id", DataKind::Int64, false),
        Field::new("name", DataKind::Utf8, true),
        Field::new("at", DataKind::Timestamp, true),
    ];
    let plain = pg(&[("connection_string", "c"), ("table_name", "events")]);
    assert_eq!(plain.full_table_name(), "events");
    assert!(!plain.upserting());
    assert_eq!(
        plain.create_table_statement(&fields),
        "CREATE TABLE IF NOT EXISTS events (id BIGINT, name TEXT, at TIMESTAMP WITH TIME ZONE)"
    );
    assert_eq!(plain.insert_statement(&fields), "INSERT INTO events (id, name, at) VALUES ($1, $2, $3)");

    let up = pg(&[
        ("connection_string", "c"),
        ("table_name", "events"),
        ("schema_name", "raw"),
        ("upsert_mode", "true"),
        ("upsert_keys", "id"),
    ]);
    assert!(up.upserting());
    assert_eq!(
        up.create_table_statement(&fields),
        "CREATE TABLE IF NOT EXISTS raw.events (id BIGINT, name TEXT, at TIMESTAMP WITH TIME ZONE, PRIMARY KEY (id))"
    );
    assert_eq!(
        up.insert_statement(&fields),
        "INSERT INTO raw.events (id, name, at) VALUES ($1, $2, $3) ON CONFLICT (id) DO UPDATE SET name = EXCLUDED.name, at = EXCLUDED.at"
    );
    // upsert mode without keys is a plain insert
    let nokeys = pg(&[("connection_string", "c"), ("table_name", "e"), ("upsert_mode", "true")]);
    assert!(!nokeys.upserting());
    assert_eq!(pg_type_exec(DataKind::Decimal128), "NUMERIC");
    assert_eq!(pg_type_exec(DataKind::Date32), "DATE");
}

#[test]
fn chunks_cover_the_rows() {
    assert_eq!(chunks(250, 100), vec![(0, 100), (100, 200), (200, 250)]);
    assert_eq!(chunks(100, 100), vec![(0, 100)]);
    assert!(chunks(0, 100).is_empty());
    assert_eq!(chunks(3, 1), vec![(0, 1), (1, 2), (2, 3)]);
}

#[test]
fn postgres_sink_plans_writes() {
    let cfg = connector(
        "postgres",
        &[("connection_string", "c"), ("table_name", "t"), ("create_table_if_not_exists", "true"), ("batch_size", "40")],
        &[],
    );
    let mut s = PostgresSink::from_config(&cfg).ok().unwrap();
    let fields = vec![Field::new("a", DataKind::Boolean, true)];
    not_connected(s.plan_write(&fields, 10).err().unwrap(), "postgres");
    s.mark_connected();
    let p = s.plan_write(&fields, 90).ok().unwrap();
    assert_eq!(p.create_table.as_deref(), Some("CREATE TABLE IF NOT EXISTS t (a BOOLEAN)"));
    assert!(p.prepare);
    assert_eq!(p.insert, "INSERT INTO t (a) VALUES ($1)");
    assert_eq!(p.chunks, vec![(0, 40), (40, 80), (80, 90)]);
    // a failed preparation is tried again on the next batch
    assert!(s.plan_write(&fields, 90).ok().unwrap().prepare);
    s.record_prepared(1);
    let r = s.complete_write(90, Duration::from_millis(4));
    assert_eq!((r.rows_written, r.bytes_written), (90, 0));
    assert_eq!(s.total_rows_written(), 90);
    let p = s.plan_write(&fields, 5).ok().unwrap();
    assert!(p.create_table.is_none());
    assert!(!p.prepare);
    s.disconnect();
    s.mark_connected();
    assert!(s.plan_write(&fields, 5).ok().unwrap().prepare);
    assert_eq!(s.name(), "postgres");
}

// ───────────── stdin and stdout ─────────────

#[test]
fn stdin_batches_keep_trimmed_non_empty_lines() {
    let lines = vec!["  {\"a\":1} ".to_string(), "   ".to_string(), "".to_string(), "x".to_string()];
    let b = stdin_batch_exec(&lines);
    assert_eq!(b.num_rows(), 2);
    assert_eq!(b.field(0).name, "raw_json");
    assert!(matches!(&b.column(0)[0], Cell::Text(s) if s == "{\"a\":1}"));
    assert!(matches!(&b.column(0)[1], Cell::Text(s) if s == "x"));
    assert_eq!(stdin_batch_exec(&vec!["\t".to_string()]).num_rows(), 0);
}

#[test]
fn stdin_source_lifecycle() {
    let mut s = StdinSource::new();
    assert_eq!(s.name(), "stdin");
    assert_eq!(s.batch_size(), 100);
    not_connected(s.poll_batch(&vec!["x".to_string()]).err().unwrap(), "stdin");
    s.connect();
    assert!(s.connected());
    assert_eq!(s.poll_batch(&vec!["x".to_string()]).ok().unwrap().num_rows(), 1);
    s.disconnect();
    assert!(!s.connected());
}

#[test]
fn stdout_sink_counts_rows() {
    let mut s = StdoutSink::new();
    assert_eq!(s.name(), "stdout");
    let r = s.record_write(3, 120, Duration::from_millis(2));
    assert_eq!(r.rows_written, 3);
    assert_eq!(r.bytes_written, 120);
    assert_eq!(r.duration, Duration::from_millis(2));
    s.record_write(4, 1, Duration::ZERO);
    assert_eq!(s.total_rows(), 7);
}

// ───────────── factories ─────────────

#[test]
fn factories_pick_by_type() {
    assert!(matches!(create_source(&connector("stdin", &[], &[])), Ok(SourceConnector::Stdin(_))));
    assert!(matches!(
        create_source(&connector("kafka", &[("bootstrap_servers", "h"), ("topics", "t")], &[])),
        Ok(SourceConnector::Kafka(_))
    ));
    assert!(matches!(create_sink(&connector("stdout", &[], &[])), Ok(SinkConnector::Stdout(_))));
    assert!(matches!(
        create_sink(&connector("postgres", &[("connection_string", "c"), ("table_name", "t")], &[])),
        Ok(SinkConnector::Postgres(_))
    ));
}

#[test]
fn factories_refuse_unknown_types() {
    let e = create_source(&connector("ftp", &[], &[])).err().unwrap();
    assert_eq!(
        config_message(e),
        "Unknown source connector type: 'ftp'. Available: stdin, kafka, kinesis, pulsar, nats, sqs, postgres_cdc, mysql_cdc, mongodb_cdc, salesforce, hubspot"
    );
    let e = create_sink(&connector("fax", &[], &[])).err().unwrap();
    assert_eq!(
        config_message(e),
        "Unknown sink connector type: 'fax'. Available: stdout, postgres, mysql, mongodb, redis, elasticsearch, snowflake, bigquery, databricks, delta_lake, iceberg, s3, gcs"
    );
    let e = create_source(&connector("kafka", &[], &[])).err().unwrap();
    assert_eq!(config_message(e), "Missing required property: bootstrap_servers");
    let e = create_sink(&connector("postgres", &[("connection_string", "c")], &[])).err().unwrap();
    assert_eq!(config_message(e), "Missing required property: table_name");
    let e = create_sink(&connector("postgres", &[("table_name", "t")], &[])).err().unwrap();
    assert_eq!(config_message(e), "Missing required property: connection_string");
}

#[test]
fn message_headers_become_a_json_object() {
    assert_eq!(headers_json(&None), "{}");
    assert_eq!(headers_json(&Some(Vec::new())), "{}");
    let h = vec![("trace".to_string(), b"a\"1".to_vec()), ("trace".to_string(), vec![b'x', 0xff])];
    assert_eq!(headers_json(&Some(h)), "{\"trace\":\"x\u{fffd}\"}");
    let two = headers_json(&Some(vec![("a".to_string(), b"1".to_vec()), ("b".to_string(), b"2".to_vec())]));
    assert!(two == "{\"a\":\"1\",\"b\":\"2\"}" || two == "{\"b\":\"2\",\"a\":\"1\"}");
}

#[test]
fn polled_messages_carry_their_headers_object() {
    let m = KafkaMessage::from_polled("t".to_string(), 2, 9, Some(5), None, Some(b"v".to_vec()), None);
    assert_eq!(m.headers_json, "{}");
    assert_eq!(m.partition, 2);
    assert_eq!(m.offset, 9);
    let h = vec![("k".to_string(), b"1".to_vec()), ("k".to_string(), b"2".to_vec())];
    let m = KafkaMessage::from_polled("t".to_string(), 0, 0, None, None, None, Some(h));
    assert_eq!(m.headers_json, "{\"k\":\"2\"}");
}
