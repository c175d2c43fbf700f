//! Creating connectors from their configuration by connector type.
use vstd::prelude::*;
use crate::config::{lookup, ConnectorConfig};
use crate::connectors::kafka::{kafka_config_matches, KafkaSource};
use crate::connectors::settings::missing_message;
use crate::connectors::postgres::{connection_string_of, postgres_config_matches, PostgresSink};
use crate::connectors::simple::{StdinSource, StdoutSink};
use crate::error::{is_config_error, PipelineError};
use crate::text::{chars_of, push_str, str_eq, string_from_chars};

verus! {

/// A source connector.
pub enum SourceConnector {
    Stdin(StdinSource),
    Kafka(KafkaSource),
}

/// A sink connector.
pub enum SinkConnector {
    Stdout(StdoutSink),
    Postgres(PostgresSink),
}

/// The message for an unknown source type `t`.
pub open spec fn unknown_source_message(t: Seq<char>) -> Seq<char> {
    "Unknown source connector type: '"@ + t
        + "'. Available: stdin, kafka, kinesis, pulsar, nats, sqs, postgres_cdc, mysql_cdc, mongodb_cdc, salesforce, hubspot"@
}

/// The message for an unknown sink type `t`.
pub open spec fn unknown_sink_message(t: Seq<char>) -> Seq<char> {
    "Unknown sink connector type: '"@ + t
        + "'. Available: stdout, postgres, mysql, mongodb, redis, elasticsearch, snowflake, bigquery, databricks, delta_lake, iceberg, s3, gcs"@
}

/// Whether `create_source` builds a source from `c`: "stdin", or "kafka"
/// with its required settings.
pub open spec fn source_buildable(c: ConnectorConfig) -> bool {
    c.connector_type@ == "stdin"@ || (c.connector_type@ == "kafka"@
        && KafkaSource::from_config_outcome(&c))
}

/// Whether `create_sink` builds a sink from `c`: "stdout", or "postgres"
/// with its required settings.
pub open spec fn sink_buildable(c: ConnectorConfig) -> bool {
    c.connector_type@ == "stdout"@ || (c.connector_type@ == "postgres"@
        && PostgresSink::from_config_outcome(&c))
}

/// Whether `s` is the fresh, disconnected source that `c` describes.
pub open spec fn source_built_from(s: SourceConnector, c: ConnectorConfig) -> bool {
    match s {
        SourceConnector::Stdin(x) => c.connector_type@ == "stdin"@ && !x.is_connected()
            && x.lines_per_batch() == 100,
        SourceConnector::Kafka(k) => c.connector_type@ == "kafka"@ && kafka_config_matches(
            k.settings(),
            c,
        ) && !k.is_connected() && k.offsets() == Map::<i32, i64>::empty(),
    }
}

/// Whether `s` is the fresh, disconnected sink that `c` describes.
pub open spec fn sink_built_from(s: SinkConnector, c: ConnectorConfig) -> bool {
    match s {
        SinkConnector::Stdout(x) => c.connector_type@ == "stdout"@ && x.rows() == 0,
        SinkConnector::Postgres(p) => c.connector_type@ == "postgres"@ && postgres_config_matches(
            p.settings(),
            c,
        ) && !p.is_connected() && p.total_rows() == 0 && p.prepared().len() == 0,
    }
}

/// The source for `config`: "stdin" gives a stdin source, "kafka" a Kafka
/// source built from the configuration (its errors passed on); any other
/// type is a configuration error.
pub fn create_source(config: &ConnectorConfig) -> (r: Result<SourceConnector, PipelineError>)
    ensures
        config.connector_type@ == "stdin"@ ==> (r matches Ok(SourceConnector::Stdin(s))
            && !s.is_connected()),
        config.connector_type@ == "kafka"@ ==> match KafkaSource::from_config_outcome(config) {
            true => r matches Ok(SourceConnector::Kafka(s)) && !s.is_connected(),
            false => r is Err,
        },
        config.connector_type@ == "kafka"@ && lookup(config.properties@, "bootstrap_servers"@)
            is None ==> (r matches Err(e) && is_config_error(
            e,
            crate::connectors::settings::missing_message("bootstrap_servers"@),
        )),
        config.connector_type@ != "stdin"@ && config.connector_type@ != "kafka"@ ==> (r matches Err(
            e,
        ) && is_config_error(e, unknown_source_message(config.connector_type@))),
        r is Ok <==> source_buildable(*config),
        r matches Ok(s) ==> source_built_from(s, *config),
{
    proof {
        reveal_strlit("stdin");
        reveal_strlit("kafka");
        assert("stdin"@[0] != "kafka"@[0]);
    }
    if str_eq(config.connector_type.as_str(), "stdin") {
        Ok(SourceConnector::Stdin(StdinSource::new()))
    } else if str_eq(config.connector_type.as_str(), "kafka") {
        match KafkaSource::from_config(config) {
            Ok(s) => Ok(SourceConnector::Kafka(s)),
            Err(e) => Err(e),
        }
    } else {
        let mut m = chars_of("Unknown source connector type: '");
        push_str(&mut m, config.connector_type.as_str());
        push_str(
            &mut m,
            "'. Available: stdin, kafka, kinesis, pulsar, nats, sqs, postgres_cdc, mysql_cdc, mongodb_cdc, salesforce, hubspot",
        );
        Err(PipelineError::ConfigError { message: string_from_chars(&m) })
    }
}

/// The sink for `config`: "stdout" gives a stdout sink, "postgres" a
/// PostgreSQL sink built from the configuration (its errors passed on); any
/// other type is a configuration error.
pub fn create_sink(config: &ConnectorConfig) -> (r: Result<SinkConnector, PipelineError>)
    ensures
        config.connector_type@ == "stdout"@ ==> (r matches Ok(SinkConnector::Stdout(s)) && s.rows()
            == 0),
        config.connector_type@ == "postgres"@ ==> match PostgresSink::from_config_outcome(config) {
            true => r matches Ok(SinkConnector::Postgres(s)) && !s.is_connected(),
            false => r is Err,
        },
        config.connector_type@ != "stdout"@ && config.connector_type@ != "postgres"@ ==> (r matches Err(
            e,
        ) && is_config_error(e, unknown_sink_message(config.connector_type@))),
        config.connector_type@ == "postgres"@ && connection_string_of(*config) is None ==> (r matches Err(
            e,
        ) && is_config_error(e, missing_message("connection_string"@))),
        config.connector_type@ == "postgres"@ && connection_string_of(*config) is Some && lookup(
            config.properties@,
            "table_name"@,
        ) is None ==> (r matches Err(e) && is_config_error(e, missing_message("table_name"@))),
        r is Ok <==> sink_buildable(*config),
        r matches Ok(s) ==> sink_built_from(s, *config),
{
    proof {
        reveal_strlit("stdout");
        reveal_strlit("postgres");
        assert("stdout"@.len() != "postgres"@.len());
    }
    if str_eq(config.connector_type.as_str(), "stdout") {
        Ok(SinkConnector::Stdout(StdoutSink::new()))
    } else if str_eq(config.connector_type.as_str(), "postgres") {
        match PostgresSink::from_config(config) {
            Ok(s) => Ok(SinkConnector::Postgres(s)),
            Err(e) => Err(e),
        }
    } else {
        let mut m = chars_of("Unknown sink connector type: '");
        push_str(&mut m, config.connector_type.as_str());
        push_str(
            &mut m,
            "'. Available: stdout, postgres, mysql, mongodb, redis, elasticsearch, snowflake, bigquery, databricks, delta_lake, iceberg, s3, gcs",
        );
        Err(PipelineError::ConfigError { message: string_from_chars(&m) })
    }
}

} // verus!
