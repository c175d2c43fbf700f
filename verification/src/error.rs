//! The error type shared by every part of the pipeline engine.
use vstd::prelude::*;
use crate::text::{chars_of, decimal, decimal_chars, push_chars, push_str, string_from_chars};

verus! {

/// `arrow::error::ArrowError`, carried through unchanged.
#[verifier::external_type_specification]
#[verifier::external_body]
pub struct ExArrowError(arrow::error::ArrowError);

/// `std::io::Error`, carried through unchanged.
#[verifier::external_type_specification]
#[verifier::external_body]
pub struct ExIoError(std::io::Error);

/// `serde_json::Error`, carried through unchanged.
#[verifier::external_type_specification]
#[verifier::external_body]
pub struct ExSerdeJsonError(serde_json::Error);

/// Unified error enum for all pipeline operations.
#[derive(Debug)]
pub enum PipelineError {
    ConnectionFailed { connector: String, message: String },
    AuthenticationFailed { connector: String, message: String },
    SchemaValidation { message: String },
    Deserialization { message: String },
    TransformFailed { transform: String, message: String },
    SinkWriteFailed { connector: String, retries: u32, message: String },
    CheckpointFailed { message: String },
    SecretRetrievalFailed { key: String, message: String },
    ConfigError { message: String },
    RateLimitExceeded { message: String },
    WasmPluginError { plugin: String, message: String },
    Internal(String),
    Arrow(arrow::error::ArrowError),
    Io(std::io::Error),
    SerdeJson(serde_json::Error),
}

/// Whether `e` is a configuration error with the message `m`.
pub open spec fn is_config_error(e: PipelineError, m: Seq<char>) -> bool {
    e matches PipelineError::ConfigError { message } && message@ == m
}

/// Whether `e` is a connection failure of `connector` with message `m`.
pub open spec fn is_connection_failure(e: PipelineError, connector: Seq<char>, m: Seq<char>) -> bool {
    e matches PipelineError::ConnectionFailed { connector: c, message } && c@ == connector
        && message@ == m
}

/// Whether `e` is a sink write failure of `connector` after `retries`
/// retries with message `m`.
pub open spec fn is_sink_failure(e: PipelineError, connector: Seq<char>, retries: u32, m: Seq<char>) -> bool {
    e matches PipelineError::SinkWriteFailed { connector: c, retries: n, message } && c@
        == connector && n == retries && message@ == m
}

/// Whether `e` is an internal error with message `m`.
pub open spec fn is_internal(e: PipelineError, m: Seq<char>) -> bool {
    e matches PipelineError::Internal(message) && message@ == m
}

/// The text of an error, for all but the variants that wrap an outside
/// error (whose text is that error's own).
pub open spec fn error_text(e: PipelineError) -> Option<Seq<char>> {
    match e {
        PipelineError::ConnectionFailed { connector, message } => Some(
            "Connection failed for connector '"@ + connector@ + "': "@ + message@,
        ),
        PipelineError::AuthenticationFailed { connector, message } => Some(
            "Authentication failed for connector '"@ + connector@ + "': "@ + message@,
        ),
        PipelineError::SchemaValidation { message } => Some(
            "Schema validation failed: "@ + message@,
        ),
        PipelineError::Deserialization { message } => Some("Deserialization failed: "@ + message@),
        PipelineError::TransformFailed { transform, message } => Some(
            "Transformation '"@ + transform@ + "' failed: "@ + message@,
        ),
        PipelineError::SinkWriteFailed { connector, retries, message } => Some(
            "Sink write failed for '"@ + connector@ + "' after "@ + decimal(retries as nat)
                + " retries: "@ + message@,
        ),
        PipelineError::CheckpointFailed { message } => Some(
            "Checkpoint persistence failed: "@ + message@,
        ),
        PipelineError::SecretRetrievalFailed { key, message } => Some(
            "Secret retrieval failed for key '"@ + key@ + "': "@ + message@,
        ),
        PipelineError::ConfigError { message } => Some("Configuration error: "@ + message@),
        PipelineError::RateLimitExceeded { message } => Some("Rate limit exceeded: "@ + message@),
        PipelineError::WasmPluginError { plugin, message } => Some(
            "WASM plugin '"@ + plugin@ + "' error: "@ + message@,
        ),
        PipelineError::Internal(m) => Some("Internal error: "@ + m@),
        _ => None,
    }
}

/// `ArrowError`'s text.
#[verifier::external_body]
fn arrow_error_text(e: &arrow::error::ArrowError) -> (r: String) {
    e.to_string()
}

/// `io::Error`'s text.
#[verifier::external_body]
fn io_error_text(e: &std::io::Error) -> (r: String) {
    e.to_string()
}

/// `serde_json::Error`'s text.
#[verifier::external_body]
fn serde_json_error_text(e: &serde_json::Error) -> (r: String) {
    e.to_string()
}

fn text3(a: &str, b: &String, c: &str, d: &String) -> (r: String)
    ensures
        r@ == a@ + b@ + c@ + d@,
{
    let mut v = chars_of(a);
    push_str(&mut v, b.as_str());
    push_str(&mut v, c);
    push_str(&mut v, d.as_str());
    string_from_chars(&v)
}

fn text1(a: &str, b: &String) -> (r: String)
    ensures
        r@ == a@ + b@,
{
    let mut v = chars_of(a);
    push_str(&mut v, b.as_str());
    string_from_chars(&v)
}

impl PipelineError {
    /// The error's text (see `error_text`).
    pub fn describe(&self) -> (r: String)
        ensures
            error_text(*self) matches Some(t) ==> r@ == t,
    {
        match self {
            PipelineError::ConnectionFailed { connector, message } => text3(
                "Connection failed for connector '",
                connector,
                "': ",
                message,
            ),
            PipelineError::AuthenticationFailed { connector, message } => text3(
                "Authentication failed for connector '",
                connector,
                "': ",
                message,
            ),
            PipelineError::SchemaValidation { message } => text1("Schema validation failed: ", message),
            PipelineError::Deserialization { message } => text1("Deserialization failed: ", message),
            PipelineError::TransformFailed { transform, message } => text3(
                "Transformation '",
                transform,
                "' failed: ",
                message,
            ),
            PipelineError::SinkWriteFailed { connector, retries, message } => {
                let mut v = chars_of("Sink write failed for '");
                push_str(&mut v, connector.as_str());
                push_str(&mut v, "' after ");
                push_chars(&mut v, &decimal_chars(*retries as u64));
                push_str(&mut v, " retries: ");
                push_str(&mut v, message.as_str());
                string_from_chars(&v)
            },
            PipelineError::CheckpointFailed { message } => text1(
                "Checkpoint persistence failed: ",
                message,
            ),
            PipelineError::SecretRetrievalFailed { key, message } => text3(
                "Secret retrieval failed for key '",
                key,
                "': ",
                message,
            ),
            PipelineError::ConfigError { message } => text1("Configuration error: ", message),
            PipelineError::RateLimitExceeded { message } => text1("Rate limit exceeded: ", message),
            PipelineError::WasmPluginError { plugin, message } => text3(
                "WASM plugin '",
                plugin,
                "' error: ",
                message,
            ),
            PipelineError::Internal(m) => text1("Internal error: ", m),
            PipelineError::Arrow(e) => arrow_error_text(e),
            PipelineError::Io(e) => io_error_text(e),
            PipelineError::SerdeJson(e) => serde_json_error_text(e),
        }
    }
}

/// Builds `ConfigError { message }`.
pub fn config_error(message: String) -> (e: PipelineError)
    ensures
        is_config_error(e, message@),
{
    PipelineError::ConfigError { message }
}

} // verus!
