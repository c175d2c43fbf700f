//! Records exchanged between the parts of the engine: alerts, checkpoints and
//! failed records.
use vstd::prelude::*;
use crate::text::{chars_of, copy_string, string_from_chars};
use crate::timestamp::UtcTimestamp;

verus! {

/// Alert severity levels.
#[derive(Debug, Clone, Copy, PartialEq, Eq, Structural)]
pub enum AlertSeverity {
    /// No action required.
    Info,
    /// Attention recommended.
    Warning,
    /// Immediate action required.
    Critical,
}

/// An alert event dispatched to the registered alert dispatchers.
pub struct Alert {
    pub pipeline_id: String,
    pub severity: AlertSeverity,
    pub title: String,
    pub description: String,
    pub timestamp: UtcTimestamp,
    /// Labels for routing and filtering.
    pub labels: Vec<(String, String)>,
}

/// The position a pipeline has processed up to.
pub struct Checkpoint {
    pub pipeline_id: String,
    /// Opaque offset; its meaning depends on the source.
    pub offset: String,
    /// When the checkpoint was created.
    pub timestamp: UtcTimestamp,
    /// Records processed since the previous checkpoint.
    pub records_since_last: u64,
}

impl Checkpoint {
    /// A checkpoint of `offset` for `pipeline_id`, taken now.
    pub fn new(pipeline_id: String, offset: String) -> (r: Checkpoint)
        ensures
            r.pipeline_id@ == pipeline_id@,
            r.offset@ == offset@,
            r.records_since_last == 0,
    {
        Checkpoint { pipeline_id, offset, timestamp: UtcTimestamp::now(), records_since_last: 0 }
    }

    /// A copy of this checkpoint.
    pub fn copy(&self) -> (r: Checkpoint)
        ensures
            r.pipeline_id@ == self.pipeline_id@,
            r.offset@ == self.offset@,
            r.timestamp == self.timestamp,
            r.records_since_last == self.records_since_last,
    {
        Checkpoint {
            pipeline_id: copy_string(&self.pipeline_id),
            offset: copy_string(&self.offset),
            timestamp: self.timestamp,
            records_since_last: self.records_since_last,
        }
    }
}

/// Categories of failed records.
#[derive(Debug, Clone, Copy, PartialEq, Eq, Structural)]
pub enum DlqErrorType {
    /// Schema validation failure.
    SchemaValidation,
    /// Transformation failure.
    TransformError,
    /// Sink write failure after all retries.
    SinkWriteError,
    /// Malformed input.
    DeserializationError,
}

/// The name of an error type.
pub open spec fn error_type_name(t: DlqErrorType) -> Seq<char> {
    match t {
        DlqErrorType::SchemaValidation => "schema_validation"@,
        DlqErrorType::TransformError => "transform_error"@,
        DlqErrorType::SinkWriteError => "sink_write_error"@,
        DlqErrorType::DeserializationError => "deserialization_error"@,
    }
}

impl DlqErrorType {
    /// The error type's name, as it is displayed.
    pub fn to_string(&self) -> (r: String)
        ensures
            r@ == error_type_name(*self),
    {
        let s = match self {
            DlqErrorType::SchemaValidation => "schema_validation",
            DlqErrorType::TransformError => "transform_error",
            DlqErrorType::SinkWriteError => "sink_write_error",
            DlqErrorType::DeserializationError => "deserialization_error",
        };
        string_from_chars(&chars_of(s))
    }
}

/// A record that failed validation, transformation or sink write.
/// `original_payload` is the JSON text of the payload.
pub struct DlqRecord {
    pub pipeline_id: String,
    pub original_payload: String,
    pub error_type: DlqErrorType,
    pub error_message: String,
    pub timestamp: UtcTimestamp,
    /// Retry attempts made before the record was routed here.
    pub retry_count: u32,
}

/// Returned by a sink after a successful batch write.
pub struct WriteReceipt {
    /// Number of rows written in this batch.
    pub rows_written: u64,
    /// Bytes written (approximate).
    pub bytes_written: u64,
    /// Time taken for the write.
    pub duration: std::time::Duration,
}

impl WriteReceipt {
    /// A receipt for `rows` rows and `bytes` bytes written in `duration`.
    pub fn new(rows: u64, bytes: u64, duration: std::time::Duration) -> (r: WriteReceipt)
        ensures
            r.rows_written == rows,
            r.bytes_written == bytes,
            r.duration == duration,
    {
        WriteReceipt { rows_written: rows, bytes_written: bytes, duration }
    }
}

} // verus!
