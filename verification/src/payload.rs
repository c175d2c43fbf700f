//! The interfaces of payload formats that users provide: turning raw bytes
//! into batches and batches into bytes.
use vstd::prelude::*;
use crate::batch::Batch;
use crate::error::PipelineError;

verus! {

/// Deserializes raw bytes from a source into a batch (JSON, Avro, CSV,
/// Parquet or a proprietary format).
pub trait PayloadDeserializer {
    /// The format's identifier (e.g. "json", "avro").
    fn format_name(&self) -> &str;

    /// The batch that `raw` holds.
    fn deserialize(&self, raw: &[u8]) -> Result<Batch, PipelineError>;
}

/// Serializes a batch into bytes for a sink (NDJSON, Parquet or a custom
/// egress format).
pub trait PayloadSerializer {
    /// The format's identifier.
    fn format_name(&self) -> &str;

    /// The bytes of `batch`.
    fn serialize(&self, batch: &Batch) -> Result<Vec<u8>, PipelineError>;
}

} // verus!
