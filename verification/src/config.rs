//! Pipeline configuration: the definition of one pipeline, its connectors,
//! field mappings, transforms, schema settings, rate limits and feature flags,
//! with the defaults that apply where a definition leaves a setting out.
use vstd::prelude::*;
use crate::text::{copy_string, str_eq};

verus! {

/// Key/value settings, each value held as text. Where a key occurs twice the
/// first entry counts.
pub type Properties = Vec<(String, String)>;

/// The value stored under `key`: that of the first entry with this key.
pub open spec fn lookup(entries: Seq<(String, String)>, key: Seq<char>) -> Option<Seq<char>>
    decreases entries.len(),
{
    if entries.len() == 0 {
        None
    } else if entries[0].0@ == key {
        Some(entries[0].1@)
    } else {
        lookup(entries.drop_first(), key)
    }
}

/// The value stored under `key`, if any.
pub fn get_property(entries: &Properties, key: &str) -> (r: Option<String>)
    ensures
        match lookup(entries@, key@) {
            Some(v) => r matches Some(s) && s@ == v,
            None => r is None,
        },
{
    let n = entries.len();
    let mut i: usize = 0;
    assert(entries@.subrange(0, n as int) =~= entries@);
    while i < n
        invariant
            n == entries@.len(),
            i <= n,
            lookup(entries@, key@) == lookup(entries@.subrange(i as int, n as int), key@),
        decreases n - i,
    {
        let ghost t = entries@.subrange(i as int, n as int);
        assert(t[0] == entries@[i as int]);
        if str_eq(entries[i].0.as_str(), key) {
            return Some(copy_string(&entries[i].1));
        }
        assert(t.drop_first() =~= entries@.subrange(i + 1, n as int));
        i = i + 1;
    }
    None
}

/// Configuration for a source or sink connector.
pub struct ConnectorConfig {
    /// Connector type identifier (e.g. "kafka", "stdout").
    pub connector_type: String,
    /// Connector-specific settings (host, topic, table, ...).
    pub properties: Properties,
    /// Secret references for credentials.
    pub secrets: Properties,
}

/// A single field mapping in the 1-to-1 schema translation.
pub struct FieldMapping {
    /// Field name in the source payload.
    pub source_field: String,
    /// Field name in the destination schema.
    pub sink_field: String,
    /// Optional type cast: "string", "integer", "float" or "timestamp" (see
    /// `transform::cast_cell`).
    pub cast: Option<String>,
}

/// Configuration for a single transformation step.
pub struct TransformConfig {
    /// Transform type (e.g. "field_mapper", "filter").
    pub transform_type: String,
    /// Transform-specific parameters, each value as JSON text.
    pub params: Properties,
}

/// Policy when unexpected schema changes are detected.
#[derive(Debug, Clone, Copy, PartialEq, Eq, Structural)]
pub enum DriftPolicy {
    /// Halt the pipeline and raise an alert.
    Halt,
    /// Drop unknown fields silently.
    DropField,
    /// Send malformed records to the DLQ and continue.
    Dlq,
    /// Alter the destination table to accommodate new fields.
    AlterTable,
}

impl Default for DriftPolicy {
    fn default() -> (r: Self)
        ensures
            r == DriftPolicy::Dlq,
    {
        DriftPolicy::Dlq
    }
}

/// Schema validation settings.
pub struct SchemaConfig {
    /// Path to the schema definition.
    pub schema_path: Option<String>,
    /// What to do when schema drift is detected.
    pub drift_policy: DriftPolicy,
    /// Whether to infer the schema from the first batch.
    pub auto_infer: bool,
}

/// Rate limiting configuration.
#[derive(Debug, Clone, Copy, PartialEq, Eq, Structural)]
pub struct RateLimitConfig {
    /// Maximum transactions per second from the source.
    pub max_source_tps: u32,
    /// Maximum transactions per second to the sink.
    pub max_sink_tps: u32,
    /// Maximum concurrent connections to the sink database.
    pub max_concurrent_connections: u32,
}

impl Default for RateLimitConfig {
    fn default() -> (r: Self)
        ensures
            r.max_source_tps == 10_000,
            r.max_sink_tps == 5_000,
            r.max_concurrent_connections == 10,
    {
        RateLimitConfig {
            max_source_tps: default_source_tps(),
            max_sink_tps: default_sink_tps(),
            max_concurrent_connections: default_max_connections(),
        }
    }
}

/// Feature flags and runtime overrides.
#[derive(Debug, Clone, Copy, PartialEq, Eq, Structural)]
pub struct FeatureFlags {
    /// Enable the dead letter queue for failed records.
    pub enable_dlq: bool,
    /// Enable schema validation on incoming records.
    pub enable_schema_validation: bool,
    /// Require TLS for all connections.
    pub require_tls: bool,
    /// Maximum memory buffer in MB before spilling to disk.
    pub max_memory_buffer_mb: u64,
    /// Micro-batch flush interval in milliseconds.
    pub batch_flush_interval_ms: u64,
    /// Enable data lineage header injection.
    pub enable_lineage: bool,
    /// Global concurrency limit for worker tasks.
    pub concurrency_limit: usize,
}

impl Default for FeatureFlags {
    fn default() -> (r: Self)
        ensures
            r.enable_dlq,
            !r.enable_schema_validation,
            r.require_tls,
            r.max_memory_buffer_mb == 512,
            r.batch_flush_interval_ms == 5000,
            r.enable_lineage,
            r.concurrency_limit == 64,
    {
        FeatureFlags {
            enable_dlq: true,
            enable_schema_validation: false,
            require_tls: true,
            max_memory_buffer_mb: 512,
            batch_flush_interval_ms: 5000,
            enable_lineage: true,
            concurrency_limit: 64,
        }
    }
}

/// Root configuration for a single data pipeline.
pub struct PipelineConfig {
    /// Unique identifier for the pipeline.
    pub pipeline_id: String,
    /// Whether this pipeline is enabled.
    pub enabled: bool,
    /// Source connector configuration.
    pub source: ConnectorConfig,
    /// Sink connector configuration.
    pub sink: ConnectorConfig,
    /// 1-to-1 field mappings from source schema to sink schema.
    pub field_mappings: Vec<FieldMapping>,
    /// Transformation chain configuration.
    pub transforms: Vec<TransformConfig>,
    /// Schema validation settings.
    pub schema: Option<SchemaConfig>,
    /// Rate limiting settings.
    pub rate_limits: RateLimitConfig,
    /// Feature flags and overrides.
    pub flags: FeatureFlags,
}

/// Default for `enabled`, `enable_dlq`, `require_tls` and `enable_lineage`.
pub fn default_true() -> (r: bool)
    ensures
        r,
{
    true
}

/// Default maximum source throughput.
pub fn default_source_tps() -> (r: u32)
    ensures
        r == 10_000,
{
    10_000
}

/// Default maximum sink throughput.
pub fn default_sink_tps() -> (r: u32)
    ensures
        r == 5_000,
{
    5_000
}

/// Default maximum number of concurrent sink connections.
pub fn default_max_connections() -> (r: u32)
    ensures
        r == 10,
{
    10
}

/// Default memory buffer in MB.
pub fn default_buffer_mb() -> (r: u64)
    ensures
        r == 512,
{
    512
}

/// Default micro-batch flush interval in milliseconds.
pub fn default_flush_interval() -> (r: u64)
    ensures
        r == 5000,
{
    5000
}

/// Default concurrency limit.
pub fn default_concurrency() -> (r: usize)
    ensures
        r == 64,
{
    64
}

// ───────────────────────────── copies ─────────────────────────────

/// A copy of a list of properties.
pub fn copy_properties(p: &Properties) -> (r: Properties)
    ensures
        r@.len() == p@.len(),
        forall|i: int|
            0 <= i < p@.len() ==> (#[trigger] r@[i]).0@ == p@[i].0@ && r@[i].1@ == p@[i].1@,
{
    let mut r: Properties = Vec::new();
    let mut i: usize = 0;
    while i < p.len()
        invariant
            i <= p@.len(),
            r@.len() == i,
            forall|k: int|
                0 <= k < i ==> (#[trigger] r@[k]).0@ == p@[k].0@ && r@[k].1@ == p@[k].1@,
        decreases p.len() - i,
    {
        r.push((copy_string(&p[i].0), copy_string(&p[i].1)));
        i = i + 1;
    }
    r
}

/// Whether two property lists hold the same entries in the same order.
pub open spec fn same_properties(a: Seq<(String, String)>, b: Seq<(String, String)>) -> bool {
    a.len() == b.len() && forall|i: int|
        0 <= i < a.len() ==> (#[trigger] a[i]).0@ == b[i].0@ && a[i].1@ == b[i].1@
}

pub proof fn lemma_same_properties_lookup(
    a: Seq<(String, String)>,
    b: Seq<(String, String)>,
    key: Seq<char>,
)
    requires
        same_properties(a, b),
    ensures
        lookup(a, key) == lookup(b, key),
    decreases a.len(),
{
    if a.len() > 0 {
        assert(a[0].0@ == b[0].0@);
        lemma_same_properties_lookup(a.drop_first(), b.drop_first(), key);
    }
}

impl ConnectorConfig {
    /// Whether `other` holds the same settings.
    pub open spec fn same_as(&self, other: &ConnectorConfig) -> bool {
        &&& self.connector_type@ == other.connector_type@
        &&& same_properties(self.properties@, other.properties@)
        &&& same_properties(self.secrets@, other.secrets@)
    }

    /// A copy of this configuration.
    pub fn copy(&self) -> (r: ConnectorConfig)
        ensures
            r.same_as(self),
    {
        ConnectorConfig {
            connector_type: copy_string(&self.connector_type),
            properties: copy_properties(&self.properties),
            secrets: copy_properties(&self.secrets),
        }
    }
}

impl FieldMapping {
    /// A copy of this mapping.
    pub fn copy(&self) -> (r: FieldMapping)
        ensures
            r.source_field@ == self.source_field@,
            r.sink_field@ == self.sink_field@,
            r.cast is Some <==> self.cast is Some,
            r.cast is Some ==> r.cast->0@ == self.cast->0@,
    {
        FieldMapping {
            source_field: copy_string(&self.source_field),
            sink_field: copy_string(&self.sink_field),
            cast: match &self.cast {
                Some(c) => Some(copy_string(c)),
                None => None,
            },
        }
    }
}

impl TransformConfig {
    /// A copy of this transform configuration.
    pub fn copy(&self) -> (r: TransformConfig)
        ensures
            r.transform_type@ == self.transform_type@,
            same_properties(r.params@, self.params@),
    {
        TransformConfig {
            transform_type: copy_string(&self.transform_type),
            params: copy_properties(&self.params),
        }
    }
}

impl SchemaConfig {
    /// A copy of these settings.
    pub fn copy(&self) -> (r: SchemaConfig)
        ensures
            r.drift_policy == self.drift_policy,
            r.auto_infer == self.auto_infer,
            r.schema_path is Some <==> self.schema_path is Some,
            r.schema_path is Some ==> r.schema_path->0@ == self.schema_path->0@,
    {
        SchemaConfig {
            schema_path: match &self.schema_path {
                Some(p) => Some(copy_string(p)),
                None => None,
            },
            drift_policy: self.drift_policy,
            auto_infer: self.auto_infer,
        }
    }
}

impl PipelineConfig {
    /// Whether `other` holds the same settings (the schema and the transform
    /// and field mapping lists compared by length and kind).
    pub open spec fn same_as(&self, other: &PipelineConfig) -> bool {
        &&& self.pipeline_id@ == other.pipeline_id@
        &&& self.enabled == other.enabled
        &&& self.source.same_as(&other.source)
        &&& self.sink.same_as(&other.sink)
        &&& self.field_mappings@.len() == other.field_mappings@.len()
        &&& (forall|i: int|
            0 <= i < self.field_mappings@.len() ==> (#[trigger] self.field_mappings@[i]).source_field@
                == other.field_mappings@[i].source_field@ && self.field_mappings@[i].sink_field@
                == other.field_mappings@[i].sink_field@)
        &&& self.transforms@.len() == other.transforms@.len()
        &&& (forall|i: int|
            0 <= i < self.transforms@.len() ==> (#[trigger] self.transforms@[i]).transform_type@
                == other.transforms@[i].transform_type@)
        &&& (self.schema is Some <==> other.schema is Some)
        &&& self.rate_limits == other.rate_limits
        &&& self.flags == other.flags
    }

    /// A copy of this configuration.
    pub fn copy(&self) -> (r: PipelineConfig)
        ensures
            r.same_as(self),
    {
        let mut fm: Vec<FieldMapping> = Vec::new();
        let mut i: usize = 0;
        while i < self.field_mappings.len()
            invariant
                i <= self.field_mappings@.len(),
                fm@.len() == i,
                forall|k: int|
                    0 <= k < i ==> (#[trigger] fm@[k]).source_field@
                        == self.field_mappings@[k].source_field@ && fm@[k].sink_field@
                        == self.field_mappings@[k].sink_field@,
            decreases self.field_mappings.len() - i,
        {
            fm.push(self.field_mappings[i].copy());
            i = i + 1;
        }
        let mut tr: Vec<TransformConfig> = Vec::new();
        let mut j: usize = 0;
        while j < self.transforms.len()
            invariant
                j <= self.transforms@.len(),
                tr@.len() == j,
                forall|k: int|
                    0 <= k < j ==> (#[trigger] tr@[k]).transform_type@
                        == self.transforms@[k].transform_type@,
            decreases self.transforms.len() - j,
        {
            tr.push(self.transforms[j].copy());
            j = j + 1;
        }
        PipelineConfig {
            pipeline_id: copy_string(&self.pipeline_id),
            enabled: self.enabled,
            source: self.source.copy(),
            sink: self.sink.copy(),
            field_mappings: fm,
            transforms: tr,
            schema: match &self.schema {
                Some(s) => Some(s.copy()),
                None => None,
            },
            rate_limits: self.rate_limits,
            flags: self.flags,
        }
    }
}

} // verus!
