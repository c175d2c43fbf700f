//! The answers of the HTTP control plane: listing, inspecting, creating and
//! stopping pipelines, health, metrics and the connector schemas.
use vstd::prelude::*;
use crate::config::{
    ConnectorConfig, FeatureFlags, PipelineConfig, RateLimitConfig, TransformConfig,
};
use crate::connectors::factory::{
    create_sink, create_source, sink_buildable, sink_built_from, source_buildable, source_built_from,
    SinkConnector, SourceConnector,
};
use crate::engine::{raised_in, status_of, Engine, PipelineStatus, StatusView};
use crate::text::{chars_of, copy_string, push_str, str_eq, string_from_chars};
use crate::timestamp::{rfc3339_of, UtcTimestamp};

verus! {

/// The HTTP status of a refused request.
pub const BAD_REQUEST: u16 = 400;

/// The HTTP status for a missing pipeline.
pub const NOT_FOUND: u16 = 404;

/// API response wrapper.
pub struct ApiResponse<T> {
    pub success: bool,
    pub data: Option<T>,
    pub error: Option<String>,
}

impl<T> ApiResponse<T> {
    /// A successful response carrying `data`.
    pub fn success(data: T) -> (r: ApiResponse<T>)
        ensures
            r.success,
            r.data == Some(data),
            r.error is None,
    {
        ApiResponse { success: true, data: Some(data), error: None }
    }

    /// A failed response carrying `message`.
    pub fn error(message: String) -> (r: ApiResponse<T>)
        ensures
            !r.success,
            r.data is None,
            r.error == Some(message),
    {
        ApiResponse { success: false, data: None, error: Some(message) }
    }
}

/// The status of one pipeline as the API reports it.
pub struct PipelineStatusResponse {
    pub pipeline_id: String,
    pub status: String,
    pub uptime_seconds: Option<u64>,
    pub records_processed: Option<u64>,
    pub last_error: Option<String>,
}

/// Query parameters of the pipeline list.
pub struct ListPipelinesQuery {
    /// Only pipelines with this status label.
    pub status: Option<String>,
    /// At most this many (100 where not given).
    pub limit: Option<usize>,
    /// Skipping this many (0 where not given).
    pub offset: Option<usize>,
}

/// A request to create a pipeline.
pub struct CreatePipelineRequest {
    pub pipeline_id: String,
    pub source: ConnectorConfig,
    pub sink: ConnectorConfig,
    pub transforms: Vec<TransformConfig>,
    pub rate_limits: Option<RateLimitConfig>,
    pub flags: Option<FeatureFlags>,
}

// ───────────────────────────── statuses ─────────────────────────────

/// The label of a status: its lower-case name.
pub open spec fn label_of(s: StatusView) -> Seq<char> {
    match s {
        StatusView::Starting => "starting"@,
        StatusView::Running => "running"@,
        StatusView::Paused => "paused"@,
        StatusView::Stopped => "stopped"@,
        StatusView::Failed(_) => "failed"@,
    }
}

/// The text of a status: its label, with the message after "failed: ".
pub open spec fn text_of(s: StatusView) -> Seq<char> {
    match s {
        StatusView::Failed(m) => "failed: "@ + m,
        _ => label_of(s),
    }
}

/// The label of a status.
pub fn status_label(s: &PipelineStatus) -> (r: &'static str)
    ensures
        r@ == label_of(s@),
{
    match s {
        PipelineStatus::Starting => "starting",
        PipelineStatus::Running => "running",
        PipelineStatus::Paused => "paused",
        PipelineStatus::Stopped => "stopped",
        PipelineStatus::Failed(_) => "failed",
    }
}

/// Whether `r` reports pipeline `id` with status `s`.
pub open spec fn reports(r: PipelineStatusResponse, id: Seq<char>, s: StatusView) -> bool {
    &&& r.pipeline_id@ == id
    &&& r.status@ == text_of(s)
    &&& r.uptime_seconds is None
    &&& r.records_processed is None
    &&& match s {
        StatusView::Failed(m) => r.last_error matches Some(e) && e@ == m,
        _ => r.last_error is None,
    }
}

/// The report of pipeline `id` with status `s`.
pub fn status_response(id: &String, s: &PipelineStatus) -> (r: PipelineStatusResponse)
    ensures
        reports(r, id@, s@),
{
    let (status, last_error) = match s {
        PipelineStatus::Failed(m) => {
            let mut v = chars_of("failed: ");
            push_str(&mut v, m.as_str());
            (string_from_chars(&v), Some(copy_string(m)))
        },
        _ => (string_from_chars(&chars_of(status_label(s))), None),
    };
    PipelineStatusResponse {
        pipeline_id: copy_string(id),
        status,
        uptime_seconds: None,
        records_processed: None,
        last_error,
    }
}

/// The view of a list of (id, status) pairs.
pub open spec fn pairs_view(p: Seq<(String, PipelineStatus)>) -> Seq<(Seq<char>, StatusView)> {
    p.map_values(|e: (String, PipelineStatus)| (e.0@, e.1@))
}

// ───────────────────────────── listing ─────────────────────────────

/// Whether a status passes the query's status filter.
pub open spec fn passes(s: StatusView, filter: Option<String>) -> bool {
    match filter {
        Some(f) => label_of(s) == f@,
        None => true,
    }
}

/// The pipelines that pass the filter, in order.
pub open spec fn filtered(e: Seq<(Seq<char>, StatusView)>, filter: Option<String>) -> Seq<
    (Seq<char>, StatusView),
>
    decreases e.len(),
{
    if e.len() == 0 {
        Seq::empty()
    } else {
        let prev = filtered(e.drop_last(), filter);
        if passes(e.last().1, filter) {
            prev.push(e.last())
        } else {
            prev
        }
    }
}

/// The page of `e` that skips `offset` entries and keeps at most `limit`.
pub open spec fn page(e: Seq<(Seq<char>, StatusView)>, offset: nat, limit: nat) -> Seq<
    (Seq<char>, StatusView),
> {
    let start = if offset < e.len() {
        offset
    } else {
        e.len()
    };
    let end = if start + limit < e.len() {
        start + limit
    } else {
        e.len()
    };
    e.subrange(start as int, end as int)
}

/// The pipelines that a list query shows: those that pass the status
/// filter, then the page given by offset (default 0) and limit (default 100).
pub open spec fn listed(e: Seq<(Seq<char>, StatusView)>, q: ListPipelinesQuery) -> Seq<
    (Seq<char>, StatusView),
> {
    let offset: nat = match q.offset {
        Some(o) => o as nat,
        None => 0,
    };
    let limit: nat = match q.limit {
        Some(l) => l as nat,
        None => 100,
    };
    page(filtered(e, q.status), offset, limit)
}

/// Whether `v` reports the pipelines `e`, one by one.
pub open spec fn reports_all(v: Seq<PipelineStatusResponse>, e: Seq<(Seq<char>, StatusView)>) -> bool {
    v.len() == e.len() && forall|i: int| 0 <= i < v.len() ==> reports(#[trigger] v[i], e[i].0, e[i].1)
}

fn passes_exec(s: &PipelineStatus, filter: &Option<String>) -> (r: bool)
    ensures
        r == passes(s@, *filter),
{
    match filter {
        Some(f) => str_eq(status_label(s), f.as_str()),
        None => true,
    }
}

/// The answer to a list query (see `listed`).
pub fn list_pipelines(pipelines: &Vec<(String, PipelineStatus)>, query: &ListPipelinesQuery) -> (r:
    ApiResponse<Vec<PipelineStatusResponse>>)
    ensures
        r.success,
        r.error is None,
        r.data matches Some(v) && reports_all(v@, listed(pairs_view(pipelines@), *query)),
{
    let ghost e = pairs_view(pipelines@);
    let mut kept: Vec<usize> = Vec::new();
    let mut i: usize = 0;
    while i < pipelines.len()
        invariant
            i <= pipelines@.len(),
            e == pairs_view(pipelines@),
            kept@.len() == filtered(e.subrange(0, i as int), query.status).len(),
            forall|k: int|
                0 <= k < kept@.len() ==> (#[trigger] kept@[k]) < pipelines@.len() && e[kept@[k] as int]
                    == filtered(e.subrange(0, i as int), query.status)[k],
        decreases pipelines.len() - i,
    {
        let ghost cur = e.subrange(0, i + 1);
        assert(cur.drop_last() =~= e.subrange(0, i as int));
        assert(cur.last() == e[i as int]);
        if passes_exec(&pipelines[i].1, &query.status) {
            kept.push(i);
        }
        i = i + 1;
    }
    assert(e.subrange(0, pipelines@.len() as int) =~= e);
    let ghost f = filtered(e, query.status);
    let offset: usize = match query.offset {
        Some(o) => o,
        None => 0,
    };
    let limit: usize = match query.limit {
        Some(l) => l,
        None => 100,
    };
    let n = kept.len();
    let start = if offset < n {
        offset
    } else {
        n
    };
    let end = if limit < n - start {
        start + limit
    } else {
        n
    };
    let ghost pg = listed(e, *query);
    assert(pg =~= f.subrange(start as int, end as int));
    let mut out: Vec<PipelineStatusResponse> = Vec::new();
    let mut j = start;
    while j < end
        invariant
            start <= j <= end,
            end <= kept@.len(),
            kept@.len() == f.len(),
            e == pairs_view(pipelines@),
            forall|k: int|
                0 <= k < kept@.len() ==> (#[trigger] kept@[k]) < pipelines@.len() && e[kept@[k] as int]
                    == f[k],
            out@.len() == j - start,
            forall|k: int|
                0 <= k < out@.len() ==> reports(#[trigger] out@[k], f[start + k].0, f[start + k].1),
        decreases end - j,
    {
        let idx = kept[j];
        assert(e[idx as int] == (pipelines@[idx as int].0@, pipelines@[idx as int].1@));
        out.push(status_response(&pipelines[idx].0, &pipelines[idx].1));
        j = j + 1;
    }
    ApiResponse::success(out)
}

/// The answer about pipeline `id`: the report of the first pipeline with that
/// id, or an error saying it is not found.
pub fn get_pipeline(pipelines: &Vec<(String, PipelineStatus)>, pipeline_id: &str) -> (r: ApiResponse<
    PipelineStatusResponse,
>)
    ensures
        (exists|i: int| 0 <= i < pipelines@.len() && (#[trigger] pipelines@[i]).0@ == pipeline_id@)
            ==> (r.success && (r.data matches Some(d) && exists|i: int|
            0 <= i < pipelines@.len() && (#[trigger] pipelines@[i]).0@ == pipeline_id@ && reports(
                d,
                pipeline_id@,
                pipelines@[i].1@,
            ))),
        !(exists|i: int| 0 <= i < pipelines@.len() && (#[trigger] pipelines@[i]).0@ == pipeline_id@)
            ==> (!r.success && r.data is None && (r.error matches Some(m) && m@ == "Pipeline '"@
            + pipeline_id@ + "' not found"@)),
{
    let mut i: usize = 0;
    while i < pipelines.len()
        invariant
            i <= pipelines@.len(),
            forall|k: int| 0 <= k < i ==> (#[trigger] pipelines@[k]).0@ != pipeline_id@,
        decreases pipelines.len() - i,
    {
        if str_eq(pipelines[i].0.as_str(), pipeline_id) {
            let resp = status_response(&pipelines[i].0, &pipelines[i].1);
            assert(pipelines@[i as int].0@ == pipeline_id@);
            return ApiResponse::success(resp);
        }
        i = i + 1;
    }
    let mut m = chars_of("Pipeline '");
    push_str(&mut m, pipeline_id);
    push_str(&mut m, "' not found");
    ApiResponse::error(string_from_chars(&m))
}

// ───────────────────────────── creating and stopping ─────────────────────────────

/// What a new pipeline needs to run: its configuration, its connectors and
/// the receiving half of its stop signal.
pub struct PipelineLaunch {
    pub config: PipelineConfig,
    pub source: SourceConnector,
    pub sink: SinkConnector,
    pub cancel_rx: tokio::sync::watch::Receiver<bool>,
}

/// The outcome of a create request that was not refused.
pub enum CreateOutcome {
    /// A pipeline with the id exists; nothing was created.
    AlreadyExists(ApiResponse<PipelineStatusResponse>),
    /// The pipeline was registered as starting.
    Launched(ApiResponse<PipelineStatusResponse>, PipelineLaunch),
}

/// The configuration that a create request describes: enabled, without field
/// mappings or schema settings, with default rate limits and flags where the
/// request gives none.
pub open spec fn config_matches_request(c: PipelineConfig, r: CreatePipelineRequest) -> bool {
    &&& c.pipeline_id@ == r.pipeline_id@
    &&& c.enabled
    &&& c.source == r.source
    &&& c.sink == r.sink
    &&& c.field_mappings@.len() == 0
    &&& c.transforms == r.transforms
    &&& c.schema is None
    &&& c.rate_limits == match r.rate_limits {
        Some(l) => l,
        None => RateLimitConfig { max_source_tps: 10_000, max_sink_tps: 5_000, max_concurrent_connections: 10 },
    }
    &&& c.flags == match r.flags {
        Some(f) => f,
        None => FeatureFlags {
            enable_dlq: true,
            enable_schema_validation: false,
            require_tls: true,
            max_memory_buffer_mb: 512,
            batch_flush_interval_ms: 5000,
            enable_lineage: true,
            concurrency_limit: 64,
        },
    }
}

/// Handles a create request. Where a pipeline with the id exists, answers
/// with an error and leaves the engine as it is; where the source or the
/// sink cannot be created, refuses with `BAD_REQUEST`; otherwise registers
/// the pipeline as starting and answers that it is starting.
pub fn create_pipeline(engine: &mut Engine, request: CreatePipelineRequest) -> (r: Result<
    CreateOutcome,
    u16,
>)
    ensures
        status_of(old(engine).entries(), request.pipeline_id@) is Some ==> (r matches Ok(
            CreateOutcome::AlreadyExists(resp),
        ) && !resp.success && (resp.error matches Some(m) && m@ == "Pipeline with ID '"@
            + request.pipeline_id@ + "' already exists"@) && final(engine).entries() == old(
            engine,
        ).entries()),
        r matches Err(code) ==> code == BAD_REQUEST && final(engine).entries() == old(
            engine,
        ).entries(),
        r matches Ok(CreateOutcome::Launched(resp, launch)) ==> {
            &&& status_of(old(engine).entries(), request.pipeline_id@) is None
            &&& resp.success
            &&& resp.data matches Some(d) && reports(d, request.pipeline_id@, StatusView::Starting)
            &&& config_matches_request(launch.config, request)
            &&& final(engine).entries() == old(engine).entries().push(
                (request.pipeline_id@, StatusView::Starting),
            )
        },
        status_of(old(engine).entries(), request.pipeline_id@) is None ==> (r is Err || r matches Ok(
            CreateOutcome::Launched(_, _),
        )),
        status_of(old(engine).entries(), request.pipeline_id@) is None ==> (r is Err <==> !(
        source_buildable(request.source) && sink_buildable(request.sink))),
        r matches Ok(CreateOutcome::Launched(_, launch)) ==> source_built_from(launch.source, request.source)
            && sink_built_from(launch.sink, request.sink) && !raised_in(
            final(engine).signals(),
            request.pipeline_id@,
        ),
{
    let existing = engine.list_pipelines();
    let mut i: usize = 0;
    while i < existing.len()
        invariant
            i <= existing@.len(),
            existing@.len() == engine.entries().len(),
            forall|k: int|
                0 <= k < existing@.len() ==> (#[trigger] existing@[k]).0@ == engine.entries()[k].0,
            forall|k: int| 0 <= k < i ==> (#[trigger] engine.entries()[k]).0 != request.pipeline_id@,
        decreases existing.len() - i,
    {
        if str_eq(existing[i].0.as_str(), request.pipeline_id.as_str()) {
            assert(engine.entries()[i as int].0 == request.pipeline_id@);
            let mut m = chars_of("Pipeline with ID '");
            push_str(&mut m, request.pipeline_id.as_str());
            push_str(&mut m, "' already exists");
            return Ok(CreateOutcome::AlreadyExists(ApiResponse::error(string_from_chars(&m))));
        }
        i = i + 1;
    }
    assert(status_of(engine.entries(), request.pipeline_id@) is None);
    let CreatePipelineRequest { pipeline_id, source, sink, transforms, rate_limits, flags } = request;
    let id_for_response = copy_string(&pipeline_id);
    let config = PipelineConfig {
        pipeline_id,
        enabled: true,
        source,
        sink,
        field_mappings: Vec::new(),
        transforms,
        schema: None,
        rate_limits: match rate_limits {
            Some(l) => l,
            None => RateLimitConfig::default(),
        },
        flags: match flags {
            Some(f) => f,
            None => FeatureFlags::default(),
        },
    };
    let source = match create_source(&config.source) {
        Ok(s) => s,
        Err(_) => return Err(BAD_REQUEST),
    };
    let sink = match create_sink(&config.sink) {
        Ok(s) => s,
        Err(_) => return Err(BAD_REQUEST),
    };
    let cancel_rx = engine.spawn_pipeline(config.copy());
    let resp = PipelineStatusResponse {
        pipeline_id: id_for_response,
        status: string_from_chars(&chars_of("starting")),
        uptime_seconds: None,
        records_processed: None,
        last_error: None,
    };
    Ok(CreateOutcome::Launched(ApiResponse::success(resp), PipelineLaunch { config, source, sink, cancel_rx }))
}

/// Handles a stop request: raises the pipeline's stop signal and answers
/// that it stopped; refuses with `NOT_FOUND` where it is not registered.
pub fn stop_pipeline(engine: &mut Engine, pipeline_id: &str) -> (r: Result<ApiResponse<String>, u16>)
    ensures
        status_of(old(engine).entries(), pipeline_id@) is None ==> r == Err::<ApiResponse<String>, u16>(
            NOT_FOUND,
        ) && final(engine).signals() == old(engine).signals(),
        status_of(old(engine).entries(), pipeline_id@) is Some ==> (r matches Ok(resp) && resp.success
            && (resp.data matches Some(m) && m@ == "Pipeline '"@ + pipeline_id@ + "' stopped"@)
            && resp.error is None && raised_in(final(engine).signals(), pipeline_id@)),
        forall|id: Seq<char>|
            id != pipeline_id@ ==> #[trigger] raised_in(final(engine).signals(), id) == raised_in(
                old(engine).signals(),
                id,
            ),
        final(engine).entries() == old(engine).entries(),
{
    match engine.stop_pipeline(pipeline_id) {
        Ok(()) => {
            let mut m = chars_of("Pipeline '");
            push_str(&mut m, pipeline_id);
            push_str(&mut m, "' stopped");
            Ok(ApiResponse::success(string_from_chars(&m)))
        },
        Err(_) => Err(NOT_FOUND),
    }
}

// ───────────────────────────── health, metrics, schemas ─────────────────────────────

/// The health report: status "healthy", the current time in RFC 3339, and
/// the version "0.1.0".
pub fn health_check() -> (r: ApiResponse<Vec<(String, String)>>)
    ensures
        r.success,
        r.error is None,
        r.data matches Some(d) && d@.len() == 3 && d@[0].0@ == "status"@ && d@[0].1@ == "healthy"@
            && d@[1].0@ == "timestamp"@ && (exists|s: i64, n: u32| d@[1].1@ == rfc3339_of(s, n))
            && d@[2].0@ == "version"@ && d@[2].1@ == "0.1.0"@,
{
    let now = UtcTimestamp::now();
    let ts = now.to_rfc3339();
    let mut d: Vec<(String, String)> = Vec::new();
    d.push((string_from_chars(&chars_of("status")), string_from_chars(&chars_of("healthy"))));
    d.push((string_from_chars(&chars_of("timestamp")), ts));
    d.push((string_from_chars(&chars_of("version")), string_from_chars(&chars_of("0.1.0"))));
    ApiResponse::success(d)
}

/// The number of pipelines whose status has label `l`.
pub open spec fn count_label(e: Seq<(Seq<char>, StatusView)>, l: Seq<char>) -> nat
    decreases e.len(),
{
    if e.len() == 0 {
        0
    } else {
        count_label(e.drop_last(), l) + if label_of(e.last().1) == l {
            1nat
        } else {
            0nat
        }
    }
}

/// The status labels in ascending order.
pub open spec fn all_labels() -> Seq<Seq<char>> {
    seq!["failed"@, "paused"@, "running"@, "starting"@, "stopped"@]
}

/// The labels of `ls` that occur in `e`, in order, each with its count.
pub open spec fn counts_of(ls: Seq<Seq<char>>, e: Seq<(Seq<char>, StatusView)>) -> Seq<
    (Seq<char>, nat),
>
    decreases ls.len(),
{
    if ls.len() == 0 {
        Seq::empty()
    } else {
        let prev = counts_of(ls.drop_last(), e);
        if count_label(e, ls.last()) > 0 {
            prev.push((ls.last(), count_label(e, ls.last())))
        } else {
            prev
        }
    }
}

/// The labels that occur, in ascending order, each with its count.
pub open spec fn label_counts(e: Seq<(Seq<char>, StatusView)>) -> Seq<(Seq<char>, nat)> {
    counts_of(all_labels(), e)
}

/// Pipeline counts.
pub struct Metrics {
    pub total_pipelines: usize,
    /// For each status label that occurs, in ascending order, its count.
    pub status_counts: Vec<(String, usize)>,
    /// When the metrics were taken, in RFC 3339.
    pub timestamp: String,
}

fn count_label_exec(pipelines: &Vec<(String, PipelineStatus)>, l: &str) -> (r: usize)
    ensures
        r == count_label(pairs_view(pipelines@), l@),
{
    let ghost e = pairs_view(pipelines@);
    let mut n: usize = 0;
    let mut i: usize = 0;
    while i < pipelines.len()
        invariant
            i <= pipelines@.len(),
            e == pairs_view(pipelines@),
            n == count_label(e.subrange(0, i as int), l@),
            n <= i,
        decreases pipelines.len() - i,
    {
        let ghost cur = e.subrange(0, i + 1);
        assert(cur.drop_last() =~= e.subrange(0, i as int));
        assert(cur.last() == e[i as int]);
        if str_eq(status_label(&pipelines[i].1), l) {
            n = n + 1;
        }
        i = i + 1;
    }
    assert(e.subrange(0, pipelines@.len() as int) =~= e);
    n
}

/// The counts of the pipelines by status (see `label_counts`).
pub fn metrics(pipelines: &Vec<(String, PipelineStatus)>) -> (r: ApiResponse<Metrics>)
    ensures
        r.success,
        r.error is None,
        r.data matches Some(m) && m.total_pipelines == pipelines@.len() && m.status_counts@.map_values(
            |c: (String, usize)| (c.0@, c.1 as nat),
        ) == label_counts(pairs_view(pipelines@)) && (exists|s: i64, n: u32|
            m.timestamp@ == rfc3339_of(s, n)),
{
    let ghost e = pairs_view(pipelines@);
    let labels: [&str; 5] = ["failed", "paused", "running", "starting", "stopped"];
    let ghost lv = all_labels();
    let mut counts: Vec<(String, usize)> = Vec::new();
    let mut k: usize = 0;
    while k < 5
        invariant
            k <= 5,
            e == pairs_view(pipelines@),
            lv == all_labels(),
            forall|j: int| 0 <= j < 5 ==> (#[trigger] labels@[j])@ == lv[j],
            counts@.map_values(|c: (String, usize)| (c.0@, c.1 as nat)) == counts_of(
                lv.subrange(0, k as int),
                e,
            ),
        decreases 5 - k,
    {
        let c = count_label_exec(pipelines, labels[k]);
        let ghost before = counts@.map_values(|c: (String, usize)| (c.0@, c.1 as nat));
        let ghost sub = lv.subrange(0, k + 1);
        assert(sub.drop_last() =~= lv.subrange(0, k as int));
        if c > 0 {
            counts.push((string_from_chars(&chars_of(labels[k])), c));
            assert(counts@.map_values(|c: (String, usize)| (c.0@, c.1 as nat)) =~= before.push(
                (lv[k as int], c as nat),
            ));
        }
        k = k + 1;
    }
    assert(lv.subrange(0, 5) =~= lv);
    let now = UtcTimestamp::now();
    ApiResponse::success(
        Metrics { total_pipelines: pipelines.len(), status_counts: counts, timestamp: now.to_rfc3339() },
    )
}

/// The source connector types the schema lists.
pub open spec fn source_types() -> Seq<Seq<char>> {
    seq![
        "stdin"@, "kafka"@, "kinesis"@, "pulsar"@, "nats"@, "sqs"@, "postgres_cdc"@,
        "mysql_cdc"@, "mongodb_cdc"@, "salesforce"@, "hubspot"@,
    ]
}

/// The sink connector types the schema lists.
pub open spec fn sink_types() -> Seq<Seq<char>> {
    seq![
        "stdout"@, "postgres"@, "mysql"@, "mongodb"@, "redis"@, "elasticsearch"@, "snowflake"@,
        "bigquery"@, "databricks"@, "delta_lake"@, "iceberg"@, "s3"@, "gcs"@,
    ]
}

fn strings_of(items: &[&str]) -> (r: Vec<String>)
    ensures
        r@.len() == items@.len(),
        forall|i: int| 0 <= i < items@.len() ==> (#[trigger] r@[i])@ == items@[i]@,
{
    let mut r: Vec<String> = Vec::new();
    let mut i: usize = 0;
    while i < items.len()
        invariant
            i <= items@.len(),
            r@.len() == i,
            forall|k: int| 0 <= k < i ==> (#[trigger] r@[k])@ == items@[k]@,
        decreases items.len() - i,
    {
        r.push(string_from_chars(&chars_of(items[i])));
        i = i + 1;
    }
    r
}

/// The source connector types of the configuration schema.
pub fn source_connector_types() -> (r: Vec<String>)
    ensures
        r@.map_values(|s: String| s@) == source_types(),
{
    let items: [&str; 11] = [
        "stdin",
        "kafka",
        "kinesis",
        "pulsar",
        "nats",
        "sqs",
        "postgres_cdc",
        "mysql_cdc",
        "mongodb_cdc",
        "salesforce",
        "hubspot",
    ];
    let r = strings_of(&items);
    assert(r@.map_values(|s: String| s@) =~= source_types());
    r
}

/// The sink connector types of the configuration schema.
pub fn sink_connector_types() -> (r: Vec<String>)
    ensures
        r@.map_values(|s: String| s@) == sink_types(),
{
    let items: [&str; 13] = [
        "stdout",
        "postgres",
        "mysql",
        "mongodb",
        "redis",
        "elasticsearch",
        "snowflake",
        "bigquery",
        "databricks",
        "delta_lake",
        "iceberg",
        "s3",
        "gcs",
    ];
    let r = strings_of(&items);
    assert(r@.map_values(|s: String| s@) =~= sink_types());
    r
}

} // verus!
