use data_pipeline::config::{ConnectorConfig, RateLimitConfig};
use data_pipeline::control_plane::{
    create_pipeline, get_pipeline, health_check, list_pipelines, metrics, sink_connector_types,
    source_connector_types, status_label, status_response, stop_pipeline, ApiResponse,
    CreateOutcome, CreatePipelineRequest, ListPipelinesQuery, BAD_REQUEST, NOT_FOUND,
};
use data_pipeline::engine::{Engine, PipelineStatus};

fn connector(kind: &str, props: &[(&str, &str)]) -> ConnectorConfig {
    ConnectorConfig {
        connector_type: kind.to_string(),
        properties: props.iter().map(|(k, v)| (k.to_string(), v.to_string())).collect(),
        secrets: Vec::new(),
    }
}

fn request(id: &str, source: &str, sink: &str) -> CreatePipelineRequest {
    CreatePipelineRequest {
        pipeline_id: id.to_string(),
        source: connector(source, &[]),
        sink: connector(sink, &[]),
        transforms: Vec::new(),
        rate_limits: None,
        flags: None,
    }
}

fn sample() -> Vec<(String, PipelineStatus)> {
    vec![
        ("a".to_string(), PipelineStatus::Running),
        ("b".to_string(), PipelineStatus::Stopped),
        ("c".to_string(), PipelineStatus::Running),
        ("d".to_string(), PipelineStatus::Failed("boom".to_string())),
        ("e".to_string(), PipelineStatus::Starting),
    ]
}

#[test]
fn test_health_check() {
    let api_response = health_check();

    assert!(api_response.success);
    assert!(api_response.data.is_some());
    assert!(api_response.error.is_none());

    let health_data = api_response.data.unwrap();
    let status = health_data.iter().find(|(k, _)| k == "status").map(|(_, v)| v.clone());
    assert_eq!(status.unwrap(), "healthy");
}

#[test]
fn test_api_response_creation() {
    let success_response = ApiResponse::success("test data");
    assert!(success_response.success);
    assert!(success_response.data.is_some());
    assert!(success_response.error.is_none());

    let error_response = ApiResponse::<String>::error("test error".to_string());
    assert!(!error_response.success);
    assert!(error_response.data.is_none());
    assert!(error_response.error.is_some());
}

#[test]
fn health_report_has_version_and_timestamp() {
    let d = health_check().data.unwrap();
    assert_eq!(d.len(), 3);
    assert_eq!(d[1].0, "timestamp");
    assert!(d[1].1.contains('T'));
    assert_eq!(d[2], ("version".to_string(), "0.1.0".to_string()));
}

#[test]
fn status_labels_and_reports() {
    assert_eq!(status_label(&PipelineStatus::Paused), "paused");
    let r = status_response(&"x".to_string(), &PipelineStatus::Failed("disk full".to_string()));
    assert_eq!(r.pipeline_id, "x");
    assert_eq!(r.status, "failed: disk full");
    assert_eq!(r.last_error.as_deref(), Some("disk full"));
    assert!(r.uptime_seconds.is_none());
    let r = status_response(&"y".to_string(), &PipelineStatus::Running);
    assert_eq!(r.status, "running");
    assert!(r.last_error.is_none());
}

#[test]
fn listing_filters_by_status_and_pages() {
    let p = sample();
    let all = list_pipelines(&p, &ListPipelinesQuery { status: None, limit: None, offset: None });
    assert!(all.success);
    let v = all.data.unwrap();
    assert_eq!(v.iter().map(|r| r.pipeline_id.as_str()).collect::<Vec<_>>(), vec!["a", "b", "c", "d", "e"]);

    let running = list_pipelines(
        &p,
        &ListPipelinesQuery { status: Some("running".to_string()), limit: None, offset: None },
    )
    .data
    .unwrap();
    assert_eq!(running.iter().map(|r| r.pipeline_id.as_str()).collect::<Vec<_>>(), vec!["a", "c"]);

    let page = list_pipelines(&p, &ListPipelinesQuery { status: None, limit: Some(2), offset: Some(1) })
        .data
        .unwrap();
    assert_eq!(page.iter().map(|r| r.pipeline_id.as_str()).collect::<Vec<_>>(), vec!["b", "c"]);

    let past_end = list_pipelines(&p, &ListPipelinesQuery { status: None, limit: Some(3), offset: Some(9) })
        .data
        .unwrap();
    assert!(past_end.is_empty());

    let failed = list_pipelines(
        &p,
        &ListPipelinesQuery { status: Some("failed".to_string()), limit: None, offset: None },
    )
    .data
    .unwrap();
    assert_eq!(failed.len(), 1);
    assert_eq!(failed[0].status, "failed: boom");
}

#[test]
fn listing_shows_at_most_one_hundred_by_default() {
    let p: Vec<(String, PipelineStatus)> =
        (0..150).map(|i| (format!("p{}", i), PipelineStatus::Running)).collect();
    let v = list_pipelines(&p, &ListPipelinesQuery { status: None, limit: None, offset: None })
        .data
        .unwrap();
    assert_eq!(v.len(), 100);
    assert_eq!(v[99].pipeline_id, "p99");
}

#[test]
fn getting_a_pipeline() {
    let p = sample();
    let found = get_pipeline(&p, "d");
    assert!(found.success);
    let d = found.data.unwrap();
    assert_eq!(d.status, "failed: boom");
    let missing = get_pipeline(&p, "zz");
    assert!(!missing.success);
    assert!(missing.data.is_none());
    assert_eq!(missing.error.unwrap(), "Pipeline 'zz' not found");
}

#[test]
fn metrics_count_each_status() {
    let m = metrics(&sample()).data.unwrap();
    assert_eq!(m.total_pipelines, 5);
    assert_eq!(
        m.status_counts,
        vec![
            ("failed".to_string(), 1),
            ("running".to_string(), 2),
            ("starting".to_string(), 1),
            ("stopped".to_string(), 1),
        ]
    );
    let empty = metrics(&Vec::new()).data.unwrap();
    assert_eq!(empty.total_pipelines, 0);
    assert!(empty.status_counts.is_empty());
}

#[test]
fn connector_type_lists() {
    let s = source_connector_types();
    assert_eq!(s.len(), 11);
    assert_eq!(s[0], "stdin");
    assert_eq!(s[10], "hubspot");
    let k = sink_connector_types();
    assert_eq!(k.len(), 13);
    assert_eq!(k[1], "postgres");
    assert_eq!(k[12], "gcs");
}

#[test]
fn creating_and_stopping_pipelines() {
    let mut engine = Engine::new();
    match create_pipeline(&mut engine, request("p1", "stdin", "stdout")) {
        Ok(CreateOutcome::Launched(resp, launch)) => {
            assert!(resp.success);
            let d = resp.data.unwrap();
            assert_eq!(d.pipeline_id, "p1");
            assert_eq!(d.status, "starting");
            assert_eq!(launch.config.pipeline_id, "p1");
            assert!(launch.config.enabled);
            assert_eq!(launch.config.rate_limits.max_source_tps, 10_000);
            assert_eq!(launch.config.flags.batch_flush_interval_ms, 5000);
        }
        _ => panic!("expected a launch"),
    }
    let listed = engine.list_pipelines();
    assert_eq!(listed.len(), 1);
    assert_eq!(listed[0].0, "p1");
    assert!(matches!(listed[0].1, PipelineStatus::Starting));

    match create_pipeline(&mut engine, request("p1", "stdin", "stdout")) {
        Ok(CreateOutcome::AlreadyExists(resp)) => {
            assert!(!resp.success);
            assert_eq!(resp.error.unwrap(), "Pipeline with ID 'p1' already exists");
        }
        _ => panic!("expected a refusal"),
    }
    assert_eq!(engine.list_pipelines().len(), 1);

    let stopped = stop_pipeline(&mut engine, "p1").ok().unwrap();
    assert!(stopped.success);
    assert_eq!(stopped.data.unwrap(), "Pipeline 'p1' stopped");
    assert_eq!(stop_pipeline(&mut engine, "nope").err(), Some(NOT_FOUND));
}

#[test]
fn creating_with_unknown_connectors_is_a_bad_request() {
    let mut engine = Engine::new();
    assert_eq!(create_pipeline(&mut engine, request("p", "carrier_pigeon", "stdout")).err(), Some(BAD_REQUEST));
    assert_eq!(create_pipeline(&mut engine, request("p", "stdin", "tape")).err(), Some(BAD_REQUEST));
    // a kafka source without its settings cannot be built
    assert_eq!(create_pipeline(&mut engine, request("p", "kafka", "stdout")).err(), Some(BAD_REQUEST));
    assert!(engine.list_pipelines().is_empty());
}

#[test]
fn creating_keeps_given_rate_limits() {
    let mut engine = Engine::new();
    let mut r = request("q", "stdin", "stdout");
    r.rate_limits = Some(RateLimitConfig { max_source_tps: 3, max_sink_tps: 4, max_concurrent_connections: 5 });
    match create_pipeline(&mut engine, r) {
        Ok(CreateOutcome::Launched(_, launch)) => {
            assert_eq!(launch.config.rate_limits.max_source_tps, 3);
            assert_eq!(launch.config.rate_limits.max_sink_tps, 4);
            assert!(launch.config.field_mappings.is_empty());
            assert!(launch.config.schema.is_none());
        }
        _ => panic!("expected a launch"),
    }
}
