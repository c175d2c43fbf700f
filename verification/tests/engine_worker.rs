use data_pipeline::batch::{Batch, Cell, DataKind, Field};
use data_pipeline::config::{ConnectorConfig, FeatureFlags, PipelineConfig, RateLimitConfig};
use data_pipeline::engine::{Engine, PipelineStatus};
use data_pipeline::error::PipelineError;
use data_pipeline::transform::{RowFilter, Transform, TransformChain};
use data_pipeline::types::WriteReceipt;
use data_pipeline::worker::{PipelineWorker, WorkerAction, WorkerEvent, WorkerPhase};
use std::time::Duration;

fn connector(kind: &str) -> ConnectorConfig {
    ConnectorConfig { connector_type: kind.to_string(), properties: Vec::new(), secrets: Vec::new() }
}

fn pipeline(id: &str, limits: RateLimitConfig) -> PipelineConfig {
    let mut flags = FeatureFlags::default();
    flags.batch_flush_interval_ms = 250;
    PipelineConfig {
        pipeline_id: id.to_string(),
        enabled: true,
        source: connector("stdin"),
        sink: connector("stdout"),
        field_mappings: Vec::new(),
        transforms: Vec::new(),
        schema: None,
        rate_limits: limits,
        flags,
    }
}

fn no_limits() -> RateLimitConfig {
    RateLimitConfig { max_source_tps: 0, max_sink_tps: 0, max_concurrent_connections: 1 }
}

fn flags_batch(values: &[Option<bool>]) -> Batch {
    Batch::try_new(
        vec![Field::new("ok", DataKind::Boolean, true)],
        vec![values.iter().map(|v| match v {
            Some(b) => Cell::Bool(*b),
            None => Cell::Null,
        })
        .collect()],
    )
    .ok()
    .unwrap()
}

fn done() -> WorkerEvent {
    WorkerEvent::Done(Ok(()))
}

fn failed(m: &str) -> PipelineError {
    PipelineError::Internal(m.to_string())
}

// ───────────── the engine ─────────────

#[test]
fn engine_registers_updates_and_stops_pipelines() {
    let mut e = Engine::new();
    assert!(e.list_pipelines().is_empty());
    let mut rx = e.spawn_pipeline(pipeline("a", no_limits()));
    e.spawn_pipeline(pipeline("b", no_limits()));
    let l = e.list_pipelines();
    assert_eq!(l.iter().map(|p| p.0.as_str()).collect::<Vec<_>>(), vec!["a", "b"]);
    assert!(l.iter().all(|p| matches!(p.1, PipelineStatus::Starting)));

    assert!(e.set_status("a", PipelineStatus::Running));
    assert!(!e.set_status("b", PipelineStatus::Failed("x".to_string())));
    assert!(e.set_status("b", PipelineStatus::Running));
    assert!(e.set_status("b", PipelineStatus::Failed("x".to_string())));
    assert!(!e.set_status("b", PipelineStatus::Running));
    assert!(!e.set_status("zz", PipelineStatus::Stopped));
    let l = e.list_pipelines();
    assert_eq!(l.len(), 2);
    assert!(matches!(l[0].1, PipelineStatus::Running));
    assert!(matches!(&l[1].1, PipelineStatus::Failed(m) if m == "x"));

    assert!(!*rx.borrow_and_update());
    assert!(e.stop_pipeline("a").is_ok());
    assert!(*rx.borrow_and_update());
    match e.stop_pipeline("nope") {
        Err(PipelineError::ConfigError { message }) => assert_eq!(message, "Pipeline 'nope' not found"),
        _ => panic!("expected a configuration error"),
    }
}

#[test]
fn spawning_an_existing_id_replaces_it() {
    let mut e = Engine::new();
    let old_rx = e.spawn_pipeline(pipeline("a", no_limits()));
    e.set_status("a", PipelineStatus::Running);
    let new_rx = e.spawn_pipeline(pipeline("a", no_limits()));
    let l = e.list_pipelines();
    assert_eq!(l.len(), 1);
    assert!(matches!(l[0].1, PipelineStatus::Starting));
    e.stop_pipeline("a").unwrap();
    assert!(*new_rx.borrow());
    // the old signal's sender is gone
    assert!(old_rx.has_changed().is_err());
}

// ───────────── the worker ─────────────

#[test]
fn worker_runs_a_batch_and_stops() {
    let (tx, rx) = tokio::sync::watch::channel(false);
    let chain = TransformChain::new(vec![Transform::RowFilter(RowFilter::new("ok".to_string()))]);
    let mut w = PipelineWorker::new(pipeline("p", no_limits()), chain, rx);
    assert!(!w.uses_rate_limiter());
    assert_eq!(w.config().pipeline_id, "p");
    assert_eq!(w.current_phase(), WorkerPhase::Start);

    assert!(matches!(w.step(WorkerEvent::Begin, w.stop_signalled()), WorkerAction::ConnectSource));
    assert!(matches!(w.step(done(), w.stop_signalled()), WorkerAction::ConnectSink));
    assert!(matches!(w.step(done(), w.stop_signalled()), WorkerAction::AwaitSourcePermit));
    assert!(matches!(w.step(WorkerEvent::Ready, w.stop_signalled()), WorkerAction::Poll));
    assert_eq!(w.current_phase(), WorkerPhase::Polling);

    let b = flags_batch(&[Some(true), Some(false), None, Some(true)]);
    assert!(matches!(w.step(WorkerEvent::Polled(Ok(b)), w.stop_signalled()), WorkerAction::AwaitSinkPermit));
    let written = match w.step(WorkerEvent::Ready, w.stop_signalled()) {
        WorkerAction::Write(t) => t,
        _ => panic!("expected a write"),
    };
    assert_eq!(written.num_rows(), 2);
    let receipt = WriteReceipt::new(2, 64, Duration::from_millis(1));
    match w.step(WorkerEvent::Written(Ok(receipt)), w.stop_signalled()) {
        WorkerAction::Acknowledge(c) => {
            assert_eq!(c.pipeline_id, "p");
            assert_eq!(c.offset, "batch_0");
        }
        _ => panic!("expected an acknowledgement"),
    }
    assert_eq!(w.counters(), (0, 0));
    assert!(matches!(w.step(done(), w.stop_signalled()), WorkerAction::AwaitSourcePermit));
    assert_eq!(w.counters(), (2, 1));

    // an empty batch backs off the flush interval, a failed poll one second
    assert!(matches!(w.step(WorkerEvent::Ready, w.stop_signalled()), WorkerAction::Poll));
    assert!(matches!(w.step(WorkerEvent::Polled(Ok(flags_batch(&[]))), w.stop_signalled()), WorkerAction::Sleep(250)));
    assert!(matches!(w.step(WorkerEvent::Ready, w.stop_signalled()), WorkerAction::AwaitSourcePermit));
    assert!(matches!(w.step(WorkerEvent::Ready, w.stop_signalled()), WorkerAction::Poll));
    assert!(matches!(w.step(WorkerEvent::Polled(Err(failed("poll"))), w.stop_signalled()), WorkerAction::Sleep(1000)));

    tx.send(true).unwrap();
    assert!(matches!(w.step(WorkerEvent::Ready, w.stop_signalled()), WorkerAction::Flush));
    assert!(matches!(w.step(done(), w.stop_signalled()), WorkerAction::DisconnectSink));
    assert!(matches!(w.step(done(), w.stop_signalled()), WorkerAction::DisconnectSource));
    assert!(matches!(w.step(done(), w.stop_signalled()), WorkerAction::Finish(Ok(()))));
    assert_eq!(w.current_phase(), WorkerPhase::Finished);
}

#[test]
fn worker_checkpoints_count_batches() {
    let (_tx, rx) = tokio::sync::watch::channel(false);
    let mut w = PipelineWorker::new(pipeline("q", no_limits()), TransformChain::empty(), rx);
    w.step(WorkerEvent::Begin, w.stop_signalled());
    w.step(done(), w.stop_signalled());
    w.step(done(), w.stop_signalled());
    for n in 0..3u64 {
        assert!(matches!(w.step(WorkerEvent::Ready, w.stop_signalled()), WorkerAction::Poll));
        w.step(WorkerEvent::Polled(Ok(flags_batch(&[Some(false)]))), w.stop_signalled());
        w.step(WorkerEvent::Ready, w.stop_signalled());
        match w.step(WorkerEvent::Written(Ok(WriteReceipt::new(1, 1, Duration::ZERO))), w.stop_signalled()) {
            WorkerAction::Acknowledge(c) => assert_eq!(c.offset, format!("batch_{}", n)),
            _ => panic!("expected an acknowledgement"),
        }
        w.step(done(), w.stop_signalled());
    }
    assert_eq!(w.counters(), (3, 3));
}

#[test]
fn worker_failures_end_the_run() {
    let (_tx, rx) = tokio::sync::watch::channel(false);
    let mut w = PipelineWorker::new(pipeline("f", no_limits()), TransformChain::empty(), rx);
    w.step(WorkerEvent::Begin, w.stop_signalled());
    match w.step(WorkerEvent::Done(Err(failed("no broker"))), w.stop_signalled()) {
        WorkerAction::Finish(Err(PipelineError::Internal(m))) => assert_eq!(m, "no broker"),
        _ => panic!("expected the connect failure"),
    }

    // a transform failure ends the run with that failure
    let (_tx, rx) = tokio::sync::watch::channel(false);
    let chain = TransformChain::new(vec![Transform::RowFilter(RowFilter::new("missing".to_string()))]);
    let mut w = PipelineWorker::new(pipeline("g", no_limits()), chain, rx);
    w.step(WorkerEvent::Begin, w.stop_signalled());
    w.step(done(), w.stop_signalled());
    w.step(done(), w.stop_signalled());
    w.step(WorkerEvent::Ready, w.stop_signalled());
    match w.step(WorkerEvent::Polled(Ok(flags_batch(&[Some(true)]))), w.stop_signalled()) {
        WorkerAction::Finish(Err(PipelineError::TransformFailed { transform, message })) => {
            assert_eq!(transform, "row_filter");
            assert_eq!(message, "Filter column 'missing' not found in schema");
        }
        _ => panic!("expected the transform failure"),
    }

    // a failed write ends the run
    let (_tx, rx) = tokio::sync::watch::channel(false);
    let mut w = PipelineWorker::new(pipeline("h", no_limits()), TransformChain::empty(), rx);
    w.step(WorkerEvent::Begin, w.stop_signalled());
    w.step(done(), w.stop_signalled());
    w.step(done(), w.stop_signalled());
    w.step(WorkerEvent::Ready, w.stop_signalled());
    w.step(WorkerEvent::Polled(Ok(flags_batch(&[Some(true)]))), w.stop_signalled());
    w.step(WorkerEvent::Ready, w.stop_signalled());
    assert!(matches!(
        w.step(WorkerEvent::Written(Err(failed("write"))), w.stop_signalled()),
        WorkerAction::Finish(Err(PipelineError::Internal(_)))
    ));
}

#[test]
fn worker_stops_right_after_connecting_when_asked() {
    let (tx, rx) = tokio::sync::watch::channel(false);
    let limits = RateLimitConfig { max_source_tps: 5, max_sink_tps: 0, max_concurrent_connections: 1 };
    let mut w = PipelineWorker::new(pipeline("s", limits), TransformChain::empty(), rx);
    assert!(w.uses_rate_limiter());
    w.step(WorkerEvent::Begin, w.stop_signalled());
    w.step(done(), w.stop_signalled());
    tx.send(true).unwrap();
    assert!(matches!(w.step(done(), w.stop_signalled()), WorkerAction::Flush));
    match w.step(WorkerEvent::Done(Err(failed("flush"))), w.stop_signalled()) {
        WorkerAction::Finish(Err(_)) => {}
        _ => panic!("expected the flush failure"),
    }
}
