//! A data pipeline engine: configuration, connectors, transforms, a dead
//! letter queue, checkpoints, rate limits and the orchestration of workers.
pub mod batch;
pub mod checkpoint;
pub mod config;
pub mod connectors;
pub mod control_plane;
pub mod dlq;
pub mod engine;
pub mod laws;
pub mod error;
pub mod loader;
pub mod payload;
pub mod secrets;
pub mod text;
pub mod timestamp;
pub mod transform;
pub mod types;
pub mod rate_limit;
pub mod worker;
