//! Source and sink connectors and the factories that create them.
pub mod factory;
pub mod kafka;
pub mod postgres;
pub mod settings;
pub mod simple;
