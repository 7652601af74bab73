//! Verified core of an event-sourcing library: projection pipelines,
//! resilience, metrics, health monitoring, tracing contexts and typed
//! resource lifecycles.

pub mod assoc;
pub mod named;
pub mod metrics;
pub mod bridge;
pub mod pipeline;
pub mod clock;
pub mod resilience;
pub mod text;
pub mod types;
pub mod errors;
pub mod store;
pub mod metadata;
pub mod health;
pub mod logging;
pub mod tracing;
pub mod resource;
pub mod compatibility;
pub mod runner;
pub mod manager;
pub mod subscription;
pub mod format;
pub mod evolution;
pub mod reconstruction;
pub mod protocol;
pub mod exporters;
pub mod json;
pub mod typestate;
pub mod subscription_adapter;
pub mod migrations;
pub mod schema_migration;
