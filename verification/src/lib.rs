//! A verified single-process real-time messaging core: a registry of live
//! connections with bounded per-connection outbound queues, room membership
//! with fan-out delivery, a per-connection session state machine, and the
//! pure routing rules that turn an inbound envelope into deliveries.

pub mod auth;
pub mod config;
pub mod envelope;
pub mod error;
pub mod language;
pub mod laws;
pub mod manager;
pub mod models;
pub mod queue;
pub mod router;
pub mod session;
