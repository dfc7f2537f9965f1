//! Runtime health-check registry: a table of named services whose liveness is
//! refreshed by recurring probes, with individual and aggregate health views,
//! and the RPC surface, settings and bootstrap helpers around it.

pub mod config;
pub mod db;
pub mod error;
pub mod grpc;
pub mod health;
pub mod ids;
pub mod logging;
pub mod text;
