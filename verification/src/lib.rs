//! Dashboard query and mapping core for a Factorio telemetry backend.

pub mod range;
pub mod sort;
pub mod text;
pub mod query;
pub mod number;
pub mod json;
pub mod response;
pub mod error;
pub mod client;
pub mod models;
pub mod mapping;
pub mod builders;
pub mod config;
pub mod routes;
