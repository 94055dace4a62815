//! The aggregator: its data model and the client logic around its HTTP API.
pub mod models;
pub mod client;
