//! A second open-finance aggregator, reached with HTTP basic credentials.
pub mod models;
pub mod client;
