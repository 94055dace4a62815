//! Synchronisation engine that keeps a local record of bank accounts, transactions and
//! balances in step with an open-finance aggregator.
//!
//! - `pluggy` / `belvo`: the aggregators' data model, credential caches, request URLs and
//!   response checks.
//! - `dates`, `money`: the calendar dates and fixed-point amounts that rows hold.
//! - `table`, `store`: the persistence gateway, an in-memory store of four tables keyed by
//!   external id, whose every write is one upsert or delete.
//! - `sync`: the plan of one item's sync and its application to the store.
//! - `webhooks`: routing of push notifications and the writes they lead to.
//! - `scheduler`: the periodic reconciliation pass over every stored item.
//! - `convergence`: laws of whole runs of writes: a sync repeated changes nothing, and
//!   interleaved syncs converge to the last write of each row.
pub mod money;
pub mod dates;
pub mod table;
pub mod store;
pub mod pluggy;
pub mod sync;
pub mod webhooks;
pub mod scheduler;
pub mod config;
pub mod belvo;
pub mod models;
pub mod requests;
pub mod convergence;
