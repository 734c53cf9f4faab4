//! Persistent state of a long-lived service: a keyed dataset held in one of two
//! storage representations, with a resumable, bounded-step migration between them.
pub mod accounts_db;
pub mod blob;
pub mod codec;
pub mod governance_api;
pub mod map_db;
pub mod partitions;
pub mod perf;
pub mod perf_codec;
pub mod schema;
pub mod sns_wasm_api;
pub mod state;
pub mod stats;
