//! Verified core of a folder-sync client: heuristic file classification,
//! bounded directory scanning, debounced change detection, and the
//! upload-and-ingest state machine with its retry policy, permit pool,
//! progress poller and bounded activity log.

pub mod config;
pub mod pipeline;
pub mod query;
pub mod scanner;
pub mod storage;
pub mod text;
pub mod uploader;
pub mod watcher;
