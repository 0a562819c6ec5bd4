//! Core logic of a directory-backup daemon: schedule arithmetic, snapshot
//! naming, durable job-state documents, configuration diffing and the
//! decisions behind validation, retention and hot reload.
pub mod backup;
pub mod changes;
pub mod clock;
pub mod config;
pub mod daemon;
pub mod engine;
pub mod executor;
pub mod manager;
pub mod observability;
pub mod platform;
pub mod recovery;
pub mod scheduler;
pub mod state;
pub mod text;
pub mod validation;
pub mod watcher;
