//! The in-process worker that uploads sealed trace segments.

pub mod backoff;
pub mod calendar;
pub mod config;
pub mod connection;
pub mod identity;
pub mod s3;
pub mod sealed;
pub mod trace_path;
pub mod worker_loop;

pub use config::WorkerConfig;
