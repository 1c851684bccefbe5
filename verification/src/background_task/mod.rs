//! The background task that ships sealed segments to S3.

pub mod config;
pub mod connection;
pub mod instance_metadata;
pub mod pipeline;
pub mod uploader;
pub mod worker_loop;

pub use config::BackgroundTaskConfig;
