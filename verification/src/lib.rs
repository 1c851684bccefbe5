//! Runtime telemetry for Tokio applications.

pub mod background_task;
pub mod codegen;
pub mod config;
pub mod memory_profiling;
pub mod task_dumped;
pub mod telemetry;
pub mod telemetry_runtime;
pub mod text;
pub mod time;
pub mod traced;
pub mod worker;
