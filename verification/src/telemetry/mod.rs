//! The core of the telemetry pipeline: events, buffers, writers and recorders.

pub mod buffer;
pub mod codec;
pub mod collector;
pub mod cpu_profile;
pub mod event_list;
pub mod entry_sink;
pub mod events;
pub mod format;
pub mod metrique_serializer;
pub mod recorder;
pub mod rotating_writer;
pub mod rotation;
pub mod rotation_laws;
pub mod task_dump_config;
pub mod task_metadata;
pub mod writer;
