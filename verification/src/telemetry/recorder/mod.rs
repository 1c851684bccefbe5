//! Recording: interning, attribution and the paths from buffers to a writer.

pub mod builder;
pub mod cpu_flush_state;
pub mod event_writer;
pub mod flush_state;
pub mod install;
pub mod retrying_writer;
pub mod shared_state;
pub mod worker_thread;
