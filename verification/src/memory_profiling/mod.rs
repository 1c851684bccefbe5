//! Memory profiling — sampled allocation tracking via ring buffers.
//!
//! 1. The allocating thread pushes a fixed-size record into one of two bounded
//!    queues.
//! 2. The flush thread drains both queues every flush cycle and emits alloc and
//!    free events.
//!
//! Allocs and frees have very different rates and record sizes, so each has a
//! queue of its own, sized independently.

pub mod ring;
pub mod source;
