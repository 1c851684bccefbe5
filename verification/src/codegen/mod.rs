//! Code generation: the source text behind the derive for trace events and the
//! attribute for traced main functions.
//!
//! Both go from source text to source text. The text that is made here is turned
//! into tokens by whoever asks for it.

pub mod main_fn;
pub mod syntax;
pub mod trace_event;
