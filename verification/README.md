# dial9_tokio_telemetry

Lightweight runtime telemetry for tokio, with its logic verified by Verus: what
the runtime hooks record, how recorded events are buffered, interned and written
into self-contained trace segments, when segments rotate and are evicted, and how
sealed segments are compressed and uploaded.

## Layout

- `src/` is the verified library. It decides; it does no I/O.
  - `telemetry/` holds events, their records and codecs, buffers, the collector,
    the rotating writer and its laws, and the recorder.
  - `memory_profiling/`, `task_dumped.rs` and `traced.rs` hold the sources of
    allocation events, task dumps and wake events.
  - `worker/` and `background_task/` hold the upload pipelines, with their object
    keys, back-off and circuit breakers.
  - `config.rs` and `telemetry_runtime.rs` hold configuration and the assembly of
    a runtime.
  - `codegen/` holds what the derive and the main attribute expand to.
- `app/` is ordinary Rust around it: files, threads, the tokio runtime, S3 and
  token streams. It performs the operations that the library asks for and hands
  back what came of them.
- `tests/` runs the library on concrete values.

What the library takes from outside crates stands behind functions whose doc
comments name the outside function and say what is claimed of it.
