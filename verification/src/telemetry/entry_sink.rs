//! A sink that writes metrics entries into the trace buffer.

use std::marker::PhantomData;
use vstd::prelude::*;

verus! {

/// Marker type for span-boundary metrics. A metric that carries it has bit 0 of
/// its flags byte set, which says that this field defines the logical span
/// duration (used to compute start time from end timestamp).
#[derive(Debug, Clone, Copy, PartialEq, Eq, Structural)]
pub struct SpanFlag;

/// Makes the flags of span-boundary metrics.
#[derive(Debug, Clone, Copy, PartialEq, Eq, Structural)]
pub struct SpanFlagCtor;

impl SpanFlagCtor {
    /// The flag that marks a span-boundary metric.
    pub fn construct() -> (f: SpanFlag)
        ensures
            f == SpanFlag,
    {
        SpanFlag
    }
}

/// A sink that serializes metrics entries into the thread-local trace buffer.
///
/// `entry_name` is a static label written into the trace so the viewer can
/// identify the entry type (e.g. `"RequestMetrics"`).
pub struct Dial9EntrySink<E> {
    entry_name: &'static str,
    _phantom: PhantomData<E>,
}

impl<E> Dial9EntrySink<E> {
    /// The label of the entries.
    pub closed spec fn spec_entry_name(self) -> Seq<char> {
        self.entry_name@
    }

    pub fn new(entry_name: &'static str) -> (s: Dial9EntrySink<E>)
        ensures
            s.spec_entry_name() == entry_name@,
    {
        Dial9EntrySink { entry_name, _phantom: PhantomData }
    }

    /// The label of the entries.
    pub fn entry_name(&self) -> (name: &'static str)
        ensures
            name@ == self.spec_entry_name(),
    {
        self.entry_name
    }
}

} // verus!
