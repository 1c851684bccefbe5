//! Task identifiers and spawn-location identifiers.

use vstd::prelude::*;

verus! {

/// Task identifier: the number of a Tokio task.
#[derive(Debug, Clone, Copy, PartialEq, Eq, Hash, Structural)]
pub struct TaskId(u64);

/// Sentinel number for unknown or disabled task tracking.
pub const UNKNOWN_TASK_ID: u64 = 0;

impl View for TaskId {
    type V = u64;

    closed spec fn view(&self) -> u64 {
        self.0
    }
}

impl Default for TaskId {
    fn default() -> (id: TaskId)
        ensures
            id@ == UNKNOWN_TASK_ID,
    {
        TaskId(UNKNOWN_TASK_ID)
    }
}

impl TaskId {
    /// The task id with the number `val`.
    pub closed spec fn spec_from(val: u64) -> TaskId {
        TaskId(val)
    }

    /// Task ids with the same number are the same, and every number has one.
    pub proof fn lemma_view_determines(a: TaskId, b: TaskId)
        ensures
            a@ == b@ ==> a == b,
            TaskId::spec_from(b@) == b,
    {
    }

    /// The task id with a number has that number.
    pub proof fn lemma_spec_from(val: u64)
        ensures
            TaskId::spec_from(val)@ == val,
    {
    }

    /// Convert to u32 for the wire format: the low 32 bits.
    pub fn to_u32(self) -> (v: u32)
        ensures
            v as int == self@ as int % 0x1_0000_0000,
    {
        let n: u64 = self.0;
        assert(n as u32 == n % 0x1_0000_0000) by (bit_vector);
        #[verifier::truncate]
        (n as u32)
    }

    /// Create from u32 (for testing or deserialization).
    pub fn from_u32(val: u32) -> (id: TaskId)
        ensures
            id@ == val,
    {
        TaskId(val as u64)
    }

    /// Create from the full number of a task.
    pub fn from_u64(val: u64) -> (id: TaskId)
        ensures
            id@ == val,
            id == TaskId::spec_from(val),
    {
        TaskId(val)
    }

    /// The full number of the task.
    pub fn as_u64(self) -> (v: u64)
        ensures
            v == self@,
    {
        self.0
    }
}

/// A task id made from a u32 gives that u32 back.
pub proof fn lemma_u32_round_trip(val: u32, id: TaskId)
    requires
        id@ == val,
    ensures
        id@ as int % 0x1_0000_0000 == val,
{
}

/// Identifier of an interned spawn location, unique within one recorder.
#[derive(Debug, Clone, Copy, PartialEq, Eq, PartialOrd, Ord, Hash, Structural)]
pub struct SpawnLocationId(pub u16);

impl SpawnLocationId {
    /// The identifier as a number.
    pub fn as_u16(self) -> (v: u16)
        ensures
            v == self.0,
    {
        self.0
    }
}

/// The task id that stands for no task is zero.
pub proof fn lemma_unknown_task_is_zero()
    ensures
        UNKNOWN_TASK_ID == 0,
{
}

} // verus!
