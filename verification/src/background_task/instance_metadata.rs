//! Machine identity detection for S3 object key paths.
//!
//! Provides `InstanceIdentity` — a newtype around `String` used as the
//! `instance_path` component in S3 object keys.

use crate::text::IntoText;
use crate::worker::identity::{hostname_or_unknown, hostname_reads, system_hostname};
use vstd::prelude::*;

verus! {

/// Identifies where a process is running, used as the `instance_path`
/// component in S3 object keys.
#[derive(Debug, Clone)]
pub struct InstanceIdentity(String);

impl View for InstanceIdentity {
    type V = Seq<char>;

    closed spec fn view(&self) -> Seq<char> {
        self.0@
    }
}

impl InstanceIdentity {
    /// Create an identity from an explicit string.
    pub fn new<T: IntoText>(s: T) -> (id: InstanceIdentity)
        ensures
            id@ == s.text(),
    {
        InstanceIdentity(s.into_text())
    }

    /// Auto-detect identity from the system hostname; `unknown` where the
    /// system has none.
    pub fn from_hostname() -> (id: InstanceIdentity)
        ensures
            exists|hostname: Option<String>| #[trigger]
                hostname_reads(hostname) && id@ == (match hostname {
                    Some(h) => h@,
                    None => "unknown"@,
                }),
    {
        InstanceIdentity::from_detected(system_hostname())
    }

    /// The identity of a machine whose hostname was asked for.
    pub fn from_detected(hostname: Option<String>) -> (id: InstanceIdentity)
        ensures
            id@ == (match hostname {
                Some(h) => h@,
                None => "unknown"@,
            }),
    {
        InstanceIdentity(hostname_or_unknown(hostname))
    }

    /// The identity string.
    pub fn as_str(&self) -> (s: &str)
        ensures
            s@ == self@,
    {
        self.0.as_str()
    }
}

} // verus!
