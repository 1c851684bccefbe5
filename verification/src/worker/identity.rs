//! Machine identity detection for S3 object key paths.
//!
//! Provides `InstanceIdentity` which resolves to a string used as the
//! `instance_path` component in S3 object keys. Can be an explicit string
//! or auto-detected from the hostname.

use crate::text::IntoText;
use vstd::prelude::*;

verus! {

/// `hostname::get` asks the system for its host name. `None` stands for a
/// failure and for a name that is no Unicode text. Nothing is claimed of the
/// name: it rests on the machine.
#[verifier::external_body]
fn host_name() -> Option<String> {
    hostname::get().ok().and_then(|h| h.into_string().ok())
}

/// Whether `hostname` is what the system may say when it is asked for its host
/// name.
pub closed spec fn hostname_reads(hostname: Option<String>) -> bool {
    call_ensures(host_name, (), hostname)
}

/// What the system says its host name is.
pub(crate) fn system_hostname() -> (hostname: Option<String>)
    ensures
        hostname_reads(hostname),
{
    host_name()
}

/// The host name, or `unknown` where there is none.
pub fn hostname_or_unknown(hostname: Option<String>) -> (s: String)
    ensures
        s@ == (match hostname {
            Some(h) => h@,
            None => "unknown"@,
        }),
{
    match hostname {
        Some(h) => h,
        None => "unknown".to_string(),
    }
}

/// Identifies where a process is running, used as the `instance_path`
/// component in S3 object keys.
#[derive(Debug)]
pub enum InstanceIdentity {
    /// User-provided identity string (e.g. "us-east-1/i-0abc123").
    Explicit(String),
    /// Auto-detected from hostname.
    Hostname(String),
}

impl InstanceIdentity {
    /// The identity string.
    pub open spec fn text(self) -> Seq<char> {
        match self {
            InstanceIdentity::Explicit(s) => s@,
            InstanceIdentity::Hostname(h) => h@,
        }
    }

    /// Create an identity from an explicit string.
    pub fn explicit<T: IntoText>(s: T) -> (id: InstanceIdentity)
        ensures
            id is Explicit,
            id.text() == s.text(),
    {
        InstanceIdentity::Explicit(s.into_text())
    }

    /// Auto-detect identity from the system hostname.
    pub fn from_hostname() -> (id: InstanceIdentity)
        ensures
            id is Hostname,
            exists|hostname: Option<String>| #[trigger]
                hostname_reads(hostname) && id.text() == (match hostname {
                    Some(h) => h@,
                    None => "unknown"@,
                }),
    {
        InstanceIdentity::Hostname(hostname_or_unknown(system_hostname()))
    }

    /// Resolve the identity to a string suitable for use in S3 key paths.
    pub fn resolve(&self) -> (s: &str)
        ensures
            s@ == self.text(),
    {
        match self {
            InstanceIdentity::Explicit(s) => s.as_str(),
            InstanceIdentity::Hostname(h) => h.as_str(),
        }
    }
}

/// An identity is the text that was given, or the host name.
pub proof fn lemma_identity_is_its_text(given: String, host: String)
    ensures
        InstanceIdentity::Explicit(given).text() == given@,
        InstanceIdentity::Hostname(host).text() == host@,
{
}

} // verus!
