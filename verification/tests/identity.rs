//! Where a process runs.

use dial9_tokio_telemetry::background_task::instance_metadata;
use dial9_tokio_telemetry::worker::identity::{hostname_or_unknown, InstanceIdentity};

#[test]
fn explicit_identity_resolves_to_given_string() {
    let id = InstanceIdentity::explicit("us-east-1/i-0abc123");
    assert_eq!(id.resolve(), "us-east-1/i-0abc123");
}

#[test]
fn explicit_identity_accepts_into_string() {
    let id = InstanceIdentity::explicit(String::from("dc-west/rack4"));
    assert_eq!(id.resolve(), "dc-west/rack4");
}

#[test]
fn identity_from_hostname_returns_non_empty_string() {
    let id = InstanceIdentity::from_hostname();
    assert!(!id.resolve().is_empty());
}

#[test]
fn from_hostname_does_not_return_unknown_on_real_system() {
    // On any real system, gethostname should succeed
    let id = InstanceIdentity::from_hostname();
    assert_ne!(id.resolve(), "unknown");
}

#[test]
fn instance_metadata_from_hostname_returns_non_empty_string() {
    let id = instance_metadata::InstanceIdentity::from_hostname();
    assert!(!id.as_str().is_empty());
}

#[test]
fn missing_hostname_is_unknown() {
    assert_eq!(hostname_or_unknown(None), "unknown");
    assert_eq!(hostname_or_unknown(Some("web-1".to_string())), "web-1");
    let id = instance_metadata::InstanceIdentity::from_detected(None);
    assert_eq!(id.as_str(), "unknown");
    let id = instance_metadata::InstanceIdentity::new("rack4");
    assert_eq!(id.as_str(), "rack4");
}
