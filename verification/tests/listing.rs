//! Tests of the directory-wide listing: classification of each probe
//! outcome, deterministic ordering, and the never-failing envelope.

use fgp_dashboard::api::list_services;
use fgp_dashboard::model::{HealthPayload, HealthResult, ProbeOutcome};

fn empty_payload() -> HealthPayload {
    HealthPayload { status: None, version: None, uptime_seconds: None }
}

fn probe(name: &str, endpoint_exists: bool, result: HealthResult) -> ProbeOutcome {
    ProbeOutcome {
        name: name.to_string(),
        socket_path: format!("/run/services/{}.sock", name),
        endpoint_exists,
        result,
    }
}

#[test]
fn empty_registry_lists_nothing() {
    let probes: Vec<ProbeOutcome> = Vec::new();
    let resp = list_services(&probes);
    assert!(resp.ok);
    assert_eq!(resp.error, None);
    let list = resp.data.expect("an affirmative listing carries data");
    assert_eq!(list.len(), 0);
}

#[test]
fn no_endpoint_reports_stopped() {
    let probes = vec![probe("relay", false, HealthResult::NotInstalled)];
    let resp = list_services(&probes);
    let list = resp.data.unwrap();
    assert_eq!(list.len(), 1);
    assert_eq!(list[0].name, "relay");
    assert_eq!(list[0].status, "stopped");
    assert_eq!(list[0].version, None);
    assert_eq!(list[0].uptime_seconds, None);
    assert_eq!(list[0].socket_path, "/run/services/relay.sock");
}

#[test]
fn connect_failure_is_unreachable() {
    let probes = vec![probe(
        "relay",
        true,
        HealthResult::ConnectError { message: "connection refused".to_string() },
    )];
    let resp = list_services(&probes);
    let list = resp.data.unwrap();
    assert_eq!(list[0].status, "unreachable");
    assert_ne!(list[0].status, "stopped");
    assert_eq!(list[0].version, None);
    assert_eq!(list[0].uptime_seconds, None);
}

#[test]
fn affirmative_payload_fields_pass_through() {
    let probes = vec![probe(
        "relay",
        true,
        HealthResult::Responding {
            ok: true,
            error: None,
            payload: HealthPayload {
                status: Some("degraded".to_string()),
                version: Some("1.2".to_string()),
                uptime_seconds: Some(42),
            },
        },
    )];
    let resp = list_services(&probes);
    let list = resp.data.unwrap();
    assert_eq!(list[0].status, "degraded");
    assert_eq!(list[0].version, Some("1.2".to_string()));
    assert_eq!(list[0].uptime_seconds, Some(42));
}

#[test]
fn missing_status_defaults_to_running() {
    let probes = vec![probe(
        "relay",
        true,
        HealthResult::Responding { ok: true, error: None, payload: empty_payload() },
    )];
    let resp = list_services(&probes);
    let list = resp.data.unwrap();
    assert_eq!(list[0].status, "running");
    assert_eq!(list[0].version, None);
    assert_eq!(list[0].uptime_seconds, None);
}

#[test]
fn negative_reply_is_unhealthy() {
    let probes = vec![probe(
        "relay",
        true,
        HealthResult::Responding {
            ok: false,
            error: Some("disk full".to_string()),
            payload: empty_payload(),
        },
    )];
    let resp = list_services(&probes);
    let list = resp.data.unwrap();
    assert_eq!(list[0].status, "unhealthy");
    assert_eq!(list[0].version, None);
    assert_eq!(list[0].uptime_seconds, None);
}

#[test]
fn listing_sorted_by_name() {
    let probes = vec![
        probe("zeta", false, HealthResult::NotInstalled),
        probe("alpha", false, HealthResult::NotInstalled),
        probe("mid", false, HealthResult::NotInstalled),
    ];
    let resp = list_services(&probes);
    let list = resp.data.unwrap();
    let names: Vec<&str> = list.iter().map(|r| r.name.as_str()).collect();
    assert_eq!(names, vec!["alpha", "mid", "zeta"]);
}

#[test]
fn sorting_puts_prefix_before_extension() {
    let probes = vec![
        probe("apple", false, HealthResult::NotInstalled),
        probe("app", false, HealthResult::NotInstalled),
        probe("ap", false, HealthResult::NotInstalled),
    ];
    let resp = list_services(&probes);
    let list = resp.data.unwrap();
    let names: Vec<&str> = list.iter().map(|r| r.name.as_str()).collect();
    assert_eq!(names, vec!["ap", "app", "apple"]);
}

#[test]
fn repeated_listing_identical() {
    let probes = vec![
        probe("beta", true, HealthResult::ConnectError { message: "timed out".to_string() }),
        probe(
            "alpha",
            true,
            HealthResult::Responding {
                ok: true,
                error: None,
                payload: HealthPayload {
                    status: Some("healthy".to_string()),
                    version: Some("2.0".to_string()),
                    uptime_seconds: Some(7),
                },
            },
        ),
    ];
    let first = list_services(&probes);
    let second = list_services(&probes);
    assert_eq!(first.data.unwrap(), second.data.unwrap());
}

#[test]
fn listing_never_fails_on_probe_errors() {
    let probes = vec![
        probe("bad", true, HealthResult::ConnectError { message: "broken pipe".to_string() }),
        probe(
            "worse",
            true,
            HealthResult::Responding {
                ok: false,
                error: Some("wedged".to_string()),
                payload: empty_payload(),
            },
        ),
    ];
    let resp = list_services(&probes);
    assert!(resp.ok);
    assert_eq!(resp.error, None);
    assert_eq!(resp.data.unwrap().len(), 2);
}
