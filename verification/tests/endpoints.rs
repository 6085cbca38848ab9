//! Tests of the single-service endpoints: health detail and the
//! start/stop control relay.

use fgp_dashboard::api::{service_health, start_service, stop_service};
use fgp_dashboard::model::{ApiResponse, HealthPayload, HealthResult};

fn empty_payload() -> HealthPayload {
    HealthPayload { status: None, version: None, uptime_seconds: None }
}

#[test]
fn absent_endpoint_detail_is_not_found() {
    let (code, resp) = service_health("ghost", HealthResult::NotInstalled);
    assert_eq!(code, 404);
    assert!(!resp.ok);
    assert_eq!(resp.data, None);
    assert_eq!(resp.error, Some("Service 'ghost' is not running".to_string()));
}

#[test]
fn affirmative_detail_passes_payload_through() {
    let payload = HealthPayload {
        status: Some("healthy".to_string()),
        version: Some("0.9".to_string()),
        uptime_seconds: Some(123),
    };
    let (code, resp) = service_health(
        "relay",
        HealthResult::Responding { ok: true, error: None, payload },
    );
    assert_eq!(code, 200);
    assert!(resp.ok);
    assert_eq!(resp.error, None);
    let p = resp.data.unwrap();
    assert_eq!(p.status, Some("healthy".to_string()));
    assert_eq!(p.version, Some("0.9".to_string()));
    assert_eq!(p.uptime_seconds, Some(123));
}

#[test]
fn negative_detail_carries_service_message() {
    let (code, resp) = service_health(
        "relay",
        HealthResult::Responding {
            ok: false,
            error: Some("index corrupted".to_string()),
            payload: empty_payload(),
        },
    );
    assert_eq!(code, 500);
    assert!(!resp.ok);
    assert_eq!(resp.error, Some("index corrupted".to_string()));
}

#[test]
fn negative_detail_without_message_defaults_empty() {
    let (code, resp) = service_health(
        "relay",
        HealthResult::Responding { ok: false, error: None, payload: empty_payload() },
    );
    assert_eq!(code, 500);
    assert!(!resp.ok);
    assert_eq!(resp.error, Some(String::new()));
}

#[test]
fn transport_failure_detail_carries_its_text() {
    let (code, resp) = service_health(
        "relay",
        HealthResult::ConnectError { message: "connection refused".to_string() },
    );
    assert_eq!(code, 500);
    assert!(!resp.ok);
    assert_eq!(resp.error, Some("connection refused".to_string()));
}

#[test]
fn start_success_reports_message() {
    let (code, resp) = start_service("web", Ok(()));
    assert_eq!(code, 200);
    assert!(resp.ok);
    assert_eq!(resp.data, Some("Service 'web' started".to_string()));
    assert_eq!(resp.error, None);
}

#[test]
fn denied_start_is_surfaced() {
    let (code, resp) = start_service("x", Err("permission denied".to_string()));
    assert_eq!(code, 500);
    assert!(!resp.ok);
    assert_eq!(resp.data, None);
    let message = resp.error.unwrap();
    assert!(!message.is_empty());
    assert_eq!(message, "permission denied");
}

#[test]
fn denied_start_with_empty_message_still_explains() {
    let (code, resp) = start_service("x", Err(String::new()));
    assert_eq!(code, 500);
    assert!(!resp.ok);
    assert!(!resp.error.unwrap().is_empty());
}

#[test]
fn stop_success_reports_message() {
    let (code, resp) = stop_service("web", Ok(()));
    assert_eq!(code, 200);
    assert!(resp.ok);
    assert_eq!(resp.data, Some("Service 'web' stopped".to_string()));
}

#[test]
fn denied_stop_is_surfaced() {
    let (code, resp) = stop_service("web", Err("unit not loaded".to_string()));
    assert_eq!(code, 500);
    assert!(!resp.ok);
    assert_eq!(resp.error, Some("unit not loaded".to_string()));
}

#[test]
fn success_envelope_shape() {
    let resp = ApiResponse::success(5u64);
    assert!(resp.ok);
    assert_eq!(resp.data, Some(5));
    assert_eq!(resp.error, None);
}

#[test]
fn error_envelope_shape() {
    let resp = ApiResponse::<u64>::error("boom");
    assert!(!resp.ok);
    assert_eq!(resp.data, None);
    assert_eq!(resp.error, Some("boom".to_string()));
}
