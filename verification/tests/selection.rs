use the_solana_api::endpoint::Endpoint;
use the_solana_api::errors::AppError;
use the_solana_api::forward::{
    accept_upstream_response, select_for_proxy, unavailable_message, upstream_failure,
    MAX_UPSTREAM_BODY,
};
use the_solana_api::validators::{SelectionError, Validator, ValidatorRegistry};

fn endpoint(text: &str, host: &str, port: u16) -> Endpoint {
    Endpoint {
        text: text.to_string(),
        scheme: "http".to_string(),
        host: host.to_string(),
        port,
    }
}

fn sample_registry() -> ValidatorRegistry {
    let vs = vec![
        Validator::new(
            "Alpha".to_string(),
            "Lab".to_string(),
            endpoint("http://10.0.0.1:8899/", "10.0.0.1", 8899),
        ),
        Validator::new(
            "Beta".to_string(),
            "lab".to_string(),
            endpoint("http://10.0.0.2:8899/", "10.0.0.2", 8899),
        ),
        Validator::new(
            "Gamma".to_string(),
            "EU".to_string(),
            endpoint("http://10.0.0.3:8899/", "10.0.0.3", 8899),
        ),
    ];
    ValidatorRegistry::new(vs).expect("distinct names")
}

#[test]
fn select_by_name_ignores_case_whitespace_and_location() {
    let reg = sample_registry();
    let v = reg.select(Some("  ALPHA "), Some("EU")).expect("known name");
    assert_eq!(v.name(), "Alpha");
    let again = reg.select(Some("  ALPHA "), Some("EU")).expect("known name");
    assert_eq!(again.name(), v.name());
}

#[test]
fn select_unknown_name_fails_with_trimmed_name() {
    let reg = sample_registry();
    match reg.select(Some(" delta "), None) {
        Err(SelectionError::UnknownValidator(n)) => assert_eq!(n, "delta"),
        other => panic!("expected unknown validator, got {:?}", other.map(|v| v.name().to_string())),
    }
}

#[test]
fn select_by_location_stays_in_group() {
    let reg = sample_registry();
    for _ in 0..32 {
        let v = reg.select(None, Some(" LAB ")).expect("known location");
        assert!(v.name() == "Alpha" || v.name() == "Beta");
        assert_eq!(v.location().to_ascii_lowercase(), "lab");
    }
}

#[test]
fn select_unknown_location_fails_with_trimmed_location() {
    let reg = sample_registry();
    match reg.select(None, Some("mars")) {
        Err(SelectionError::UnknownLocation(l)) => assert_eq!(l, "mars"),
        other => panic!("expected unknown location, got {:?}", other.map(|v| v.name().to_string())),
    }
}

#[test]
fn select_without_hints_always_returns_a_node() {
    let reg = sample_registry();
    for _ in 0..32 {
        let v = reg.select(None, None).expect("non-empty registry");
        assert!(["Alpha", "Beta", "Gamma"].contains(&v.name()));
    }
}

#[test]
fn blank_hints_count_as_absent() {
    let reg = sample_registry();
    let v = reg.select(Some("   "), Some("eu")).expect("location group");
    assert_eq!(v.name(), "Gamma");
}

#[test]
fn summaries_expose_name_and_location_only() {
    let reg = sample_registry();
    let s = reg.summaries();
    assert_eq!(s.len(), 3);
    assert_eq!(s[0].name, "Alpha");
    assert_eq!(s[0].location, "Lab");
    assert_eq!(s[2].name, "Gamma");
    assert_eq!(s[2].location, "EU");
}

#[test]
fn host_header_carries_host_and_port() {
    let reg = sample_registry();
    let v = reg.get_by_name("alpha").expect("known");
    assert_eq!(v.host_header(), Some("10.0.0.1:8899".to_string()));
}

#[test]
fn relayed_response_keeps_body_bytes() {
    let body = b"{\"jsonrpc\":\"2.0\",\"id\":1,\"method\":\"getVersion\",\"params\":[]}".to_vec();
    let r = accept_upstream_response(200, Some("application/json".to_string()), body.clone(), "upstream-1")
        .expect("small body");
    assert_eq!(r.status, 200);
    assert_eq!(r.content_type.as_deref(), Some("application/json"));
    assert_eq!(r.body, body);
}

#[test]
fn oversized_body_is_a_forwarding_failure() {
    let body = vec![0u8; MAX_UPSTREAM_BODY + 1];
    let err = match accept_upstream_response(200, None, body, "upstream-1") {
        Err(e) => e,
        Ok(_) => panic!("expected a failure over the cap"),
    };
    assert_eq!(err.status_code(), 502);
    assert_eq!(
        err.message(),
        "upstream request failed: node 'upstream-1' is unavailable: response body exceeds the size cap"
    );
    let at_cap = vec![0u8; MAX_UPSTREAM_BODY];
    assert!(accept_upstream_response(200, None, at_cap, "upstream-1").is_ok());
}

#[test]
fn upstream_failures_name_the_node() {
    assert_eq!(
        unavailable_message("upstream-1", "connection refused"),
        "node 'upstream-1' is unavailable: connection refused"
    );
    let e = upstream_failure("upstream-1", "timeout");
    assert_eq!(e.status_code(), 502);
    assert_eq!(e.message(), "upstream request failed: node 'upstream-1' is unavailable: timeout");
}

#[test]
fn error_status_codes_follow_the_taxonomy() {
    assert_eq!(AppError::BadRequest("x".to_string()).status_code(), 400);
    assert_eq!(AppError::Selection("x".to_string()).status_code(), 400);
    assert_eq!(AppError::Upstream("x".to_string()).status_code(), 502);
    assert_eq!(AppError::Internal("x".to_string()).status_code(), 500);
    assert_eq!(AppError::Internal("x".to_string()).message(), "internal error: x");
}

#[test]
fn proxy_selection_maps_failures_to_caller_errors() {
    let reg = sample_registry();
    let v = select_for_proxy(&reg, Some("beta"), None).expect("known name");
    assert_eq!(v.name(), "Beta");
    let err = match select_for_proxy(&reg, Some("delta"), None) {
        Err(e) => e,
        Ok(_) => panic!("expected an unknown name"),
    };
    assert_eq!(err.status_code(), 400);
    assert_eq!(err.message(), "validator selection failed: validator 'delta' not found");
}

#[test]
fn selection_error_messages() {
    assert_eq!(
        SelectionError::UnknownValidator("x".to_string()).message(),
        "validator 'x' not found"
    );
    assert_eq!(
        SelectionError::UnknownLocation("y".to_string()).message(),
        "no validator available for location 'y'"
    );
    assert_eq!(SelectionError::Empty.message(), "no validators available");
}
