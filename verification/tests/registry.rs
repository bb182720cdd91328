use the_solana_api::endpoint::{generate_default_name, prepare_host_for_url, default_rpc_port};
use the_solana_api::rows::RawNodeRecord;
use the_solana_api::text::normalize_key;
use the_solana_api::validators::{RegistryError, Validator, ValidatorRegistry};

fn raw(
    name: Option<&str>,
    rpc: Option<&str>,
    host: Option<&str>,
    port: Option<u16>,
    protocol: Option<&str>,
    location: Option<&str>,
) -> RawNodeRecord {
    RawNodeRecord {
        name: name.map(|s| s.to_string()),
        rpc_endpoint: rpc.map(|s| s.to_string()),
        endpoint_host: host.map(|s| s.to_string()),
        endpoint_port: port,
        protocol: protocol.map(|s| s.to_string()),
        location: location.map(|s| s.to_string()),
    }
}

#[test]
fn normalize_key_trims_and_lowercases() {
    assert_eq!(normalize_key("  AbC "), "abc");
    assert_eq!(normalize_key("\tFrankfurt 1\n"), "frankfurt 1");
    assert_eq!(normalize_key("   "), "");
}

#[test]
fn generated_name_from_location_and_ordinal() {
    assert_eq!(generate_default_name("Frankfurt 1", 3), "frankfurt-1-3");
    assert_eq!(generate_default_name("", 1), "validator-1");
    assert_eq!(generate_default_name("***", 2), "validator-2");
    assert_eq!(generate_default_name("  New York  ", 12), "new-york-12");
}

#[test]
fn bare_ipv6_hosts_get_bracketed() {
    assert_eq!(prepare_host_for_url("::1"), "[::1]");
    assert_eq!(prepare_host_for_url("2001:db8::7"), "[2001:db8::7]");
    assert_eq!(prepare_host_for_url("[::1]"), "[::1]");
    assert_eq!(prepare_host_for_url(" example.com "), "example.com");
    assert_eq!(prepare_host_for_url("127.0.0.1"), "127.0.0.1");
}

#[test]
fn default_port_is_8899() {
    assert_eq!(default_rpc_port(), 8899);
}

#[test]
fn explicit_url_gets_default_port() {
    let v = Validator::try_from_record(
        raw(Some("n1"), Some("http://example.com"), None, None, None, None),
        2,
        1,
    )
    .expect("accepted row");
    let e = v.rpc_url();
    assert_eq!(e.scheme, "http");
    assert_eq!(e.host, "example.com");
    assert_eq!(e.port, 8899);
    assert_eq!(e.text, "http://example.com:8899/");
}

#[test]
fn explicit_default_scheme_port_is_replaced() {
    // the url crate treats :80 on http as "no explicit port"
    let v = Validator::try_from_record(
        raw(Some("n1"), Some("http://example.com:80/x"), None, None, None, None),
        2,
        1,
    )
    .expect("accepted row");
    assert_eq!(v.rpc_url().port, 8899);
    assert_eq!(v.rpc_url().text, "http://example.com:8899/x");
}

#[test]
fn host_column_builds_url_with_row_port() {
    let v = Validator::try_from_record(
        raw(Some("n"), None, Some("10.0.0.1"), Some(7000), Some("https"), None),
        2,
        1,
    )
    .expect("accepted row");
    let e = v.rpc_url();
    assert_eq!(e.scheme, "https");
    assert_eq!(e.host, "10.0.0.1");
    assert_eq!(e.port, 7000);
    assert_eq!(e.text, "https://10.0.0.1:7000/");
}

#[test]
fn host_column_without_port_defaults() {
    let v = Validator::try_from_record(
        raw(None, None, Some("node.example.com"), None, None, Some("Lab")),
        2,
        1,
    )
    .expect("accepted row");
    assert_eq!(v.name(), "lab-1");
    assert_eq!(v.location(), "Lab");
    assert_eq!(v.rpc_url().port, 8899);
    assert_eq!(v.rpc_url().text, "http://node.example.com:8899/");
}

#[test]
fn ipv6_host_column_is_bracketed_in_url() {
    let v = Validator::try_from_record(raw(Some("six"), None, Some("::1"), None, None, None), 2, 1)
        .expect("accepted row");
    assert_eq!(v.rpc_url().text, "http://[::1]:8899/");
    assert_eq!(v.rpc_url().port, 8899);
}

#[test]
fn unsupported_protocol_is_rejected() {
    let r = Validator::try_from_record(
        raw(Some("n"), None, Some("10.0.0.1"), None, Some("ftp"), None),
        5,
        1,
    );
    match r {
        Err(RegistryError::InvalidRecord(rn, reason)) => {
            assert_eq!(rn, 5);
            assert_eq!(reason, "unsupported protocol 'ftp'");
        },
        other => panic!("expected a row error, got {:?}", other.map(|v| v.name().to_string())),
    }
}

#[test]
fn unsupported_url_scheme_is_rejected() {
    let r = Validator::try_from_record(
        raw(Some("n"), Some("ftp://example.com/"), None, None, None, None),
        3,
        1,
    );
    match r {
        Err(RegistryError::InvalidRecord(rn, reason)) => {
            assert_eq!(rn, 3);
            assert_eq!(reason, "unsupported url scheme `ftp`");
        },
        other => panic!("expected a row error, got {:?}", other.map(|v| v.name().to_string())),
    }
}

#[test]
fn unparsable_url_reason_names_the_url() {
    let r = Validator::try_from_record(
        raw(Some("n"), Some("not a url"), None, None, None, None),
        2,
        1,
    );
    match r {
        Err(RegistryError::InvalidRecord(rn, reason)) => {
            assert_eq!(rn, 2);
            assert!(reason.starts_with("invalid url 'not a url': "));
        },
        other => panic!("expected a row error, got {:?}", other.map(|v| v.name().to_string())),
    }
}

#[test]
fn row_without_endpoint_or_host_is_rejected() {
    let r = Validator::try_from_record(raw(None, None, None, None, None, None), 7, 1);
    match r {
        Err(RegistryError::InvalidRecord(rn, reason)) => {
            assert_eq!(rn, 7);
            assert_eq!(reason, "missing rpc_url or host/ip column");
        },
        other => panic!("expected a row error, got {:?}", other.map(|v| v.name().to_string())),
    }
}

#[test]
fn location_defaults_to_unspecified() {
    let v = Validator::try_from_record(raw(None, None, Some("10.0.0.9"), None, None, None), 2, 7)
        .expect("accepted row");
    assert_eq!(v.location(), "unspecified");
    assert_eq!(v.name(), "unspecified-7");
}

#[test]
fn csv_text_loads_registry_in_order() {
    let text = "name,host,port,location\nAlpha,10.0.0.1,8000,Lab\nBeta,10.0.0.2,,Lab\n";
    let reg = ValidatorRegistry::from_csv_text(text).expect("registry");
    let vs = reg.validators();
    assert_eq!(vs.len(), 2);
    assert_eq!(vs[0].name(), "Alpha");
    assert_eq!(vs[0].rpc_url().port, 8000);
    assert_eq!(vs[1].name(), "Beta");
    assert_eq!(vs[1].rpc_url().port, 8899);
    assert_eq!(vs[1].location(), "Lab");
}

#[test]
fn csv_aliases_and_quoting() {
    let text = "name,rpc_url,region,location\n\"Node, One\",http://10.0.0.5:1234/,x,EU\n";
    let reg = ValidatorRegistry::from_csv_text(text).expect("registry");
    let vs = reg.validators();
    assert_eq!(vs[0].name(), "Node, One");
    assert_eq!(vs[0].location(), "EU");
    assert_eq!(vs[0].rpc_url().port, 1234);
}

#[test]
fn csv_ip_alias_feeds_host() {
    let text = "name,ip\nA,10.1.1.1\n";
    let reg = ValidatorRegistry::from_csv_text(text).expect("registry");
    assert_eq!(reg.validators()[0].rpc_url().text, "http://10.1.1.1:8899/");
}

#[test]
fn csv_missing_endpoint_reports_row_number() {
    let text = "name,host\nalpha,10.0.0.1\nbeta,\n";
    match ValidatorRegistry::from_csv_text(text) {
        Err(RegistryError::InvalidRecord(rn, reason)) => {
            assert_eq!(rn, 3);
            assert_eq!(reason, "missing rpc_url or host/ip column");
        },
        other => panic!("expected a row error, got {:?}", other.map(|r| r.validators().len())),
    }
}

#[test]
fn csv_bad_port_reports_row_number() {
    let text = "name,host,port\nA,10.0.0.1,70000\n";
    assert!(matches!(
        ValidatorRegistry::from_csv_text(text),
        Err(RegistryError::InvalidRecord(2, _))
    ));
    let plus = "name,host,port\nA,10.0.0.1,+8000\n";
    let reg = ValidatorRegistry::from_csv_text(plus).expect("plus-signed port parses");
    assert_eq!(reg.validators()[0].rpc_url().port, 8000);
}

#[test]
fn empty_sources_yield_empty_error() {
    assert!(matches!(ValidatorRegistry::new(Vec::new()), Err(RegistryError::Empty)));
    assert!(matches!(ValidatorRegistry::from_csv_text(""), Err(RegistryError::Empty)));
    assert!(matches!(
        ValidatorRegistry::from_csv_text("name,host\n"),
        Err(RegistryError::Empty)
    ));
}

#[test]
fn duplicate_normalized_names_are_rejected() {
    let text = "name,host\nAlpha,10.0.0.1\n ALPHA ,10.0.0.2\n";
    match ValidatorRegistry::from_csv_text(text) {
        Err(RegistryError::DuplicateName(n)) => assert_eq!(n, "ALPHA"),
        other => panic!("expected a duplicate, got {:?}", other.map(|r| r.validators().len())),
    }
}

#[test]
fn registry_error_messages() {
    assert_eq!(
        RegistryError::InvalidRecord(7, "x".to_string()).message(),
        "invalid record at row 7: x"
    );
    assert_eq!(
        RegistryError::DuplicateName("a".to_string()).message(),
        "duplicate validator name 'a'"
    );
    assert_eq!(RegistryError::Empty.message(), "no validators configured");
    assert_eq!(RegistryError::Csv("boom".to_string()).message(), "csv error: boom");
}
