use coevo_server::headers::{
    configured_sidecar_token, is_default_allowed_origin, metadata_from_headers, origin_allowed,
    parse_allowed_origins, check_sidecar_token, traceparent_for, RawMetadataHeaders,
    SidecarRefusal,
};

#[test]
fn default_cors_allows_tauri_and_debug_dev_shell_origins() {
    // Test builds carry debug assertions, so the development origins count.
    assert!(is_default_allowed_origin("tauri://localhost", true));
    assert!(is_default_allowed_origin("http://tauri.localhost", true));
    assert!(is_default_allowed_origin("http://127.0.0.1:5173", true));
    assert!(is_default_allowed_origin("http://localhost:5173", true));
    assert!(!is_default_allowed_origin("http://localhost:3000", true));
}

#[test]
fn release_build_refuses_dev_shell_origins() {
    assert!(is_default_allowed_origin("https://tauri.localhost", false));
    assert!(is_default_allowed_origin("tauri://localhost", false));
    assert!(!is_default_allowed_origin("http://localhost:5173", false));
    assert!(!is_default_allowed_origin("http://127.0.0.1:5173", false));
    assert!(!is_default_allowed_origin("TAURI://localhost", false));
}

#[test]
fn configured_origins_are_trimmed_and_blank_entries_dropped() {
    let extra = parse_allowed_origins(" https://a.example , ,HTTPS://B.example,");
    assert_eq!(extra, vec!["https://a.example".to_string(), "HTTPS://B.example".to_string()]);
    assert!(parse_allowed_origins("").is_empty());
    assert!(parse_allowed_origins(" , ").is_empty());
}

#[test]
fn configured_origins_match_ignoring_ascii_case() {
    let extra = parse_allowed_origins("https://a.example,HTTPS://B.example");
    assert!(origin_allowed("https://b.example", false, &extra));
    assert!(origin_allowed("https://A.EXAMPLE", false, &extra));
    assert!(!origin_allowed("https://c.example", false, &extra));
    assert!(origin_allowed("tauri://localhost", false, &extra));
    assert!(!origin_allowed("http://localhost:5173", false, &Vec::new()));
}

#[test]
fn blank_sidecar_setting_configures_no_token() {
    assert_eq!(configured_sidecar_token(None), None);
    assert_eq!(configured_sidecar_token(Some("   ")), None);
    assert_eq!(configured_sidecar_token(Some(" s3cret ")), Some("s3cret".to_string()));
}

#[test]
fn router_denies_operational_routes_when_sidecar_token_is_unconfigured() {
    // A POST to /companies without a token, on a server configured with none.
    let refusal = check_sidecar_token(None, None).err().unwrap();
    assert_eq!(refusal, SidecarRefusal::Unconfigured);
    assert_eq!(refusal.status(), 503);
    assert_eq!(check_sidecar_token(None, Some("anything")), Err(SidecarRefusal::Unconfigured));
}

#[test]
fn sidecar_token_must_match_trimmed_header() {
    assert_eq!(check_sidecar_token(Some("s3cret"), Some("  s3cret ")), Ok(()));
    assert_eq!(check_sidecar_token(Some("s3cret"), Some("S3CRET")), Err(SidecarRefusal::InvalidToken));
    let missing = check_sidecar_token(Some("s3cret"), None).err().unwrap();
    assert_eq!(missing, SidecarRefusal::InvalidToken);
    assert_eq!(missing.status(), 401);
    assert_eq!(missing.message(), "Missing or invalid sidecar token");
    // An empty configured token lets requests without the header through.
    assert_eq!(check_sidecar_token(Some(""), None), Ok(()));
}

#[test]
fn traceparent_encodes_ids_in_lower_hex() {
    let trace_id = [0x0a_u8, 0xbc, 0, 1, 2, 3, 4, 5, 6, 7, 8, 9, 0xfe, 0xdc, 0xba, 0x98];
    let span_id = [0xff_u8, 0, 0x10, 0x20, 0x30, 0x40, 0x50, 0x6f];
    assert_eq!(
        traceparent_for(&trace_id, &span_id),
        "00-0abc00010203040506070809fedcba98-ff0010203040506f-01"
    );
}

fn headers(
    idempotency_key: &str,
    traceparent: &str,
    causality_parent_id: &str,
    request_ttl_ms: Option<&str>,
    replay_mode: Option<&str>,
    timestamp: Option<&str>,
) -> RawMetadataHeaders {
    RawMetadataHeaders {
        idempotency_key: idempotency_key.to_string(),
        traceparent: traceparent.to_string(),
        tracestate: Some("vendor=1".to_string()),
        caller_identity_proof: None,
        contract_hash: "hash-1".to_string(),
        policy_version: "v2".to_string(),
        tenant_id: "tenant-a".to_string(),
        execution_plan_hash: "plan-9".to_string(),
        actor_role: "operator".to_string(),
        causality_parent_id: causality_parent_id.to_string(),
        request_ttl_ms: request_ttl_ms.map(|s| s.to_string()),
        replay_mode: replay_mode.map(|s| s.to_string()),
        timestamp: timestamp.map(|s| s.to_string()),
    }
}

fn is_uuid(s: &str) -> bool {
    s.len() == 36
        && s.chars().enumerate().all(|(i, c)| {
            if i == 8 || i == 13 || i == 18 || i == 23 {
                c == '-'
            } else {
                c.is_ascii_digit() || ('a'..='f').contains(&c)
            }
        })
        && s.as_bytes()[14] == b'4'
        && b"89ab".contains(&s.as_bytes()[19])
}

#[test]
fn metadata_defaults_fill_missing_headers() {
    let m = metadata_from_headers(headers("", "", "", None, None, None), 1_700_000_000_000);
    assert!(is_uuid(&m.idempotency_key));
    assert!(is_uuid(&m.causality_parent_id));
    assert_ne!(m.idempotency_key, m.causality_parent_id);
    assert_eq!(m.traceparent.len(), 55);
    assert!(m.traceparent.starts_with("00-"));
    assert!(m.traceparent.ends_with("-01"));
    // The trace id is a version 4 UUID's bytes: version nibble 4, variant bits 10.
    assert_eq!(&m.traceparent[15..16], "4");
    assert!("89ab".contains(&m.traceparent[19..20]));
    assert_eq!(m.request_ttl_ms, 30000);
    assert!(!m.replay_mode);
    assert_eq!(m.timestamp, 1_700_000_000_000);
    assert_eq!(m.tracestate, Some("vendor=1".to_string()));
    assert_eq!(m.contract_hash, "hash-1");
    assert_eq!(m.tenant_id, "tenant-a");
}

#[test]
fn metadata_keeps_given_headers_and_parses_numbers() {
    let m = metadata_from_headers(
        headers("idem-1", "00-abc-def-01", "parent-7", Some("1500"), Some("true"), Some("42")),
        5,
    );
    assert_eq!(m.idempotency_key, "idem-1");
    assert_eq!(m.traceparent, "00-abc-def-01");
    assert_eq!(m.causality_parent_id, "parent-7");
    assert_eq!(m.request_ttl_ms, 1500);
    assert!(m.replay_mode);
    assert_eq!(m.timestamp, 42);
    let odd = metadata_from_headers(
        headers("k", "t", "c", Some("soon"), Some("TRUE"), Some("-3")),
        77,
    );
    assert_eq!(odd.request_ttl_ms, 30000);
    assert!(!odd.replay_mode);
    assert_eq!(odd.timestamp, 77);
    let plus = metadata_from_headers(headers("k", "t", "c", Some("+9"), None, None), 1);
    assert_eq!(plus.request_ttl_ms, 9);
}
