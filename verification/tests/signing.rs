//! Signing, verification and replay protection.
use bw_touchid_broker::cli::sign_request;
use bw_touchid_broker::config::{default_config, generate_client_secret};
use bw_touchid_broker::json::Json;
use bw_touchid_broker::nonce::{NonceDb, NonceStore};
use bw_touchid_broker::primitives::random_token;
use bw_touchid_broker::signing::{
    body_digest, canonical_request, check_signature, constant_time_eq, header_str, now_unix, sign,
    signed_headers_at, unix_time, verify_signature, verify_signature_at, HEADER_CLIENT, HEADER_NONCE,
    HEADER_SIGNATURE, HEADER_TIMESTAMP,
};
use http::{HeaderMap, HeaderValue};

fn headers(timestamp: &str, nonce: &str, signature: &str) -> HeaderMap<HeaderValue> {
    let mut headers = HeaderMap::new();
    headers.insert(HEADER_TIMESTAMP, timestamp.parse().unwrap());
    headers.insert(HEADER_NONCE, nonce.parse().unwrap());
    headers.insert(HEADER_SIGNATURE, signature.parse().unwrap());
    headers
}

#[test]
fn signature_round_trips() {
    let body = br#"{"x":1}"#;
    let timestamp = now_unix().to_string();
    let nonce = "nonce-1";
    let signature = sign(
        "shared-secret",
        "POST",
        "/v1/secret-requests",
        &timestamp,
        nonce,
        body,
    )
    .unwrap();
    let mut headers = HeaderMap::new();
    headers.insert(HEADER_TIMESTAMP, timestamp.parse().unwrap());
    headers.insert(HEADER_NONCE, nonce.parse().unwrap());
    headers.insert(HEADER_SIGNATURE, signature.parse().unwrap());
    verify_signature(
        "shared-secret",
        "POST",
        "/v1/secret-requests",
        &headers,
        body,
        300,
    )
    .unwrap();
}

#[test]
fn signature_has_its_documented_value() {
    let body = br#"{"x":1}"#;
    assert_eq!(
        body_digest(body),
        "5041bf1f713df204784353e82f6a4a535931cb64f1f4b4a5aeaffcb720918b22"
    );
    assert_eq!(
        body_digest(b""),
        "e3b0c44298fc1c149afbf4c8996fb92427ae41e4649b934ca495991b7852b855"
    );
    assert_eq!(
        canonical_request("post", "/v1/secret-requests", "1700000000", "nonce-1", body),
        "POST\n/v1/secret-requests\n1700000000\nnonce-1\n5041bf1f713df204784353e82f6a4a535931cb64f1f4b4a5aeaffcb720918b22"
    );
    assert_eq!(
        sign(
            "shared-secret",
            "POST",
            "/v1/secret-requests",
            "1700000000",
            "nonce-1",
            body
        )
        .unwrap(),
        "b3b6fd8b28bd79fc2c0edaa9d482a7d9241fe1993c151403e32fb0d43b177996"
    );
}

#[test]
fn signed_headers_hold_what_was_signed() {
    let signed = signed_headers_at(
        "remote-agent",
        "shared-secret",
        "POST",
        "/v1/secret-requests",
        br#"{"x":1}"#,
        "nonce-1",
        1_700_000_000,
    )
    .unwrap();
    let text = |key: &str| signed.text_at(key).unwrap().clone();
    assert_eq!(text("X-BW-Broker-Client-Id"), "remote-agent");
    assert_eq!(text("X-BW-Broker-Timestamp"), "1700000000");
    assert_eq!(text("X-BW-Broker-Nonce"), "nonce-1");
    assert_eq!(
        text("X-BW-Broker-Signature"),
        "b3b6fd8b28bd79fc2c0edaa9d482a7d9241fe1993c151403e32fb0d43b177996"
    );
}

#[test]
fn verification_turns_down_what_does_not_fit() {
    let good = "b3b6fd8b28bd79fc2c0edaa9d482a7d9241fe1993c151403e32fb0d43b177996";
    let body = br#"{"x":1}"#;
    let verify = |headers: &HeaderMap<HeaderValue>, body: &[u8], now: i64| {
        verify_signature_at(
            "shared-secret",
            "POST",
            "/v1/secret-requests",
            headers,
            body,
            300,
            now,
        )
    };
    let all = headers("1700000000", "nonce-1", good);
    assert_eq!(
        verify(&all, body, 1_700_000_300).unwrap(),
        ("1700000000".to_string(), "nonce-1".to_string())
    );
    assert!(verify(&all, body, 1_699_999_700).is_ok());
    assert!(verify(&all, body, 1_700_000_301).is_err());
    assert!(verify(&all, body, 1_699_999_699).is_err());
    assert!(verify(&all, b"{}", 1_700_000_000).is_err());
    let mut broken = all.clone();
    broken.remove(HEADER_NONCE);
    assert!(verify(&broken, body, 1_700_000_000).is_err());
    assert!(verify(&headers("soon", "nonce-1", good), body, 1_700_000_000).is_err());
    assert!(verify(&headers("1700000000", "nonce-2", good), body, 1_700_000_000).is_err());
    let upper = good.to_uppercase();
    assert!(verify(&headers("1700000000", "nonce-1", &upper), body, 1_700_000_000).is_err());
}

#[test]
fn each_fault_has_its_message() {
    let fault = |timestamp: &str, signature: &str| {
        check_signature("k", "GET", "/", timestamp, "n", signature, b"", 300, 1000)
            .unwrap_err()
            .message()
    };
    assert_eq!(fault("x", ""), "invalid signature timestamp");
    assert_eq!(fault("1301", ""), "signature timestamp outside allowed skew");
    assert_eq!(fault("1000", "00"), "invalid request signature");
    let empty: HeaderMap<HeaderValue> = HeaderMap::new();
    assert_eq!(
        header_str(&empty, HEADER_CLIENT).unwrap_err().message(),
        "missing header x-bw-broker-client-id"
    );
}

#[test]
fn header_is_read_whatever_the_case_of_its_name() {
    let mut headers = HeaderMap::new();
    headers.insert(HEADER_CLIENT, HeaderValue::from_static("agent"));
    assert_eq!(header_str(&headers, "X-BW-Broker-Client-Id").unwrap(), "agent");
    headers.insert(HEADER_CLIENT, HeaderValue::from_bytes(b"\xff").unwrap());
    assert!(header_str(&headers, HEADER_CLIENT).is_err());
}

#[test]
fn comparison_looks_at_every_byte() {
    assert!(constant_time_eq(b"", b""));
    assert!(constant_time_eq(b"abc", b"abc"));
    assert!(!constant_time_eq(b"abc", b"abd"));
    assert!(!constant_time_eq(b"abc", b"ab"));
}

#[test]
fn extreme_timestamps_are_outside_the_skew() {
    for timestamp in ["9223372036854775807", "-9223372036854775808"] {
        let result = check_signature("k", "GET", "/", timestamp, "n", "", b"", 300, 1000);
        assert_eq!(
            result.unwrap_err().message(),
            "signature timestamp outside allowed skew"
        );
    }
}

#[test]
fn nonce_is_accepted_once_while_it_lives() {
    let store = NonceStore::new("nonces.json".to_string(), 600);
    let mut db = NonceDb::new();
    assert!(store.check_and_store(&mut db, "a", "n", 1000).is_ok());
    let again = store.check_and_store(&mut db, "a", "n", 1600).unwrap_err();
    assert_eq!(again.message(), "replay detected for request nonce");
    assert!(store.check_and_store(&mut db, "b", "n", 1600).is_ok());
    assert!(store.check_and_store(&mut db, "a", "n", 1601).is_ok());
    assert_eq!(
        db.entries(),
        vec![("a:n".to_string(), 1601), ("b:n".to_string(), 1600)]
    );
}

#[test]
fn tokens_are_long_and_differ() {
    let token = random_token(18);
    assert_eq!(token.len(), 24);
    assert!(token
        .chars()
        .all(|c| c.is_ascii_alphanumeric() || c == '-' || c == '_'));
    assert_ne!(token, random_token(18));
    assert_eq!(random_token(0), "");
    assert_eq!(generate_client_secret().len(), 43);
    assert_ne!(generate_client_secret(), generate_client_secret());
}

#[test]
fn sign_request_draws_a_nonce_where_none_is_given() {
    let nonce = |given: Option<String>| {
        let signed = sign_request("id", "secret", "GET", "/v1/catalog", b"", given).unwrap();
        match signed {
            Json::Object(_) => signed.text_at("X-BW-Broker-Nonce").unwrap().clone(),
            _ => panic!("no object"),
        }
    };
    assert_eq!(nonce(Some("mine".to_string())), "mine");
    assert_eq!(nonce(None).len(), 24);
    assert_ne!(nonce(None), nonce(None));
}

#[test]
fn default_configuration_outlives_its_timestamps() {
    let config = default_config(
        "/home",
        "a@example.com".to_string(),
        String::new(),
        "remote-agent".to_string(),
        "127.0.0.1".to_string(),
        27443,
        None,
    );
    assert!(2 * config.signing.max_skew_seconds <= config.signing.nonce_ttl_seconds);
    assert_eq!(config.server.public_url, "https://127.0.0.1:27443");
    assert_eq!(config.keychain.account, "a@example.com");
    assert_eq!(config.signing.clients[0].secret.len(), 43);
}

#[test]
fn readings_of_the_clock_become_times() {
    assert_eq!(unix_time(None), 0);
    assert_eq!(unix_time(Some(0)), 0);
    assert_eq!(unix_time(Some(1_700_000_000)), 1_700_000_000);
    assert_eq!(unix_time(Some(i64::MAX as u64)), i64::MAX);
    assert_eq!(unix_time(Some(u64::MAX)), -1);
}
