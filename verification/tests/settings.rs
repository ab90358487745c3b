//! The configuration and the commands on it.
use bw_touchid_broker::cli::{
    add_client_with_secret, first_client_settings, list_clients, passwords_match, show_client,
    InitNext, InitOptions,
};
use bw_touchid_broker::config::{
    catalog_path, config_path, default_config, default_dialog_timeout, default_home,
    default_max_body_bytes, default_max_skew, default_nonce_ttl, default_true, expand_path,
    find_client, nonce_path, set_client_approval, ClientApprovalMode, Config,
};
use bw_touchid_broker::json::Json;
use bw_touchid_broker::text::{
    contains_text, decimal_text, join, parse_i64, signed_decimal_text, strip_prefix,
    to_ascii_uppercase, trim,
};

fn config() -> Config {
    default_config(
        "/home",
        String::new(),
        String::new(),
        "remote-agent".to_string(),
        "127.0.0.1".to_string(),
        27443,
        Some("https://public".to_string()),
    )
}

fn text(j: &Json, key: &str) -> String {
    j.text_at(key).unwrap().clone()
}

#[test]
fn paths_are_resolved() {
    assert_eq!(expand_path("$BW_BROKER_HOME/a", "/h", None), "/h/a");
    assert_eq!(expand_path("$BW_BROKER_HOME", "/h", None), "/h");
    assert_eq!(expand_path("$BW_BROKER_HOMEX", "/h", None), "$BW_BROKER_HOMEX");
    assert_eq!(expand_path("~/a", "/h", Some("/u")), "/u/a");
    assert_eq!(expand_path("~/a", "/h", None), "~/a");
    assert_eq!(expand_path("/abs", "/h", Some("/u")), "/abs");
    assert_eq!(config_path("/h"), "/h/config.json");
    assert_eq!(catalog_path("/h/"), "/h/catalog.json");
    assert_eq!(nonce_path(""), "nonces.json");
    assert_eq!(default_home(Some("/b"), Some("/u")), Some("/b".to_string()));
    assert_eq!(default_home(None, Some("/u")), Some("/u/.bw-broker".to_string()));
    assert_eq!(default_home(None, None), None);
}

#[test]
fn defaults_have_their_values() {
    assert!(default_true());
    assert_eq!(default_dialog_timeout(), 120);
    assert_eq!(default_max_skew(), 300);
    assert_eq!(default_nonce_ttl(), 600);
    assert_eq!(default_max_body_bytes(), 65_536);
    let config = config();
    assert_eq!(config.keychain.account, "ai-agent@example.com");
    assert_eq!(config.bitwarden.email, "");
    assert_eq!(config.bitwarden.appdata_dir, "$BW_BROKER_HOME/bw-cli");
    assert_eq!(config.server.public_url, "https://public");
    assert_eq!(config.signing.clients[0].allowed_secrets, vec!["*".to_string()]);
    assert!(ClientApprovalMode::Trusted.is_trusted());
    assert!(!ClientApprovalMode::default().is_trusted());
}

#[test]
fn configuration_is_replaced_only_on_demand() {
    let mut options = InitOptions {
        email: None,
        server_url: None,
        client_id: "remote-agent".to_string(),
        host: "127.0.0.1".to_string(),
        port: 27443,
        public_url: None,
        force: false,
    };
    match options.init("/h", true) {
        InitNext::Failed(e) => assert_eq!(
            e.message(),
            "config already exists: /h/config.json; use --force to replace it"
        ),
        _ => panic!("replaced"),
    }
    assert!(matches!(options.init("/h", false), InitNext::AskEmail));
    options.force = true;
    assert!(matches!(options.init("/h", true), InitNext::AskEmail));
    options.email = Some("a@example.com".to_string());
    assert!(matches!(options.init("/h", true), InitNext::AskServerUrl));
    options.server_url = Some(String::new());
    match options.init("/h", true) {
        InitNext::Write(config) => {
            assert_eq!(config.bitwarden.email, "a@example.com");
            assert_eq!(config.server.public_url, "https://127.0.0.1:27443");
            assert_eq!(config.signing.clients[0].id, "remote-agent");
        }
        _ => panic!("nothing to write"),
    }
    let mut config = config();
    let settings = first_client_settings(&config).unwrap();
    assert_eq!(text(&settings, "broker_url"), "https://public");
    assert_eq!(text(&settings, "client_id"), "remote-agent");
    assert_eq!(text(&settings, "client_secret"), config.signing.clients[0].secret);
    config.signing.clients.clear();
    assert!(first_client_settings(&config).is_none());
}

#[test]
fn added_client_is_found_and_the_others_stay() {
    let mut config = config();
    let first = config.signing.clients[0].secret.clone();
    let shown =
        add_client_with_secret(&mut config, "ci", Vec::new(), false, "s3cret".to_string()).unwrap();
    assert_eq!(text(&shown, "client_secret"), "s3cret");
    assert_eq!(text(&shown, "approval"), "prompt");
    assert_eq!(find_client(&config, "ci").unwrap().allowed_secrets, vec!["*".to_string()]);
    assert_eq!(find_client(&config, "remote-agent").unwrap().secret, first);
    assert!(find_client(&config, "other").is_none());
    assert_eq!(
        show_client(&config, "other").unwrap_err().message(),
        "unknown client id: other"
    );
}

#[test]
fn listing_hides_secrets() {
    let mut config = config();
    let one = format!("{:?}", list_clients(&config));
    config.signing.clients[0].secret = "another".to_string();
    let two = format!("{:?}", list_clients(&config));
    assert_eq!(one, two);
    assert!(one.contains("<redacted>"));
}

#[test]
fn approval_is_set_and_undone() {
    let mut config = config();
    set_client_approval(&mut config, "remote-agent", ClientApprovalMode::Trusted).unwrap();
    assert!(config.signing.clients[0].approval.is_trusted());
    set_client_approval(&mut config, "remote-agent", ClientApprovalMode::Prompt).unwrap();
    assert!(!config.signing.clients[0].approval.is_trusted());
    assert_eq!(
        set_client_approval(&mut config, "x", ClientApprovalMode::Trusted)
            .unwrap_err()
            .message(),
        "unknown client id: x"
    );
}

#[test]
fn passwords_are_typed_alike() {
    assert!(passwords_match("a", "a").is_ok());
    assert_eq!(passwords_match("a", "b").unwrap_err(), "passwords did not match");
}

#[test]
fn text_is_handled_as_text() {
    assert_eq!(trim(" \t\u{3000}a b\n"), "a b");
    assert_eq!(join(&["a".to_string(), "b".to_string()], ", "), "a, b");
    assert!(contains_text("xaby", "ab"));
    assert!(contains_text("x", ""));
    assert!(!contains_text("ab", "abc"));
    assert_eq!(strip_prefix("abc", "ab"), Some("c".to_string()));
    assert_eq!(strip_prefix("abc", "b"), None);
    assert_eq!(to_ascii_uppercase("aZ\u{e4}"), "AZ\u{e4}");
    assert_eq!(decimal_text(u64::MAX), "18446744073709551615");
    assert_eq!(decimal_text(0), "0");
    assert_eq!(signed_decimal_text(i64::MIN), "-9223372036854775808");
}

#[test]
fn decimal_numbers_read_back() {
    for n in [0, 7, -7, 1_700_000_000, i64::MAX, i64::MIN] {
        assert_eq!(parse_i64(&signed_decimal_text(n)), Some(n));
    }
    assert_eq!(parse_i64("+5"), Some(5));
    assert_eq!(parse_i64("007"), Some(7));
    for bad in ["", "-", "+", "1x", " 1", "9223372036854775808", "-9223372036854775809"] {
        assert_eq!(parse_i64(bad), None);
    }
}
