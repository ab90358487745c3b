//! Whole runs of the broker against a make-believe vault program, keychain and
//! user.
use bw_touchid_broker::audit::audit_record_at;
use bw_touchid_broker::bw::LoginOptions;
use bw_touchid_broker::catalog::{Catalog, CatalogEntry};
use bw_touchid_broker::cli::{add_client, show_client};
use bw_touchid_broker::command::{
    BuildCatalogOptions, CommandNext, LoginCommandOptions, VaultCommand,
};
use bw_touchid_broker::config::{
    find_client, ApprovalConfig, AuditConfig, BitwardenConfig, ClientApprovalMode, ClientConfig,
    Config, KeychainConfig, ServerConfig, SigningConfig,
};
use bw_touchid_broker::exchange::{Answer, Next};
use bw_touchid_broker::json::Json;
use bw_touchid_broker::nonce::NonceDb;
use bw_touchid_broker::process::{ProcessOutput, ProcessReply, ProcessSpec};
use bw_touchid_broker::server::{AppState, Request, Route};
use bw_touchid_broker::signing::{now_unix, signed_headers_at, signed_headers_json};
use bw_touchid_broker::textmap::TextMap;
use http::{HeaderMap, HeaderName, HeaderValue, Uri};
use serde_json::Value;

const HOME: &str = "/tmp/broker-home";

fn to_value(j: &Json) -> Value {
    match j {
        Json::Null => Value::Null,
        Json::Bool(b) => Value::Bool(*b),
        Json::Int(n) => Value::from(*n),
        Json::Number(text) => serde_json::from_str(text).unwrap(),
        Json::Text(s) => Value::from(s.as_str()),
        Json::List(items) => Value::Array(items.iter().map(to_value).collect()),
        Json::Object(members) => object_value(members),
    }
}

fn object_value(members: &TextMap<Json>) -> Value {
    Value::Object(members.entries().iter().map(|(k, v)| (k.clone(), to_value(v))).collect())
}

fn value(text: &str) -> Value {
    serde_json::from_str(text).unwrap()
}

fn strings(list: &[&str]) -> Vec<String> {
    list.iter().map(|s| s.to_string()).collect()
}

fn config(port: u16, catalog_mode: bool) -> Config {
    Config {
        server: ServerConfig {
            host: "127.0.0.1".to_string(),
            port,
            public_url: format!("https://127.0.0.1:{port}"),
            tls_cert: format!("{HOME}/server.crt"),
            tls_key: format!("{HOME}/server.key"),
            max_body_bytes: 65_536,
        },
        bitwarden: BitwardenConfig {
            bw_path: format!("{HOME}/fake-bw"),
            server_url: "".to_string(),
            email: "ai-agent@example.com".to_string(),
            appdata_dir: format!("{HOME}/bw-cli"),
            sync_before_read: false,
        },
        keychain: KeychainConfig {
            service: "test".to_string(),
            account: "ai-agent@example.com".to_string(),
            helper_path: format!("{HOME}/fake-keychain"),
        },
        approval: ApprovalConfig { confirm_dialog: false, dialog_timeout_seconds: 1 },
        audit: AuditConfig { enabled: !catalog_mode, path: format!("{HOME}/audit.log") },
        signing: SigningConfig {
            max_skew_seconds: 300,
            nonce_ttl_seconds: 600,
            clients: vec![ClientConfig {
                id: "remote-agent".to_string(),
                secret: "client-secret".to_string(),
                approval: ClientApprovalMode::Prompt,
                allowed_secrets: vec!["*".to_string()],
            }],
        },
    }
}

fn state(config: Config) -> AppState {
    AppState::new(config, HOME.to_string(), None)
}

fn catalog(fields: &[&str], approval_required: bool) -> Catalog {
    let mut secrets = TextMap::new();
    secrets.insert(
        "github_token".to_string(),
        CatalogEntry {
            item_id: "item-1".to_string(),
            kind: "login".to_string(),
            description: "GitHub token".to_string(),
            return_fields: strings(fields),
            approval_required,
            ttl_seconds: 60,
            allowed_clients: strings(&["remote-agent"]),
            metadata: Json::Object(TextMap::new()),
        },
    );
    Catalog { version: 1, secrets }
}

fn printed(success: bool, stdout: &str, stderr: &str) -> ProcessReply {
    ProcessReply::Finished(ProcessOutput {
        success,
        status: if success { "exit status: 0" } else { "exit status: 2" }.to_string(),
        stdout: stdout.as_bytes().to_vec(),
        stderr: stderr.as_bytes().to_vec(),
    })
}

/// What a call looks like in the log of the make-believe vault program: its
/// arguments, and the master password that it was given.
fn call_line(process: &ProcessSpec) -> String {
    let password = process
        .envs
        .iter()
        .find(|(name, _)| name == "BW_BROKER_MASTER_PASSWORD")
        .map(|(_, value)| value.clone())
        .unwrap_or_default();
    format!("{}|{}\n", process.args.join(" "), password)
}

fn unlock(process: &ProcessSpec, session: &str) -> ProcessReply {
    if call_line(process).ends_with("|agent-master\n") {
        printed(true, session, "")
    } else {
        printed(false, "", "bad master\n")
    }
}

fn unexpected(args: &str) -> ProcessReply {
    printed(false, "", &format!("unexpected args: {args}\n"))
}

fn fake_bw(process: &ProcessSpec) -> ProcessReply {
    let args = process.args.join(" ");
    match args.as_str() {
        "--nointeraction status" => printed(true, "{\"status\":\"locked\"}\n", ""),
        "--nointeraction --raw unlock --passwordenv BW_BROKER_MASTER_PASSWORD" => {
            unlock(process, "session-123\n")
        }
        "--nointeraction --session session-123 get item item-1" => printed(
            true,
            "{\"id\":\"item-1\",\"name\":\"GitHub Token\",\"type\":1,\"login\":{\"username\":\"bot\",\"password\":\"token-value\",\"uris\":[{\"uri\":\"https://github.com\"}]}}\n",
            "",
        ),
        "--nointeraction --session session-123 list items --collectionid collection-1 --organizationid org-1" => {
            printed(
                true,
                "[{\"id\":\"item-1\",\"name\":\"GitHub Readonly Token\",\"type\":1,\"organizationId\":\"org-1\",\"collectionIds\":[\"collection-1\"],\"login\":{\"username\":\"bot\",\"password\":\"token-value\",\"uris\":[{\"uri\":\"https://github.com\"}]},\"fields\":[{\"name\":\"scope\",\"value\":\"read\"}]}]\n",
                "",
            )
        }
        "--nointeraction --session session-123 lock" => printed(true, "", ""),
        _ => unexpected(&args),
    }
}

fn fake_two_factor_login_bw(process: &ProcessSpec) -> ProcessReply {
    let args = process.args.join(" ");
    match args.as_str() {
        "--nointeraction status" => printed(true, "{\"status\":\"unauthenticated\"}\n", ""),
        "--nointeraction --raw login ai-agent@example.com --passwordenv BW_BROKER_MASTER_PASSWORD --method 0 --code 123456" => {
            unlock(process, "session-2fa\n")
        }
        "--nointeraction --session session-2fa lock" => printed(true, "", ""),
        _ => unexpected(&args),
    }
}

fn fake_logged_in_server_bw(process: &ProcessSpec) -> ProcessReply {
    let args = process.args.join(" ");
    match args.as_str() {
        "--nointeraction status" => printed(
            true,
            "{\"serverUrl\":\"https://vaultwarden.example.com\",\"status\":\"locked\"}\n",
            "",
        ),
        "--nointeraction --raw unlock --passwordenv BW_BROKER_MASTER_PASSWORD" => {
            unlock(process, "session-123\n")
        }
        "--nointeraction --session session-123 sync" => printed(true, "", ""),
        "--nointeraction --session session-123 list items" => printed(
            true,
            "[{\"id\":\"item-1\",\"name\":\"GitHub Readonly Token\",\"type\":1,\"login\":{\"username\":\"bot\",\"password\":\"token-value\"}}]\n",
            "",
        ),
        "--nointeraction --session session-123 lock" => printed(true, "", ""),
        _ => unexpected(&args),
    }
}

fn failing_bw(process: &ProcessSpec) -> ProcessReply {
    if process.args.join(" ") == "--nointeraction status" {
        printed(true, "{\"status\":\"unauthenticated\"}\n", "")
    } else {
        ProcessReply::Finished(ProcessOutput {
            success: false,
            status: "exit status: 1".to_string(),
            stdout: Vec::new(),
            stderr: b"{\"response\":null,\"statusCode\":422}\n".to_vec(),
        })
    }
}

fn fake_keychain(process: &ProcessSpec) -> ProcessReply {
    match process.args[0].as_str() {
        "exists" => printed(true, "yes\n", ""),
        "read" => printed(true, "agent-master", ""),
        "store" | "delete" => printed(true, "", ""),
        _ => printed(false, "", ""),
    }
}

fn header_map(signed: &Json) -> HeaderMap<HeaderValue> {
    let mut headers = HeaderMap::new();
    if let Json::Object(members) = signed {
        for (key, value) in members.entries() {
            if let Json::Text(text) = value {
                headers.insert(
                    HeaderName::from_bytes(key.as_bytes()).unwrap(),
                    HeaderValue::from_str(text).unwrap(),
                );
            }
        }
    }
    headers
}

fn secret_request(body: &str, nonce: &str) -> Request {
    let signed = signed_headers_json(
        "remote-agent",
        "client-secret",
        "POST",
        "/v1/secret-requests",
        body.as_bytes(),
        nonce,
    )
    .unwrap();
    Request {
        route: Route::Secret,
        target: "/v1/secret-requests".to_string(),
        headers: header_map(&signed),
        body: body.as_bytes().to_vec(),
    }
}

/// The world outside a broker.
struct World {
    nonces: Vec<(String, i64)>,
    dialog: ProcessReply,
    dialogs: usize,
    calls: String,
}

impl World {
    fn new() -> World {
        World {
            nonces: Vec::new(),
            dialog: ProcessReply::NotStarted("no dialog".to_string()),
            dialogs: 0,
            calls: String::new(),
        }
    }

    fn nonce_db(&self) -> NonceDb {
        let mut db = NonceDb::new();
        for (key, at) in &self.nonces {
            db = db.with(key.clone(), *at);
        }
        db
    }

    fn run(&mut self, process: &ProcessSpec) -> ProcessReply {
        if process.program == "osascript" {
            self.dialogs += 1;
            match &self.dialog {
                ProcessReply::NotStarted(cause) => ProcessReply::NotStarted(cause.clone()),
                ProcessReply::Finished(output) => ProcessReply::Finished(ProcessOutput {
                    success: output.success,
                    status: output.status.clone(),
                    stdout: output.stdout.clone(),
                    stderr: output.stderr.clone(),
                }),
            }
        } else if process.program.ends_with("fake-keychain") {
            fake_keychain(process)
        } else {
            self.calls.push_str(&call_line(process));
            fake_bw(process)
        }
    }

    fn answer(&mut self, state: &AppState, request: &Request, catalog: &dyn Fn() -> Catalog) -> Answer {
        let mut next = state.begin(request);
        loop {
            next = match next {
                Next::LoadNonces(caller) => state.nonces_loaded(caller, Ok(self.nonce_db())),
                Next::SaveNonces(caller, db) => {
                    self.nonces = db.entries();
                    state.nonces_saved(request, caller, Ok(()))
                }
                Next::LoadCatalog(wanted) => state.catalog_loaded(wanted, Ok(catalog())),
                Next::Run(pending, process) => {
                    let reply = self.run(&process);
                    state.answered(pending, reply)
                }
                Next::MakeDir(grant, job, dir) => {
                    assert_eq!(dir, format!("{HOME}/bw-cli"));
                    state.dir_made(grant, job, Ok(()))
                }
                Next::Reply(answer) => return answer,
            };
        }
    }
}

/// Runs a command; gives its end and the log of the vault program.
fn run_command(
    config: &Config,
    command: &VaultCommand,
    bw: fn(&ProcessSpec) -> ProcessReply,
) -> (CommandNext, String) {
    let mut calls = String::new();
    let mut next = command.start(config, HOME, None);
    loop {
        next = match next {
            CommandNext::Check(process) => {
                command.read_or_prompt_master_password(config, HOME, None, fake_keychain(&process))
            }
            CommandNext::ReadPassword(process) => {
                command.password_read(config, HOME, None, fake_keychain(&process))
            }
            CommandNext::Prompt => panic!("the keychain has the password"),
            CommandNext::MakeDir(job, _) => command.dir_made(job, Ok(())),
            CommandNext::Run(job, phase, process) => {
                calls.push_str(&call_line(&process));
                let reply = bw(&process);
                command.answered(job, phase, reply)
            }
            end => return (end, calls),
        };
    }
}

fn two_step(method: Option<&str>, code: Option<&str>) -> LoginOptions {
    LoginOptions {
        two_factor_method: method.map(|s| s.to_string()),
        two_factor_code: code.map(|s| s.to_string()),
    }
}

fn build_options() -> BuildCatalogOptions {
    BuildCatalogOptions {
        ask_master_password: false,
        login_options: LoginOptions::default(),
        allowed_client: Vec::new(),
        redact_names: false,
        sync: false,
        ttl_seconds: 60,
        collection_id: None,
        organization_id: None,
    }
}

#[test]
fn signed_secret_request_unlocks_and_fetches_one_item() {
    let state = state(config(27443, false));
    let mut world = World::new();
    let request = secret_request(
        "{\"secret_id\":\"github_token\",\"purpose\":\"unit test clone\",\"run_id\":\"test-run\",\"fields\":[\"username\",\"password\"]}",
        "nonce-1",
    );
    let answer =
        world.answer(&state, &request, &|| catalog(&["username", "password"], false));
    let payload = to_value(&answer.outcome.unwrap());
    assert_eq!(
        payload,
        value(
            "{\"secret_id\":\"github_token\",\"fields\":{\"username\":\"bot\",\"password\":\"token-value\"},\"ttl_seconds\":60}"
        )
    );

    assert!(world.calls.contains("--nointeraction status|"));
    assert!(world.calls.contains(
        "--nointeraction --raw unlock --passwordenv BW_BROKER_MASTER_PASSWORD|agent-master"
    ));
    assert!(world.calls.contains("--nointeraction --session session-123 get item item-1|"));
    let log = answer.log.unwrap();
    let line = audit_record_at(&state.config, &log.event, log.fields, 17).unwrap();
    let line = serde_json::to_string(&to_value(&line)).unwrap();
    assert!(line.contains("\"event\":\"secret_released\""));
    assert_eq!(
        line,
        "{\"client_id\":\"remote-agent\",\"event\":\"secret_released\",\"fields\":[\"username\",\"password\"],\"purpose\":\"unit test clone\",\"run_id\":\"test-run\",\"secret_id\":\"github_token\",\"ts\":17}"
    );
}

#[test]
fn session_is_locked_by_the_last_call() {
    let state = state(config(27443, false));
    let mut world = World::new();
    let request = secret_request(
        "{\"secret_id\":\"github_token\",\"purpose\":\"p\"}",
        "nonce-1",
    );
    let answer = world.answer(&state, &request, &|| catalog(&["password"], false));
    assert!(answer.outcome.is_ok());
    assert!(world.calls.ends_with("--nointeraction --session session-123 lock|\n"));
}

#[test]
fn trusted_client_skips_per_request_approval() {
    let mut config = config(27443, false);
    config.approval.confirm_dialog = true;
    config.signing.clients[0].approval = ClientApprovalMode::Trusted;
    let state = state(config);
    let mut world = World::new();
    let request = secret_request(
        "{\"secret_id\":\"github_token\",\"purpose\":\"trusted client unit test\",\"run_id\":\"test-run\",\"fields\":[\"password\"]}",
        "nonce-trusted",
    );
    let answer = world.answer(&state, &request, &|| catalog(&["password"], true));
    let payload = to_value(&answer.outcome.unwrap());
    assert_eq!(payload["fields"], value("{\"password\":\"token-value\"}"));
    assert_eq!(world.dialogs, 0);
}

#[test]
fn trust_leaves_answer_and_log_alone() {
    let body = "{\"secret_id\":\"github_token\",\"purpose\":\"p\",\"run_id\":\"r\"}";
    let outcome = |approval: ClientApprovalMode| {
        let mut config = config(27443, false);
        config.approval.confirm_dialog = true;
        config.signing.clients[0].approval = approval;
        let mut world = World::new();
        world.dialog = printed(true, "button returned:Allow\n", "");
        let answer = world.answer(&state(config), &secret_request(body, "n"), &|| {
            catalog(&["password"], true)
        });
        let log = answer.log.unwrap();
        (
            to_value(&answer.outcome.unwrap()),
            log.event,
            object_value(&log.fields),
            world.calls,
            world.dialogs,
        )
    };
    let trusted = outcome(ClientApprovalMode::Trusted);
    let prompted = outcome(ClientApprovalMode::Prompt);
    assert_eq!(trusted.0, prompted.0);
    assert_eq!(trusted.1, prompted.1);
    assert_eq!(trusted.2, prompted.2);
    assert_eq!(trusted.3, prompted.3);
    assert_eq!((trusted.4, prompted.4), (0, 1));
}

#[test]
fn other_client_is_asked_about_and_the_denial_is_logged() {
    let mut config = config(27443, false);
    config.approval.confirm_dialog = true;
    let state = state(config);
    let mut world = World::new();
    world.dialog = printed(true, "button returned:Deny, gave up:false\n", "");
    let body = "{\"secret_id\":\"github_token\",\"purpose\":\"p\",\"run_id\":\"r\"}";
    let answer = world.answer(&state, &secret_request(body, "n1"), &|| {
        catalog(&["password"], true)
    });
    let error = answer.outcome.unwrap_err();
    assert_eq!(error.status, 403);
    assert_eq!(error.message, "secret request was not approved");
    let log = answer.log.unwrap();
    assert_eq!(log.event, "secret_denied");
    assert_eq!(
        object_value(&log.fields),
        value("{\"client_id\":\"remote-agent\",\"secret_id\":\"github_token\",\"purpose\":\"p\",\"run_id\":\"r\"}")
    );
    assert_eq!(world.dialogs, 1);
    assert_eq!(world.calls, "");

    world.dialog = printed(true, "button returned:Allow, gave up:false\n", "");
    let answer = world.answer(&state, &secret_request(body, "n2"), &|| {
        catalog(&["password"], true)
    });
    assert!(answer.outcome.is_ok());
    assert_eq!(world.dialogs, 2);

    world.dialog = ProcessReply::NotStarted("No such file".to_string());
    let answer = world.answer(&state, &secret_request(body, "n3"), &|| {
        catalog(&["password"], true)
    });
    assert_eq!(answer.outcome.unwrap_err().message, "No such file");
}

#[test]
fn replayed_request_is_refused() {
    let state = state(config(27443, false));
    let mut world = World::new();
    let request = secret_request(
        "{\"secret_id\":\"github_token\",\"purpose\":\"p\"}",
        "nonce-1",
    );
    let first = world.answer(&state, &request, &|| catalog(&["password"], false));
    assert!(first.outcome.is_ok());
    let again = world.answer(&state, &request, &|| catalog(&["password"], false));
    let error = again.outcome.unwrap_err();
    assert_eq!(error.status, 401);
    assert_eq!(error.message, "replay detected for request nonce");
    assert_eq!(to_value(&error.body()), value("{\"error\":\"replay detected for request nonce\"}"));
}

#[test]
fn nonce_gives_a_request_away_as_long_as_it_lives() {
    let state = state(config(27443, false));
    let headers =
        signed_headers_at("remote-agent", "client-secret", "POST", "/t", b"{}", "n", 300).unwrap();
    let request = Request {
        route: Route::Secret,
        target: "/t".to_string(),
        headers: header_map(&headers),
        body: b"{}".to_vec(),
    };
    let caller = |now: i64| match state.begin_at(&request, now) {
        Next::LoadNonces(caller) => caller,
        _ => panic!("not accepted"),
    };
    let kept = match state.nonces_loaded_at(caller(0), Ok(NonceDb::new()), 0) {
        Next::SaveNonces(_, db) => db.entries(),
        _ => panic!("refused"),
    };
    let again = |nonce_at: i64| {
        let mut db = NonceDb::new();
        for (key, at) in &kept {
            db = db.with(key.clone(), *at);
        }
        state.nonces_loaded_at(caller(600), Ok(db), nonce_at)
    };
    match again(600) {
        Next::Reply(answer) => {
            let error = answer.outcome.unwrap_err();
            assert_eq!(error.status, 401);
            assert_eq!(error.message, "replay detected for request nonce");
        }
        _ => panic!("accepted again"),
    }
    assert!(matches!(again(601), Next::SaveNonces(_, _)));
}

#[test]
fn catalog_request_shows_what_is_meant_for_the_client() {
    let state = state(config(27443, false));
    let mut world = World::new();
    let signed = signed_headers_json(
        "remote-agent",
        "client-secret",
        "GET",
        "/v1/catalog?x=1",
        b"",
        "n",
    )
    .unwrap();
    let request = Request {
        route: Route::Catalog,
        target: "/v1/catalog?x=1".to_string(),
        headers: header_map(&signed),
        body: b"not part of what is signed".to_vec(),
    };
    let answer = world.answer(&state, &request, &|| catalog(&["password"], true));
    assert!(answer.log.is_none());
    assert_eq!(
        to_value(&answer.outcome.unwrap()),
        value("{\"version\":1,\"secrets\":[{\"id\":\"github_token\",\"kind\":\"login\",\"description\":\"GitHub token\",\"login_urls\":[],\"return_fields\":[\"password\"],\"approval_required\":true,\"ttl_seconds\":60}]}")
    );
}

#[test]
fn request_is_refused_at_the_door() {
    let state = state(config(27443, false));
    let body = "{}";
    let refused = |request: &Request, now: i64| match state.begin_at(request, now) {
        Next::Reply(answer) => answer.outcome.unwrap_err(),
        _ => panic!("not refused"),
    };
    let signed = |id: &str, secret: &str, at: i64| {
        let headers =
            signed_headers_at(id, secret, "POST", "/t", body.as_bytes(), "n", at).unwrap();
        Request {
            route: Route::Secret,
            target: "/t".to_string(),
            headers: header_map(&headers),
            body: body.as_bytes().to_vec(),
        }
    };

    let mut request = signed("remote-agent", "client-secret", 1000);
    assert!(matches!(state.begin_at(&request, 1300), Next::LoadNonces(_)));
    assert_eq!(refused(&request, 1301).status, 401);

    request.body = vec![b' '; 65_537];
    let error = refused(&request, 1000);
    assert_eq!((error.status, error.message.as_str()), (413, "request body too large"));

    let error = refused(&signed("stranger", "client-secret", 1000), 1000);
    assert_eq!((error.status, error.message.as_str()), (401, "unknown client id"));

    let error = refused(&signed("remote-agent", "other-secret", 1000), 1000);
    assert_eq!(error.status, 401);

    request = signed("remote-agent", "client-secret", 1000);
    request.headers.remove("x-bw-broker-client-id");
    let error = refused(&request, 1000);
    assert_eq!((error.status, error.message.as_str()), (401, "missing client id"));
}

#[test]
fn request_for_more_than_is_granted_is_refused() {
    let state = state(config(27443, false));
    let refused = |body: &str| {
        let mut world = World::new();
        let answer = world.answer(&state, &secret_request(body, "n"), &|| {
            catalog(&["password"], false)
        });
        assert_eq!(world.calls, "");
        let error = answer.outcome.unwrap_err();
        (error.status, error.message)
    };
    assert_eq!(refused("{"), (400, "invalid JSON request body".to_string()));
    assert_eq!(refused("{\"purpose\":\"p\"}"), (400, "missing secret_id".to_string()));
    assert_eq!(refused("{\"secret_id\":\"s\"}"), (400, "missing purpose".to_string()));
    assert_eq!(
        refused("{\"secret_id\":\"s\",\"purpose\":\"p\"}"),
        (403, "unknown secret id: s".to_string())
    );
    assert_eq!(
        refused("{\"secret_id\":\"github_token\",\"purpose\":\"p\",\"fields\":[7]}"),
        (400, "fields must be strings".to_string())
    );
    assert_eq!(
        refused("{\"secret_id\":\"github_token\",\"purpose\":\"p\",\"fields\":[\"password\",\"totp\"]}"),
        (403, "field is not allowed for this secret: totp".to_string())
    );
}

#[test]
fn client_without_permission_is_refused() {
    let mut config = config(27443, false);
    config.signing.clients[0].allowed_secrets = strings(&["other"]);
    let state = state(config);
    let mut world = World::new();
    let request =
        secret_request("{\"secret_id\":\"github_token\",\"purpose\":\"p\"}", "n");
    let error = world
        .answer(&state, &request, &|| catalog(&["password"], false))
        .outcome
        .unwrap_err();
    assert_eq!(error.status, 403);
    assert_eq!(error.message, "client is not allowed to request this secret");
}

#[test]
fn faults_outside_become_refusals() {
    let state = state(config(27443, false));
    let request =
        secret_request("{\"secret_id\":\"github_token\",\"purpose\":\"p\"}", "n");
    let caller = || match state.begin(&request) {
        Next::LoadNonces(caller) => caller,
        _ => panic!("not accepted"),
    };
    let refusal = |next: Next| match next {
        Next::Reply(answer) => {
            let error = answer.outcome.unwrap_err();
            (error.status, error.message)
        }
        _ => panic!("not refused"),
    };
    let text = || "broken".to_string();
    assert_eq!(refusal(state.nonces_loaded(caller(), Err(text()))), (401, text()));
    assert_eq!(refusal(state.nonces_saved(&request, caller(), Err(text()))), (401, text()));
    let wanted = match state.nonces_saved(&request, caller(), Ok(())) {
        Next::LoadCatalog(wanted) => wanted,
        _ => panic!("no catalog asked for"),
    };
    assert_eq!(refusal(state.catalog_loaded(wanted, Err(text()))), (400, text()));
    let crashed = bw_touchid_broker::server::fetch_crashed(text());
    assert_eq!((crashed.status, crashed.message), (500, text()));
}

#[test]
fn build_catalog_uses_stored_master_password_and_lists_items() {
    let config = config(27443, true);
    let command = VaultCommand::BuildCatalog(BuildCatalogOptions {
        allowed_client: strings(&["remote-agent"]),
        collection_id: Some("collection-1".to_string()),
        organization_id: Some("org-1".to_string()),
        ..build_options()
    });
    let (end, calls) = run_command(&config, &command, fake_bw);
    let catalog = match end {
        CommandNext::Built(catalog) => catalog,
        _ => panic!("no catalog"),
    };
    let entry = catalog.secrets.get("github_readonly_token").unwrap();
    assert_eq!(entry.item_id, "item-1");
    assert_eq!(entry.allowed_clients, strings(&["remote-agent"]));
    assert_eq!(
        entry.return_fields,
        strings(&["username", "password", "uris", "custom.scope"])
    );
    let metadata = to_value(&entry.metadata);
    assert_eq!(metadata["organization_id"], "org-1");
    assert_eq!(metadata["collection_ids"], value("[\"collection-1\"]"));
    assert!(calls.contains("--nointeraction --session session-123 list items --collectionid collection-1 --organizationid org-1|"));
}

#[test]
fn build_catalog_skips_server_config_when_profile_is_already_logged_in() {
    let mut config = config(27443, true);
    config.bitwarden.server_url = "https://vaultwarden.example.com".to_string();
    let command =
        VaultCommand::BuildCatalog(BuildCatalogOptions { sync: true, ..build_options() });
    let (end, calls) = run_command(&config, &command, fake_logged_in_server_bw);
    assert!(matches!(end, CommandNext::Built(_)));

    assert!(!calls.contains("config server"));
    assert!(calls.contains(
        "--nointeraction --raw unlock --passwordenv BW_BROKER_MASTER_PASSWORD|agent-master"
    ));
    assert!(calls.contains("--nointeraction --session session-123 sync|"));
    assert!(calls.contains("--nointeraction --session session-123 list items|"));
}

#[test]
fn login_command_passes_two_factor_options() {
    let config = config(27443, true);
    let command = VaultCommand::Login(LoginCommandOptions {
        ask_master_password: false,
        login_options: two_step(Some("0"), Some("123456")),
    });
    let (end, calls) = run_command(&config, &command, fake_two_factor_login_bw);
    assert!(matches!(end, CommandNext::LoggedIn));

    assert!(calls.contains("--nointeraction status|"));
    assert!(calls.contains("--nointeraction --raw login ai-agent@example.com --passwordenv BW_BROKER_MASTER_PASSWORD --method 0 --code 123456|agent-master"));
    assert!(calls.contains("--nointeraction --session session-2fa lock|"));
}

#[test]
fn login_command_requires_method_and_code_pair() {
    let config = config(27443, true);
    let command = VaultCommand::Login(LoginCommandOptions {
        ask_master_password: false,
        login_options: two_step(Some("0"), None),
    });
    let (end, calls) = run_command(&config, &command, fake_bw);
    let err = match end {
        CommandNext::Failed(e) => e.message(),
        _ => panic!("not refused"),
    };
    assert!(err.contains("--method requires --code"));
    assert!(calls.is_empty());

    let command = VaultCommand::BuildCatalog(BuildCatalogOptions {
        login_options: two_step(None, Some("1")),
        ..build_options()
    });
    match run_command(&config, &command, fake_bw).0 {
        CommandNext::Failed(e) => {
            assert_eq!(e.full_message(), "--login-code requires --login-method")
        }
        _ => panic!("not refused"),
    }
}

#[test]
fn master_password_is_asked_for_where_it_has_to_be() {
    let config = config(27443, true);
    let login = |ask: bool| {
        VaultCommand::Login(LoginCommandOptions {
            ask_master_password: ask,
            login_options: LoginOptions::default(),
        })
    };
    assert!(matches!(login(true).start(&config, HOME, None), CommandNext::Prompt));
    let command = login(false);
    assert!(matches!(command.start(&config, HOME, None), CommandNext::Check(_)));
    let missing = printed(false, "", "");
    assert!(matches!(
        command.read_or_prompt_master_password(&config, HOME, None, missing),
        CommandNext::Prompt
    ));
    match command.password_typed(&config, HOME, None, "agent-master".to_string()) {
        CommandNext::MakeDir(job, dir) => {
            assert_eq!(job.master_password, "agent-master");
            assert_eq!(dir, format!("{HOME}/bw-cli"));
        }
        _ => panic!("no directory asked for"),
    }
    match command.password_read(&config, HOME, None, printed(false, "", "no\n")) {
        CommandNext::Failed(e) => assert_eq!(e.message(), "no"),
        _ => panic!("not refused"),
    }
}

#[test]
fn add_client_command_generates_secret_and_trust_policy() {
    let mut updated = config(27443, true);
    let shown = add_client(&mut updated, "ci-agent", strings(&["github_token"]), true).unwrap();
    let client = find_client(&updated, "ci-agent").unwrap();
    assert_eq!(client.approval, ClientApprovalMode::Trusted);
    assert_eq!(client.allowed_secrets, vec!["github_token".to_string()]);
    assert!(client.secret.len() >= 32);
    assert_eq!(client.secret.len(), 43);
    assert_eq!(to_value(&shown)["client_secret"], client.secret.as_str());
    assert_eq!(to_value(&shown), to_value(&show_client(&updated, "ci-agent").unwrap()));

    let again = add_client(&mut updated, "ci-agent", Vec::new(), false).unwrap_err();
    assert_eq!(again.message(), "client already exists: ci-agent");
    assert_eq!(updated.signing.clients.len(), 2);
}

#[test]
fn bw_failure_reports_redacted_command() {
    let mut config = config(27443, true);
    config.bitwarden.bw_path = format!("{HOME}/failing-bw");
    let command = VaultCommand::BuildCatalog(BuildCatalogOptions {
        allowed_client: strings(&["remote-agent"]),
        login_options: two_step(Some("0"), Some("123456")),
        ..build_options()
    });
    let err = match run_command(&config, &command, failing_bw).0 {
        CommandNext::Failed(e) => e.message(),
        _ => panic!("not failed"),
    };
    assert!(err.contains("bw command failed: `"));
    assert!(
        err.contains("--raw login ai-agent@example.com --passwordenv BW_BROKER_MASTER_PASSWORD")
    );
    assert!(err.contains("--method 0 --code <redacted>"));
    assert!(err.contains("statusCode\":422"));
    assert!(!err.contains("agent-master"));
    assert!(!err.contains("123456"));
    assert_eq!(
        err,
        "bw command failed: `/tmp/broker-home/failing-bw --nointeraction --raw login ai-agent@example.com --passwordenv BW_BROKER_MASTER_PASSWORD --method 0 --code <redacted>` exited with exit status: 1; output: {\"response\":null,\"statusCode\":422}"
    );
}

#[test]
fn broker_says_how_it_is_reached() {
    let config = config(27443, false);
    assert_eq!(bw_touchid_broker::server::listen_address(&config), "127.0.0.1:27443");
    assert_eq!(to_value(&bw_touchid_broker::server::health()), value("{\"ok\":true}"));
    assert!(bw_touchid_broker::server::tls_ready(true, true).is_ok());
    assert_eq!(
        bw_touchid_broker::server::tls_ready(true, false).unwrap_err(),
        "missing TLS certificate/key; run `bw-broker bootstrap`"
    );
}

#[test]
fn clock_shows_the_present() {
    assert!(now_unix() > 1_700_000_000);
}

#[test]
fn target_is_the_exact_path_with_its_query() {
    let target = |text: &str| {
        let uri: Uri = text.parse().unwrap();
        bw_touchid_broker::server::target(&uri)
    };
    assert_eq!(target("/v1/catalog?a=1&b=%20"), "/v1/catalog?a=1&b=%20");
    assert_eq!(target("https://127.0.0.1:27443/v1/catalog?x=1"), "/v1/catalog?x=1");
    assert_eq!(target("/v1/secret-requests"), "/v1/secret-requests");
    assert_eq!(target("example.com:443"), "");
    assert_eq!(bw_touchid_broker::server::exact_target(None, "/p"), "/p");
}
