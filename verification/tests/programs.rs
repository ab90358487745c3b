//! The programs that the broker runs, and what it makes of their answers.
use bw_touchid_broker::approval::{applescript_string, confirm_request, read_confirmation};
use bw_touchid_broker::audit::{audit_event, audit_path, audit_record_at, write_audit};
use bw_touchid_broker::bw::{
    redacted_display_args, BitwardenCli, BwError, LoginOptions, UnlockNext, UnlockPhase,
};
use bw_touchid_broker::certs::{ensure_self_signed_cert, CertNext, CertPlan};
use bw_touchid_broker::config::{default_config, Config};
use bw_touchid_broker::json::parse_json;
use bw_touchid_broker::keychain::{
    build_helper, delete_master_password, has_master_password, helper_path, read_built,
    read_deleted, read_exists, read_master_password, read_password, read_stored, self_test,
    store_master_password, SelfTest, TestNext,
};
use bw_touchid_broker::process::{ProcessOutput, ProcessReply, ProcessSpec};
use bw_touchid_broker::vault::{VaultData, VaultJob, VaultNext, VaultTask};

fn config() -> Config {
    default_config(
        "/home",
        "a@example.com".to_string(),
        "https://vault.example.com".to_string(),
        "remote-agent".to_string(),
        "127.0.0.1".to_string(),
        27443,
        None,
    )
}

fn strings(list: &[&str]) -> Vec<String> {
    list.iter().map(|s| s.to_string()).collect()
}

fn finished(success: bool, stdout: &[u8], stderr: &[u8]) -> ProcessReply {
    ProcessReply::Finished(ProcessOutput {
        success,
        status: if success { "exit status: 0" } else { "exit status: 1" }.to_string(),
        stdout: stdout.to_vec(),
        stderr: stderr.to_vec(),
    })
}

fn not_started() -> ProcessReply {
    ProcessReply::NotStarted("no such file".to_string())
}

fn cli() -> BitwardenCli {
    BitwardenCli::new(&config(), "/home", None)
}

fn phase_of(next: &UnlockNext) -> Option<UnlockPhase> {
    match next {
        UnlockNext::Run(phase, _) => Some(*phase),
        _ => None,
    }
}

fn step(cli: &BitwardenCli, phase: UnlockPhase, reply: ProcessReply) -> UnlockNext {
    cli.unlock_step("pw", &LoginOptions::default(), phase, reply)
}

fn failure(next: UnlockNext) -> BwError {
    match next {
        UnlockNext::Failed(e) => e,
        _ => panic!("not failed"),
    }
}

#[test]
fn calls_run_in_the_profile_of_the_broker() {
    let process = cli().run(&strings(&["sync"]), Some("key"), Some("pw"), true);
    assert_eq!(process.program, "bw");
    assert_eq!(
        process.args,
        strings(&["--nointeraction", "--raw", "--session", "key", "sync"])
    );
    assert_eq!(
        process.envs,
        vec![
            ("BITWARDENCLI_APPDATA_DIR".to_string(), "/home/bw-cli".to_string()),
            ("BW_NOINTERACTION".to_string(), "true".to_string()),
            ("BW_BROKER_MASTER_PASSWORD".to_string(), "pw".to_string()),
        ]
    );
    assert!(process.stdin.is_none());
}

#[test]
fn shown_command_hides_session_and_code() {
    assert_eq!(
        cli().display_command(&strings(&["x", "--code", "1", "2"]), Some("key"), true),
        "bw --nointeraction --raw --session <redacted> x --code <redacted> 2"
    );
    assert_eq!(
        redacted_display_args(&strings(&["--code", "--code", "1", "--code"])),
        strings(&["--code", "<redacted>", "1", "--code"])
    );
}

#[test]
fn opening_a_session_goes_by_the_state_of_the_profile() {
    let cli = cli();
    let first = cli.unlock_or_login("pw");
    assert_eq!(phase_of(&first), Some(UnlockPhase::FirstStatus));

    let elsewhere = b"{\"serverUrl\":\"https://other\",\"status\":\"unauthenticated\"}";
    let next = step(&cli, UnlockPhase::FirstStatus, finished(true, elsewhere, b""));
    assert_eq!(phase_of(&next), Some(UnlockPhase::ConfigureServer));
    match next {
        UnlockNext::Run(_, process) => assert_eq!(
            process.args,
            strings(&["--nointeraction", "config", "server", "https://vault.example.com"])
        ),
        _ => panic!("no call"),
    }
    let next = step(&cli, UnlockPhase::ConfigureServer, finished(true, b"", b""));
    assert_eq!(phase_of(&next), Some(UnlockPhase::SecondStatus));

    let here = b"{\"serverUrl\":\"https://vault.example.com\",\"status\":\"locked\"}";
    let next = step(&cli, UnlockPhase::FirstStatus, finished(true, here, b""));
    assert_eq!(phase_of(&next), Some(UnlockPhase::SecondStatus));
    let next = step(&cli, UnlockPhase::SecondStatus, finished(true, here, b""));
    assert_eq!(phase_of(&next), Some(UnlockPhase::Unlocking));
    let next = step(&cli, UnlockPhase::SecondStatus, finished(true, elsewhere, b""));
    assert_eq!(phase_of(&next), Some(UnlockPhase::LoggingIn));
    match step(&cli, UnlockPhase::Unlocking, finished(true, b" key\n", b"")) {
        UnlockNext::Session(key) => assert_eq!(key, "key"),
        _ => panic!("no session"),
    }
}

#[test]
fn opening_a_session_can_fail_in_many_ways() {
    let mut cli = cli();
    let error = failure(step(&cli, UnlockPhase::FirstStatus, not_started()));
    assert_eq!(error.message(), "failed to run bw");
    assert_eq!(error.full_message(), "failed to run bw: no such file");

    let other = b"{\"serverUrl\":\"https://other\",\"status\":\"locked\"}";
    let error = failure(step(&cli, UnlockPhase::FirstStatus, finished(true, other, b"")));
    assert_eq!(
        error.message(),
        "bw profile is logged in to server `https://other`, but broker config requires `https://vault.example.com`; log out of the isolated broker profile before changing server URL"
    );

    let error = failure(step(&cli, UnlockPhase::FirstStatus, finished(true, b"{", b"")));
    assert!(matches!(error, BwError::BadOutput(_)));

    let error = failure(step(&cli, UnlockPhase::Unlocking, finished(false, b" out \n", b"")));
    assert_eq!(
        error.message(),
        "bw command failed: `bw --nointeraction --raw unlock --passwordenv BW_BROKER_MASTER_PASSWORD` exited with exit status: 1; output: out"
    );
    let error = failure(step(&cli, UnlockPhase::Unlocking, finished(true, b" \n", b"")));
    assert_eq!(error.message(), "bw did not return a session key");
    let error = failure(step(&cli, UnlockPhase::Unlocking, finished(true, b"\xff", b"")));
    assert!(error.message().contains("utf-8"));

    cli.email = String::new();
    let fresh = b"{\"status\":\"unauthenticated\"}";
    let error = failure(step(&cli, UnlockPhase::SecondStatus, finished(true, fresh, b"")));
    assert_eq!(
        error.message(),
        "bw is unauthenticated and bitwarden.email is not configured"
    );

    let half = LoginOptions { two_factor_method: None, two_factor_code: Some("1".to_string()) };
    let error = failure(cli.unlock_or_login_with_options("pw", &half));
    assert_eq!(error.message(), "two-step login code requires two-step login method");
    assert!(half.validate().is_err());
}

#[test]
fn server_is_left_alone_where_none_is_configured() {
    let mut cli = cli();
    assert!(cli.configure_server().is_some());
    let status = parse_json(b"{\"serverUrl\":\"https://other\",\"status\":\"locked\"}").unwrap();
    assert!(cli.ensure_server_for_status(&status).is_err());
    cli.server_url = String::new();
    assert!(cli.configure_server().is_none());
    assert!(!cli.ensure_server_for_status(&status).unwrap());
    assert!(cli.lock(None).is_none());
}

fn job(task: VaultTask, sync: bool) -> VaultJob {
    let mut cli = cli();
    cli.server_url = String::new();
    VaultJob {
        cli,
        master_password: "pw".to_string(),
        login_options: LoginOptions::default(),
        sync,
        task,
    }
}

/// Runs a job; gives its outcome and its commands.
fn run_job(
    job: &VaultJob,
    answer: fn(&str) -> ProcessReply,
) -> (Result<VaultData, BwError>, Vec<String>) {
    let mut commands = Vec::new();
    let mut next = job.start();
    loop {
        match next {
            VaultNext::Run(phase, process) => {
                let command = process.args.join(" ");
                let reply = answer(&command);
                commands.push(command);
                next = job.step(phase, reply);
            }
            VaultNext::Finished(outcome) => return (outcome, commands),
        }
    }
}

fn vault(command: &str) -> ProcessReply {
    if command.ends_with("status") {
        finished(true, b"{\"status\":\"locked\"}", b"")
    } else if command.contains("unlock") {
        finished(true, b"key", b"")
    } else if command.contains("list items") {
        finished(true, b"[{},{}]", b"")
    } else if command.contains("get item") {
        finished(true, b"{\"id\":\"i\"}", b"")
    } else {
        finished(true, b"", b"")
    }
}

fn vault_without_sync(command: &str) -> ProcessReply {
    if command.ends_with("sync") {
        finished(false, b"", b"offline")
    } else {
        vault(command)
    }
}

fn broken_vault(command: &str) -> ProcessReply {
    if command.contains("get item") || command.ends_with("lock") {
        not_started()
    } else {
        vault(command)
    }
}

#[test]
fn job_brings_what_it_is_for() {
    let (outcome, commands) = run_job(&job(VaultTask::Login, false), vault);
    assert!(matches!(outcome, Ok(VaultData::LoggedIn)));
    assert_eq!(commands.len(), 4);
    let list = VaultTask::List { collection_id: None, organization_id: None };
    match run_job(&job(list, true), vault) {
        (Ok(VaultData::Items(items)), commands) => {
            assert_eq!(items.len(), 2);
            assert_eq!(commands[3], "--nointeraction --session key sync");
            assert_eq!(commands[4], "--nointeraction --session key list items");
        }
        _ => panic!("no items"),
    }
    match run_job(&job(VaultTask::Read { item_id: "i".to_string() }, false), vault) {
        (Ok(VaultData::Item(item)), _) => assert_eq!(item.text_at("id").unwrap(), "i"),
        _ => panic!("no item"),
    }
}

#[test]
fn job_locks_what_it_opened_even_when_it_fails() {
    let read = || VaultTask::Read { item_id: "i".to_string() };
    let (outcome, commands) = run_job(&job(read(), true), vault_without_sync);
    assert_eq!(
        outcome.unwrap_err().message(),
        "bw command failed: `bw --nointeraction --session <redacted> sync` exited with exit status: 1; output: offline"
    );
    assert_eq!(commands.last().unwrap(), "--nointeraction --session key lock");
    let (outcome, commands) = run_job(&job(read(), false), broken_vault);
    assert_eq!(outcome.unwrap_err().message(), "failed to run bw");
    assert_eq!(commands.last().unwrap(), "--nointeraction --session key lock");
}

#[test]
fn keychain_is_called_for_the_configured_account() {
    let config = config();
    assert_eq!(helper_path(&config, "/home", None), "/home/bin/bw-broker-keychain");
    let account = ["--service", "bw-touchid-broker.master-password", "--account", "a@example.com"];
    let args = |command: &str, rest: &[&str]| {
        let mut all = vec![command];
        all.extend(account);
        all.extend(rest);
        strings(&all)
    };
    let store = store_master_password(&config, "/home", None, "pw");
    assert_eq!(store.program, "/home/bin/bw-broker-keychain");
    assert_eq!(store.args, args("store", &[]));
    assert_eq!(store.stdin.as_deref(), Some("pw"));
    let read = read_master_password(&config, "/home", None, "why");
    assert_eq!(read.args, args("read", &["--reason", "why"]));
    assert_eq!(has_master_password(&config, "/home", None).args, args("exists", &[]));
    assert_eq!(delete_master_password(&config, "/home", None).args, args("delete", &[]));
}

#[test]
fn keychain_answers_are_read() {
    assert!(read_stored(finished(true, b"", b"")).is_ok());
    assert_eq!(read_stored(finished(false, b"", b" no \n")).unwrap_err().message(), "no");
    let error = read_stored(not_started()).unwrap_err();
    assert_eq!(error.message(), "failed to launch keychain helper");
    assert_eq!(error.full_message(), "failed to launch keychain helper: no such file");
    assert_eq!(read_password(finished(true, b" pw\n", b"")).unwrap(), " pw\n");
    assert!(read_password(finished(true, b"\xff", b"")).is_err());
    assert_eq!(
        read_password(finished(false, b"", b"\xffbad")).unwrap_err().message(),
        "\u{fffd}bad"
    );
    assert!(read_exists(&finished(true, b"", b"")));
    assert!(!read_exists(&finished(false, b"", b"")));
    assert!(!read_exists(&not_started()));
    assert_eq!(read_deleted(not_started()).unwrap_err().message(), "no such file");
}

#[test]
fn helper_is_built_from_its_source() {
    let process = build_helper(&config(), "/home", None, "/project");
    assert_eq!(process.program, "swiftc");
    assert_eq!(
        process.args,
        strings(&[
            "/project/keychain/TouchIDSecret.swift",
            "-o",
            "/home/bin/bw-broker-keychain"
        ])
    );
    assert!(read_built("/project", finished(true, b"", b"")).is_ok());
    assert_eq!(
        read_built("/project", finished(false, b"", b"oops\n")).unwrap_err().message(),
        "failed to build keychain helper: oops"
    );
    assert_eq!(
        read_built("/project", not_started()).unwrap_err().full_message(),
        "failed to run swiftc for /project/keychain/TouchIDSecret.swift: no such file"
    );
}

fn test_steps(test: &SelfTest, stored: ProcessReply, read: ProcessReply, deleted: ProcessReply) -> (TestNext, Vec<ProcessSpec>) {
    let mut calls = Vec::new();
    let mut replies = vec![deleted, read, stored];
    let mut next = test.start();
    loop {
        match next {
            TestNext::Run(phase, process) => {
                assert_eq!(process.args[2], "bw-touchid-broker.self-test");
                assert_eq!(process.args[4], test.account);
                calls.push(process);
                next = test.step(phase, replies.pop().unwrap());
            }
            end => return (end, calls),
        }
    }
}

#[test]
fn self_test_reads_back_what_it_stored() {
    let test = self_test(&config(), "/home", None);
    assert_eq!(test.account.len(), "self-test-".len() + 11);
    assert!(test.account.starts_with("self-test-"));
    assert!(test.value.starts_with("dummy-"));
    let ok = || finished(true, b"", b"");
    let read = || finished(true, test.value.as_bytes(), b"");
    let message = |next: TestNext| match next {
        TestNext::Finished(Err(e)) => e.message(),
        _ => panic!("not failed"),
    };

    let (end, calls) = test_steps(&test, ok(), read(), ok());
    assert!(matches!(end, TestNext::Finished(Ok(()))));
    let commands: Vec<&str> = calls.iter().map(|c| c.args[0].as_str()).collect();
    assert_eq!(commands, vec!["store", "read", "delete"]);
    assert_eq!(calls[0].stdin.as_ref(), Some(&test.value));

    let (end, calls) = test_steps(&test, ok(), finished(true, b"other", b""), ok());
    assert_eq!(message(end), "self-test read returned unexpected value");
    assert_eq!(calls.len(), 3);
    assert_eq!(message(test_steps(&test, ok(), read(), not_started()).0), "no such file");
    let (end, calls) = test_steps(&test, ok(), read(), finished(false, b"", b"stuck\n"));
    assert_eq!(message(end), "stuck");
    assert_eq!(calls.len(), 3);
    assert_eq!(message(test_steps(&test, ok(), finished(false, b"", b"denied"), ok()).0), "denied");
    let (end, calls) = test_steps(&test, finished(false, b"", b"full"), read(), ok());
    assert_eq!(message(end), "full");
    assert_eq!(calls.len(), 1);
}

#[test]
fn quoted_text_cannot_leave_its_quotes() {
    assert_eq!(applescript_string("a\"b\\c\nd"), "\"a\\\"b\\\\c\\nd\"");
    assert_eq!(applescript_string(""), "\"\"");
}

#[test]
fn dialog_says_what_is_asked_for() {
    let mut config = config();
    config.approval.dialog_timeout_seconds = 7;
    let process = confirm_request(&config, "agent", "token", "clone", "").unwrap();
    assert_eq!(process.program, "osascript");
    assert_eq!(process.args[0], "-e");
    assert_eq!(
        process.args[1],
        "display dialog \"A remote agent is requesting a Vaultwarden secret.\\n\\nClient: agent\\nSecret: token\\nPurpose: clone\\nRun ID: (not provided)\\n\\nApprove only if this matches the task you expect.\" buttons {\"Deny\", \"Allow\"} default button \"Deny\" cancel button \"Deny\" with title \"BW Broker Approval\" giving up after 7"
    );
    config.approval.confirm_dialog = false;
    assert!(confirm_request(&config, "agent", "token", "clone", "").is_none());
}

#[test]
fn only_the_allow_button_allows() {
    let allow = b"button returned:Allow, gave up:false";
    assert!(read_confirmation(finished(true, allow, b"")).is_ok());
    assert!(read_confirmation(finished(false, allow, b"")).is_err());
    assert_eq!(
        read_confirmation(finished(true, b"gave up:true", b"")).unwrap_err().message(),
        "secret request was not approved"
    );
    assert_eq!(read_confirmation(not_started()).unwrap_err().message(), "no such file");
}

#[test]
fn log_is_kept_where_it_is_wanted() {
    let mut config = config();
    let fields = || audit_event("c", "s", "p", "r", None);
    let line = audit_record_at(&config, "e", fields(), 5).unwrap();
    assert_eq!(line.get("ts").unwrap().as_int(), Some(5));
    assert_eq!(line.text_at("event").unwrap(), "e");
    assert_eq!(line.text_at("client_id").unwrap(), "c");
    assert!(write_audit(&config, "e", fields()).is_some());
    assert_eq!(audit_path(&config, "/home", None), "/home/audit.log");
    config.audit.enabled = false;
    assert!(write_audit(&config, "e", fields()).is_none());
}

/// Carries a plan out; gives its end and what was done on the way.
fn carry_out(plan: &CertPlan, reply: ProcessReply, trouble: Option<&str>) -> (CertNext, Vec<String>) {
    let mut reply = Some(reply);
    let mut log = Vec::new();
    let mut next = plan.start();
    loop {
        let (phase, entry) = match next {
            CertNext::MakeDirFor(phase, path) => (phase, format!("dir {path}")),
            CertNext::WriteFile(phase, path, text) => {
                assert!(text.starts_with("\n[req]\ndefault_bits = 2048\n"));
                assert!(text.ends_with("[alt_names]\nDNS.1 = localhost\nIP.1 = 127.0.0.1\n"));
                (phase, format!("write {path}"))
            }
            CertNext::RemoveFile(phase, path) => (phase, format!("remove {path}")),
            CertNext::SetMode(phase, path, mode) => (phase, format!("mode {mode:o} {path}")),
            CertNext::Run(process) => {
                assert_eq!(process.program, "openssl");
                log.push(process.args.join(" "));
                next = plan.answered(reply.take().unwrap());
                continue;
            }
            end => return (end, log),
        };
        let done = match trouble {
            Some(text) if entry.starts_with(text) => Err("disk full".to_string()),
            _ => Ok(()),
        };
        log.push(entry);
        next = plan.done(phase, done);
    }
}

#[test]
fn certificate_is_made_once() {
    assert!(ensure_self_signed_cert("/tls/c", "/tls/k", true, true).is_none());
    let plan = ensure_self_signed_cert("/tls/server.crt", "/tls/server.key", true, false).unwrap();
    assert_eq!(plan.settings_path, "/tls/server.openssl.cnf");
    let (end, log) = carry_out(&plan, finished(true, b"", b""), None);
    assert!(matches!(end, CertNext::Finished(Ok(()))));
    assert_eq!(
        log,
        strings(&[
            "dir /tls/server.crt",
            "dir /tls/server.key",
            "write /tls/server.openssl.cnf",
            "req -x509 -newkey rsa:2048 -nodes -days 825 -keyout /tls/server.key -out /tls/server.crt -config /tls/server.openssl.cnf",
            "remove /tls/server.openssl.cnf",
            "mode 600 /tls/server.key",
            "mode 644 /tls/server.crt",
        ])
    );
    let beside = |key: &str| ensure_self_signed_cert("c", key, false, false).unwrap().settings_path;
    assert_eq!(beside("key"), "key.openssl.cnf");
    assert_eq!(beside("a.b/.key"), "a.b/.key.openssl.cnf");
    assert_eq!(beside("a.b/x.y.z"), "a.b/x.y.openssl.cnf");
    assert_eq!(beside("a/.."), "a/..");
}

#[test]
fn certificate_that_cannot_be_made_is_reported() {
    let plan = ensure_self_signed_cert("/c.crt", "/k.key", false, false).unwrap();
    let message = |next: CertNext| match next {
        CertNext::Finished(Err(e)) => e.full_message(),
        _ => panic!("not failed"),
    };
    let (end, log) = carry_out(&plan, finished(false, b"", b"bad\n"), None);
    assert_eq!(message(end), "failed to create self-signed TLS certificate: bad");
    assert_eq!(log.last().unwrap(), "remove /k.openssl.cnf");
    let (end, _) = carry_out(&plan, not_started(), None);
    assert_eq!(message(end), "failed to run openssl: no such file");
    for step in ["dir /c", "dir /k", "write", "mode 600", "mode 644"] {
        let (end, _) = carry_out(&plan, finished(true, b"", b""), Some(step));
        assert_eq!(message(end), "disk full");
    }
    let (end, _) = carry_out(&plan, finished(true, b"", b""), Some("remove"));
    assert!(matches!(end, CertNext::Finished(Ok(()))));
}
