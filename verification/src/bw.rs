//! The vault program `bw`: how it is called, and what is made of its answers.
use vstd::prelude::*;
use vstd::utf8::{decode_utf8, valid_utf8};

use crate::config::{expand_path, expanded_path, Config};
use crate::json::{json_list, json_text, list_view, parse_json, parse_json_list, Json, JsonView};
use crate::process::{
    env_view, push_text, push_texts, OutputView, ProcessReply, ProcessSpec, ProcessView, ReplyView,
};
use crate::text::{
    clone_option, from_utf8, from_utf8_lossy, is_space, join, joined,
    law_trimmed_is_what_white_space_surrounds, lossy_text, opt_str, opt_text, texts, trim, trimmed,
    utf8_fault,
};

verus! {

/// The vault program with the part of the configuration that it needs.
#[derive(Debug)]
pub struct BitwardenCli {
    pub bw_path: String,
    pub server_url: String,
    pub email: String,
    pub appdata_dir: String,
}

/// The vault program, as mathematics.
pub struct CliView {
    pub bw_path: Seq<char>,
    pub server_url: Seq<char>,
    pub email: Seq<char>,
    pub appdata_dir: Seq<char>,
}

impl View for BitwardenCli {
    type V = CliView;

    open spec fn view(&self) -> CliView {
        CliView {
            bw_path: self.bw_path@,
            server_url: self.server_url@,
            email: self.email@,
            appdata_dir: self.appdata_dir@,
        }
    }
}

impl Clone for BitwardenCli {
    fn clone(&self) -> (r: BitwardenCli)
        ensures
            r@ == self@,
    {
        BitwardenCli {
            bw_path: self.bw_path.clone(),
            server_url: self.server_url.clone(),
            email: self.email.clone(),
            appdata_dir: self.appdata_dir.clone(),
        }
    }
}

/// The vault program of a configuration.
pub open spec fn cli_of(config: Config, home: Seq<char>, user_home: Option<Seq<char>>) -> CliView {
    CliView {
        bw_path: config.bitwarden.bw_path@,
        server_url: config.bitwarden.server_url@,
        email: config.bitwarden.email@,
        appdata_dir: expanded_path(config.bitwarden.appdata_dir@, home, user_home),
    }
}

/// The second step of a first login, where the account asks for one.
#[derive(Debug)]
pub struct LoginOptions {
    pub two_factor_method: Option<String>,
    pub two_factor_code: Option<String>,
}

/// The second step of a first login, as mathematics.
pub struct OptionsView {
    pub method: Option<Seq<char>>,
    pub code: Option<Seq<char>>,
}

impl View for LoginOptions {
    type V = OptionsView;

    open spec fn view(&self) -> OptionsView {
        OptionsView {
            method: opt_text(self.two_factor_method),
            code: opt_text(self.two_factor_code),
        }
    }
}

impl Clone for LoginOptions {
    fn clone(&self) -> (r: LoginOptions)
        ensures
            r@ == self@,
    {
        LoginOptions {
            two_factor_method: clone_option(&self.two_factor_method),
            two_factor_code: clone_option(&self.two_factor_code),
        }
    }
}

impl Default for LoginOptions {
    fn default() -> (r: LoginOptions)
        ensures
            r@ == (OptionsView { method: None, code: None }),
    {
        LoginOptions { two_factor_method: None, two_factor_code: None }
    }
}

/// What can go wrong with the vault program.
#[derive(Debug)]
pub enum BwError {
    /// One of two options was given without the other.
    OptionMissing { given: String, missing: String },
    NotStarted { program: String, cause: String },
    CommandFailed { command: String, status: String, output: String },
    BadOutput(String),
    ServerMismatch { current: String, expected: String },
    EmailMissing,
    NoSession,
}

/// What can go wrong with the vault program, as mathematics.
pub enum BwErrorView {
    OptionMissing { given: Seq<char>, missing: Seq<char> },
    NotStarted { program: Seq<char>, cause: Seq<char> },
    CommandFailed { command: Seq<char>, status: Seq<char>, output: Seq<char> },
    BadOutput(Seq<char>),
    ServerMismatch { current: Seq<char>, expected: Seq<char> },
    EmailMissing,
    NoSession,
}

impl View for BwError {
    type V = BwErrorView;

    open spec fn view(&self) -> BwErrorView {
        match self {
            BwError::OptionMissing { given, missing } => BwErrorView::OptionMissing {
                given: given@,
                missing: missing@,
            },
            BwError::NotStarted { program, cause } => BwErrorView::NotStarted {
                program: program@,
                cause: cause@,
            },
            BwError::CommandFailed { command, status, output } => BwErrorView::CommandFailed {
                command: command@,
                status: status@,
                output: output@,
            },
            BwError::BadOutput(text) => BwErrorView::BadOutput(text@),
            BwError::ServerMismatch { current, expected } => BwErrorView::ServerMismatch {
                current: current@,
                expected: expected@,
            },
            BwError::EmailMissing => BwErrorView::EmailMissing,
            BwError::NoSession => BwErrorView::NoSession,
        }
    }
}

impl BwErrorView {
    /// The message that is shown.
    pub open spec fn message(self) -> Seq<char> {
        match self {
            BwErrorView::OptionMissing { given, missing } => given + " requires "@ + missing,
            BwErrorView::NotStarted { program, cause: _ } => "failed to run "@ + program,
            BwErrorView::CommandFailed { command, status, output } => "bw command failed: `"@
                + command + "` exited with "@ + status + "; output: "@ + output,
            BwErrorView::BadOutput(text) => text,
            BwErrorView::ServerMismatch { current, expected } =>
            "bw profile is logged in to server `"@ + current + "`, but broker config requires `"@
                + expected
                + "`; log out of the isolated broker profile before changing server URL"@,
            BwErrorView::EmailMissing =>
            "bw is unauthenticated and bitwarden.email is not configured"@,
            BwErrorView::NoSession => "bw did not return a session key"@,
        }
    }

    /// The message with what lies behind it.
    pub open spec fn full_message(self) -> Seq<char> {
        match self {
            BwErrorView::NotStarted { program: _, cause } => self.message() + ": "@ + cause,
            _ => self.message(),
        }
    }
}

impl BwError {
    /// The message that is shown.
    pub fn message(&self) -> (r: String)
        ensures
            r@ == self@.message(),
    {
        match self {
            BwError::OptionMissing { given, missing } => given.clone().concat(
                " requires ",
            ).concat(missing.as_str()),
            BwError::NotStarted { program, cause: _ } => "failed to run ".to_string().concat(
                program.as_str(),
            ),
            BwError::CommandFailed { command, status, output } =>
            "bw command failed: `".to_string().concat(command.as_str()).concat(
                "` exited with ",
            ).concat(status.as_str()).concat("; output: ").concat(output.as_str()),
            BwError::BadOutput(text) => text.clone(),
            BwError::ServerMismatch { current, expected } =>
            "bw profile is logged in to server `".to_string().concat(current.as_str()).concat(
                "`, but broker config requires `",
            ).concat(expected.as_str()).concat(
                "`; log out of the isolated broker profile before changing server URL",
            ),
            BwError::EmailMissing =>
            "bw is unauthenticated and bitwarden.email is not configured".to_string(),
            BwError::NoSession => "bw did not return a session key".to_string(),
        }
    }

    /// The message with what lies behind it.
    pub fn full_message(&self) -> (r: String)
        ensures
            r@ == self@.full_message(),
    {
        match self {
            BwError::NotStarted { program: _, cause } => self.message().concat(": ").concat(
                cause.as_str(),
            ),
            _ => self.message(),
        }
    }
}

/// What is wrong with login options, if anything: method and code come together
/// or not at all.
pub open spec fn options_fault(
    options: OptionsView,
    method_arg: Seq<char>,
    code_arg: Seq<char>,
) -> Option<BwErrorView> {
    if options.method is Some && options.code is None {
        Some(BwErrorView::OptionMissing { given: method_arg, missing: code_arg })
    } else if options.method is None && options.code is Some {
        Some(BwErrorView::OptionMissing { given: code_arg, missing: method_arg })
    } else {
        None
    }
}

impl LoginOptions {
    /// Checks that method and code come together.
    pub fn validate(&self) -> (r: Result<(), BwError>)
        ensures
            match r {
                Ok(()) => options_fault(
                    self@,
                    "two-step login method"@,
                    "two-step login code"@,
                ) is None,
                Err(e) => options_fault(self@, "two-step login method"@, "two-step login code"@)
                    == Some(e@),
            },
    {
        self.validate_with_names("two-step login method", "two-step login code")
    }

    /// Checks that method and code come together, and calls them as given where
    /// they do not.
    pub fn validate_with_names(&self, method_arg: &str, code_arg: &str) -> (r: Result<
        (),
        BwError,
    >)
        ensures
            match r {
                Ok(()) => options_fault(self@, method_arg@, code_arg@) is None,
                Err(e) => options_fault(self@, method_arg@, code_arg@) == Some(e@),
            },
    {
        match (&self.two_factor_method, &self.two_factor_code) {
            (Some(_), None) => Err(
                BwError::OptionMissing {
                    given: method_arg.to_string(),
                    missing: code_arg.to_string(),
                },
            ),
            (None, Some(_)) => Err(
                BwError::OptionMissing {
                    given: code_arg.to_string(),
                    missing: method_arg.to_string(),
                },
            ),
            _ => Ok(()),
        }
    }
}

/// The switches in front of every command.
pub open spec fn switches(raw: bool, session: Option<Seq<char>>) -> Seq<Seq<char>> {
    seq!["--nointeraction"@] + if raw {
        seq!["--raw"@]
    } else {
        Seq::empty()
    } + match session {
        Some(key) => seq!["--session"@, key],
        None => Seq::empty(),
    }
}

/// A call of the vault program: the command with its switches, in a profile of
/// its own, and the master password in the environment where it is needed.
pub open spec fn cli_process(
    cli: CliView,
    args: Seq<Seq<char>>,
    session: Option<Seq<char>>,
    password: Option<Seq<char>>,
    raw: bool,
) -> ProcessView {
    ProcessView {
        program: cli.bw_path,
        args: switches(raw, session) + args,
        envs: seq![
            ("BITWARDENCLI_APPDATA_DIR"@, cli.appdata_dir),
            ("BW_NOINTERACTION"@, "true"@),
        ] + match password {
            Some(secret) => seq![("BW_BROKER_MASTER_PASSWORD"@, secret)],
            None => Seq::empty(),
        },
        stdin: None,
    }
}

/// Command words as they are shown: what follows `--code` is hidden.
pub open spec fn redacted(args: Seq<Seq<char>>) -> Seq<Seq<char>>
    decreases args.len(),
{
    if args.len() == 0 {
        Seq::empty()
    } else if args[0] == "--code"@ && args.len() > 1 {
        seq![args[0], "<redacted>"@] + redacted(args.skip(2))
    } else {
        seq![args[0]] + redacted(args.skip(1))
    }
}

/// Hides what follows `--code`.
pub fn redacted_display_args(args: &[String]) -> (r: Vec<String>)
    ensures
        texts(r@) == redacted(texts(args@)),
{
    let ghost all = texts(args@);
    let mut out: Vec<String> = Vec::new();
    let mut i: usize = 0;
    assert(all.skip(0) =~= all);
    while i < args.len()
        invariant
            all == texts(args@),
            i <= args@.len(),
            redacted(all) == texts(out@) + redacted(all.skip(i as int)),
        decreases args@.len() - i,
    {
        let ghost before = texts(out@);
        let ghost rest = all.skip(i as int);
        let hide_next = *args[i].as_str() == *"--code";
        push_text(&mut out, args[i].as_str());
        assert(rest[0] == args@[i as int]@);
        if hide_next && i + 1 < args.len() {
            push_text(&mut out, "<redacted>");
            assert(rest.skip(2) =~= all.skip(i + 2));
            assert(texts(out@) =~= before + seq![rest[0], "<redacted>"@]);
            assert(redacted(all) =~= texts(out@) + redacted(all.skip(i + 2)));
            i += 2;
        } else {
            assert(rest.skip(1) =~= all.skip(i + 1));
            assert(texts(out@) =~= before + seq![rest[0]]);
            assert(redacted(all) =~= texts(out@) + redacted(all.skip(i + 1)));
            i += 1;
        }
    }
    assert(texts(out@) =~= redacted(all));
    out
}

/// A call of the vault program as it is shown in messages. It says that there is
/// a session key, but not which.
pub open spec fn shown_command(
    cli: CliView,
    args: Seq<Seq<char>>,
    has_session: bool,
    raw: bool,
) -> Seq<char> {
    joined(
        seq![cli.bw_path] + switches(
            raw,
            if has_session {
                Some("<redacted>"@)
            } else {
                None
            },
        ) + redacted(args),
        " "@,
    )
}

/// How a call that failed is reported, with what it printed.
pub open spec fn failure_of(
    cli: CliView,
    args: Seq<Seq<char>>,
    has_session: bool,
    raw: bool,
    status: Seq<char>,
    printed: Seq<char>,
) -> BwErrorView {
    BwErrorView::CommandFailed {
        command: shown_command(cli, args, has_session, raw),
        status,
        output: trimmed(printed),
    }
}

/// The output of a call that succeeded, or what went wrong.
pub open spec fn checked_reply(
    cli: CliView,
    args: Seq<Seq<char>>,
    has_session: bool,
    raw: bool,
    reply: ReplyView,
) -> Result<Seq<u8>, BwErrorView> {
    match reply {
        ReplyView::NotStarted(cause) => Err(
            BwErrorView::NotStarted { program: cli.bw_path, cause },
        ),
        ReplyView::Finished(output) => if output.success {
            Ok(output.stdout)
        } else {
            Err(
                failure_of(
                    cli,
                    args,
                    has_session,
                    raw,
                    output.status,
                    lossy_text(
                        if output.stderr.len() == 0 {
                            output.stdout
                        } else {
                            output.stderr
                        },
                    ),
                ),
            )
        },
    }
}

/// The bytes of a result, or its error.
pub open spec fn bytes_view(r: Result<Vec<u8>, BwError>) -> Result<Seq<u8>, BwErrorView> {
    match r {
        Ok(bytes) => Ok(bytes@),
        Err(e) => Err(e@),
    }
}

/// The JSON value of a result, or its error.
pub open spec fn json_result_view(r: Result<Json, BwError>) -> Result<JsonView, BwErrorView> {
    match r {
        Ok(j) => Ok(j@),
        Err(e) => Err(e@),
    }
}

/// The JSON value that a call printed, or what went wrong.
pub open spec fn json_reply(checked: Result<Seq<u8>, BwErrorView>) -> Result<
    JsonView,
    BwErrorView,
> {
    match checked {
        Err(e) => Err(e),
        Ok(stdout) => match json_text(stdout) {
            Ok(j) => Ok(j),
            Err(text) => Err(BwErrorView::BadOutput(text)),
        },
    }
}

/// The words of the command that sets the server.
pub open spec fn server_args(cli: CliView) -> Seq<Seq<char>> {
    seq!["config"@, "server"@, cli.server_url]
}

/// The words of the command that asks for the state of the profile.
pub open spec fn status_args() -> Seq<Seq<char>> {
    seq!["status"@]
}

/// The words of the command that lists items.
pub open spec fn list_args(
    collection_id: Option<Seq<char>>,
    organization_id: Option<Seq<char>>,
) -> Seq<Seq<char>> {
    seq!["list"@, "items"@] + match collection_id {
        Some(id) => seq!["--collectionid"@, id],
        None => Seq::empty(),
    } + match organization_id {
        Some(id) => seq!["--organizationid"@, id],
        None => Seq::empty(),
    }
}

/// The words of the command that logs the profile in.
pub open spec fn login_args(cli: CliView, options: OptionsView) -> Seq<Seq<char>> {
    seq!["login"@, cli.email, "--passwordenv"@, "BW_BROKER_MASTER_PASSWORD"@] + match (
        options.method,
        options.code,
    ) {
        (Some(method), Some(code)) => seq!["--method"@, method, "--code"@, code],
        _ => Seq::empty(),
    }
}

/// The words of the command that unlocks a profile that is logged in.
pub open spec fn unlock_args() -> Seq<Seq<char>> {
    seq!["unlock"@, "--passwordenv"@, "BW_BROKER_MASTER_PASSWORD"@]
}

/// What the state of the profile says of the server: nothing is to be done, the
/// server is to be set, or the profile belongs to another server.
pub open spec fn server_check(cli: CliView, status: JsonView) -> Result<bool, BwErrorView> {
    let current = match status.text_at("serverUrl"@) {
        Some(url) => url,
        None => Seq::empty(),
    };
    if cli.server_url.len() == 0 || current == cli.server_url {
        Ok(false)
    } else if status.text_at("status"@) == Some("unauthenticated"@) {
        Ok(true)
    } else {
        Err(BwErrorView::ServerMismatch { current, expected: cli.server_url })
    }
}

/// A list of words.
fn words1(a: &str) -> (r: Vec<String>)
    ensures
        texts(r@) == seq![a@],
{
    let mut out: Vec<String> = Vec::new();
    push_text(&mut out, a);
    assert(texts(out@) =~= seq![a@]);
    out
}

fn words3(a: &str, b: &str, c: &str) -> (r: Vec<String>)
    ensures
        texts(r@) == seq![a@, b@, c@],
{
    let mut out: Vec<String> = Vec::new();
    push_text(&mut out, a);
    push_text(&mut out, b);
    push_text(&mut out, c);
    assert(texts(out@) =~= seq![a@, b@, c@]);
    out
}

fn make_switches(raw: bool, session: Option<&str>) -> (r: Vec<String>)
    ensures
        texts(r@) == switches(raw, opt_str(session)),
{
    let mut out = words1("--nointeraction");
    if raw {
        push_text(&mut out, "--raw");
    }
    if let Some(key) = session {
        push_text(&mut out, "--session");
        push_text(&mut out, key);
    }
    assert(texts(out@) =~= switches(raw, opt_str(session)));
    out
}

impl BitwardenCli {
    /// The vault program of a configuration.
    pub fn new(config: &Config, home: &str, user_home: Option<&str>) -> (r: BitwardenCli)
        ensures
            r@ == cli_of(*config, home@, opt_str(user_home)),
    {
        BitwardenCli {
            bw_path: config.bitwarden.bw_path.clone(),
            server_url: config.bitwarden.server_url.clone(),
            email: config.bitwarden.email.clone(),
            appdata_dir: expand_path(config.bitwarden.appdata_dir.as_str(), home, user_home),
        }
    }

    /// Puts a call together.
    pub fn run(
        &self,
        args: &[String],
        session: Option<&str>,
        password: Option<&str>,
        raw: bool,
    ) -> (r: ProcessSpec)
        ensures
            r@ == cli_process(self@, texts(args@), opt_str(session), opt_str(password), raw),
    {
        let mut all = make_switches(raw, session);
        push_texts(&mut all, args);
        let mut envs: Vec<(String, String)> = Vec::new();
        envs.push(("BITWARDENCLI_APPDATA_DIR".to_string(), self.appdata_dir.clone()));
        envs.push(("BW_NOINTERACTION".to_string(), "true".to_string()));
        if let Some(secret) = password {
            envs.push(("BW_BROKER_MASTER_PASSWORD".to_string(), secret.to_string()));
        }
        assert(env_view(envs@) =~= cli_process(
            self@,
            texts(args@),
            opt_str(session),
            opt_str(password),
            raw,
        ).envs);
        ProcessSpec { program: self.bw_path.clone(), args: all, envs, stdin: None }
    }

    /// A call as it is shown in messages.
    pub fn display_command(&self, args: &[String], session: Option<&str>, raw: bool) -> (r: String)
        ensures
            r@ == shown_command(self@, texts(args@), session is Some, raw),
    {
        let hidden = if session.is_some() {
            Some("<redacted>")
        } else {
            None
        };
        let mut parts = words1(self.bw_path.as_str());
        push_texts(&mut parts, &make_switches(raw, hidden));
        push_texts(&mut parts, &redacted_display_args(args));
        join(&parts, " ")
    }

    /// Reports a call that failed.
    pub fn failed(
        &self,
        args: &[String],
        session: Option<&str>,
        raw: bool,
        status: String,
        printed: &str,
    ) -> (r: BwError)
        ensures
            r@ == failure_of(self@, texts(args@), session is Some, raw, status@, printed@),
    {
        BwError::CommandFailed {
            command: self.display_command(args, session, raw),
            status,
            output: trim(printed),
        }
    }

    /// Holds what became of a call against success.
    pub fn checked(
        &self,
        args: &[String],
        session: Option<&str>,
        raw: bool,
        reply: ProcessReply,
    ) -> (r: Result<Vec<u8>, BwError>)
        ensures
            bytes_view(r) == checked_reply(self@, texts(args@), session is Some, raw, reply@),
    {
        match reply {
            ProcessReply::NotStarted(cause) => Err(
                BwError::NotStarted { program: self.bw_path.clone(), cause },
            ),
            ProcessReply::Finished(output) => {
                if output.success {
                    Ok(output.stdout)
                } else {
                    let text = if output.stderr.len() == 0 {
                        from_utf8_lossy(&output.stdout)
                    } else {
                        from_utf8_lossy(&output.stderr)
                    };
                    Err(self.failed(args, session, raw, output.status, text.as_str()))
                }
            },
        }
    }

    fn read_json(&self, checked: Result<Vec<u8>, BwError>) -> (r: Result<Json, BwError>)
        ensures
            json_result_view(r) == json_reply(bytes_view(checked)),
    {
        match checked {
            Ok(stdout) => match parse_json(&stdout) {
                Ok(j) => Ok(j),
                Err(text) => Err(BwError::BadOutput(text)),
            },
            Err(e) => Err(e),
        }
    }

    /// The call that sets the server, where one is configured.
    pub fn configure_server(&self) -> (r: Option<ProcessSpec>)
        ensures
            match r {
                Some(process) => self.server_url@.len() > 0 && process@ == cli_process(
                    self@,
                    server_args(self@),
                    None,
                    None,
                    false,
                ),
                None => self.server_url@.len() == 0,
            },
    {
        if self.server_url.as_str().is_empty() {
            None
        } else {
            let args = words3("config", "server", self.server_url.as_str());
            Some(self.run(&args, None, None, false))
        }
    }

    /// Whether the server has to be set, going by the state of the profile.
    pub fn ensure_server_for_status(&self, status: &Json) -> (r: Result<bool, BwError>)
        ensures
            match r {
                Ok(needed) => server_check(self@, status@) == Ok::<bool, BwErrorView>(needed),
                Err(e) => server_check(self@, status@) == Err::<bool, BwErrorView>(e@),
            },
    {
        let current = match status.text_at("serverUrl") {
            Some(url) => url.clone(),
            None => String::new(),
        };
        if self.server_url.as_str().is_empty() || *current.as_str() == *self.server_url.as_str() {
            return Ok(false);
        }
        if let Some(state) = status.text_at("status") {
            if *state.as_str() == *"unauthenticated" {
                return Ok(true);
            }
        }
        Err(BwError::ServerMismatch { current, expected: self.server_url.clone() })
    }

    /// The call that asks for the state of the profile.
    pub fn status(&self) -> (r: ProcessSpec)
        ensures
            r@ == cli_process(self@, status_args(), None, None, false),
    {
        self.run(&words1("status"), None, None, false)
    }

    /// The state of the profile, from what became of the call.
    pub fn read_status(&self, reply: ProcessReply) -> (r: Result<Json, BwError>)
        ensures
            json_result_view(r) == json_reply(
                checked_reply(self@, status_args(), false, false, reply@),
            ),
    {
        let checked = self.checked(&words1("status"), None, false, reply);
        self.read_json(checked)
    }

    /// The call that locks the vault, where a session was opened.
    pub fn lock(&self, session: Option<&str>) -> (r: Option<ProcessSpec>)
        ensures
            match (session, r) {
                (Some(key), Some(process)) => process@ == cli_process(
                    self@,
                    seq!["lock"@],
                    Some(key@),
                    None,
                    false,
                ),
                (None, None) => true,
                _ => false,
            },
    {
        match session {
            Some(key) => Some(self.run(&words1("lock"), Some(key), None, false)),
            None => None,
        }
    }

    /// The call that brings the vault up to date.
    pub fn sync(&self, session: &str) -> (r: ProcessSpec)
        ensures
            r@ == cli_process(self@, seq!["sync"@], Some(session@), None, false),
    {
        self.run(&words1("sync"), Some(session), None, false)
    }

    /// Whether bringing the vault up to date went well.
    pub fn read_sync(&self, session: &str, reply: ProcessReply) -> (r: Result<(), BwError>)
        ensures
            match r {
                Ok(()) => checked_reply(self@, seq!["sync"@], true, false, reply@) is Ok,
                Err(e) => checked_reply(self@, seq!["sync"@], true, false, reply@) == Err::<
                    Seq<u8>,
                    BwErrorView,
                >(e@),
            },
    {
        match self.checked(&words1("sync"), Some(session), false, reply) {
            Ok(_) => Ok(()),
            Err(e) => Err(e),
        }
    }

    /// The call that reads one item.
    pub fn get_item(&self, item_id: &str, session: &str) -> (r: ProcessSpec)
        ensures
            r@ == cli_process(
                self@,
                seq!["get"@, "item"@, item_id@],
                Some(session@),
                None,
                false,
            ),
    {
        self.run(&words3("get", "item", item_id), Some(session), None, false)
    }

    /// The item, from what became of the call.
    pub fn read_item(&self, item_id: &str, session: &str, reply: ProcessReply) -> (r: Result<
        Json,
        BwError,
    >)
        ensures
            json_result_view(r) == json_reply(
                checked_reply(self@, seq!["get"@, "item"@, item_id@], true, false, reply@),
            ),
    {
        let checked = self.checked(&words3("get", "item", item_id), Some(session), false, reply);
        self.read_json(checked)
    }

    fn list_words(&self, collection_id: Option<&str>, organization_id: Option<&str>) -> (r: Vec<
        String,
    >)
        ensures
            texts(r@) == list_args(opt_str(collection_id), opt_str(organization_id)),
    {
        let mut args = words1("list");
        push_text(&mut args, "items");
        if let Some(id) = collection_id {
            push_text(&mut args, "--collectionid");
            push_text(&mut args, id);
        }
        if let Some(id) = organization_id {
            push_text(&mut args, "--organizationid");
            push_text(&mut args, id);
        }
        assert(texts(args@) =~= list_args(opt_str(collection_id), opt_str(organization_id)));
        args
    }

    /// The call that lists items.
    pub fn list_items(
        &self,
        session: &str,
        collection_id: Option<&str>,
        organization_id: Option<&str>,
    ) -> (r: ProcessSpec)
        ensures
            r@ == cli_process(
                self@,
                list_args(opt_str(collection_id), opt_str(organization_id)),
                Some(session@),
                None,
                false,
            ),
    {
        let args = self.list_words(collection_id, organization_id);
        self.run(&args, Some(session), None, false)
    }

    /// The items, from what became of the call.
    pub fn read_items(
        &self,
        session: &str,
        collection_id: Option<&str>,
        organization_id: Option<&str>,
        reply: ProcessReply,
    ) -> (r: Result<Vec<Json>, BwError>)
        ensures
            items_view(r) == items_reply(
                checked_reply(
                    self@,
                    list_args(opt_str(collection_id), opt_str(organization_id)),
                    true,
                    false,
                    reply@,
                ),
            ),
    {
        let args = self.list_words(collection_id, organization_id);
        match self.checked(&args, Some(session), false, reply) {
            Ok(stdout) => match parse_json_list(&stdout) {
                Ok(items) => Ok(items),
                Err(text) => Err(BwError::BadOutput(text)),
            },
            Err(e) => Err(e),
        }
    }
}

/// The items of a result, or its error.
pub open spec fn items_view(r: Result<Vec<Json>, BwError>) -> Result<Seq<JsonView>, BwErrorView> {
    match r {
        Ok(items) => Ok(list_view(items@)),
        Err(e) => Err(e@),
    }
}

/// The items that a call printed, or what went wrong.
pub open spec fn items_reply(checked: Result<Seq<u8>, BwErrorView>) -> Result<
    Seq<JsonView>,
    BwErrorView,
> {
    match checked {
        Err(e) => Err(e),
        Ok(stdout) => match json_list(stdout) {
            Ok(items) => Ok(items),
            Err(text) => Err(BwErrorView::BadOutput(text)),
        },
    }
}

/// Where opening a session stands: the call whose answer is awaited.
#[derive(Debug, Clone, Copy, PartialEq, Eq, Structural)]
pub enum UnlockPhase {
    FirstStatus,
    ConfigureServer,
    SecondStatus,
    LoggingIn,
    Unlocking,
}

/// What comes next in opening a session.
#[derive(Debug)]
pub enum UnlockNext {
    /// Make the call, and come back with what became of it.
    Run(UnlockPhase, ProcessSpec),
    /// The session is open; this is its key.
    Session(String),
    Failed(BwError),
}

/// What comes next in opening a session, as mathematics.
pub enum UnlockView {
    Run(UnlockPhase, ProcessView),
    Session(Seq<char>),
    Failed(BwErrorView),
}

impl View for UnlockNext {
    type V = UnlockView;

    open spec fn view(&self) -> UnlockView {
        match self {
            UnlockNext::Run(phase, process) => UnlockView::Run(*phase, process@),
            UnlockNext::Session(key) => UnlockView::Session(key@),
            UnlockNext::Failed(e) => UnlockView::Failed(e@),
        }
    }
}

/// The session key in a text, if there is one.
pub fn session_key(printed: &str) -> (r: Result<String, BwError>)
    ensures
        match r {
            Ok(key) => session_in(printed@) == Ok::<Seq<char>, BwErrorView>(key@),
            Err(e) => session_in(printed@) == Err::<Seq<char>, BwErrorView>(e@),
        },
{
    let key = trim(printed);
    if key.as_str().is_empty() {
        Err(BwError::NoSession)
    } else {
        Ok(key)
    }
}

/// The words of the command that a phase stands for.
pub open spec fn phase_args(cli: CliView, options: OptionsView, phase: UnlockPhase) -> Seq<
    Seq<char>,
> {
    match phase {
        UnlockPhase::FirstStatus | UnlockPhase::SecondStatus => status_args(),
        UnlockPhase::ConfigureServer => server_args(cli),
        UnlockPhase::LoggingIn => login_args(cli, options),
        UnlockPhase::Unlocking => unlock_args(),
    }
}

/// Whether a phase hands the master password over and gets a session key back.
pub open spec fn opens_session(phase: UnlockPhase) -> bool {
    phase == UnlockPhase::LoggingIn || phase == UnlockPhase::Unlocking
}

/// The call that a phase stands for.
pub open spec fn phase_process(
    cli: CliView,
    password: Seq<char>,
    options: OptionsView,
    phase: UnlockPhase,
) -> ProcessView {
    cli_process(
        cli,
        phase_args(cli, options, phase),
        None,
        if opens_session(phase) {
            Some(password)
        } else {
            None
        },
        opens_session(phase),
    )
}

/// The session key that a call printed, or what went wrong.
pub open spec fn session_reply(checked: Result<Seq<u8>, BwErrorView>) -> Result<
    Seq<char>,
    BwErrorView,
> {
    match checked {
        Err(e) => Err(e),
        Ok(stdout) => if valid_utf8(stdout) {
            session_in(decode_utf8(stdout))
        } else {
            Err(BwErrorView::BadOutput(utf8_fault(stdout)))
        },
    }
}

/// How a session is opened in a profile in a given state: one that is not logged
/// in is logged in, which takes an account.
pub open spec fn opening_phase(cli: CliView, status: JsonView) -> Result<UnlockPhase, BwErrorView> {
    if status.text_at("status"@) != Some("unauthenticated"@) {
        Ok(UnlockPhase::Unlocking)
    } else if cli.email.len() == 0 {
        Err(BwErrorView::EmailMissing)
    } else {
        Ok(UnlockPhase::LoggingIn)
    }
}

/// The session key in a text, if there is one.
pub open spec fn session_in(printed: Seq<char>) -> Result<Seq<char>, BwErrorView> {
    if trimmed(printed).len() == 0 {
        Err(BwErrorView::NoSession)
    } else {
        Ok(trimmed(printed))
    }
}

/// How opening a session begins.
pub open spec fn unlock_start(
    cli: CliView,
    password: Seq<char>,
    options: OptionsView,
) -> UnlockView {
    match options_fault(options, "two-step login method"@, "two-step login code"@) {
        Some(e) => UnlockView::Failed(e),
        None => UnlockView::Run(
            UnlockPhase::FirstStatus,
            phase_process(cli, password, options, UnlockPhase::FirstStatus),
        ),
    }
}

/// How opening a session goes on after a call: the server is made right first,
/// then the profile is logged in if it is not yet, and unlocked if it is.
pub open spec fn unlock_after(
    cli: CliView,
    password: Seq<char>,
    options: OptionsView,
    phase: UnlockPhase,
    reply: ReplyView,
) -> UnlockView {
    let checked = checked_reply(
        cli,
        phase_args(cli, options, phase),
        false,
        opens_session(phase),
        reply,
    );
    let run = |next: UnlockPhase|
        UnlockView::Run(next, phase_process(cli, password, options, next));
    match phase {
        UnlockPhase::FirstStatus => match json_reply(checked) {
            Err(e) => UnlockView::Failed(e),
            Ok(status) => match server_check(cli, status) {
                Err(e) => UnlockView::Failed(e),
                Ok(true) => run(UnlockPhase::ConfigureServer),
                Ok(false) => run(UnlockPhase::SecondStatus),
            },
        },
        UnlockPhase::ConfigureServer => match checked {
            Err(e) => UnlockView::Failed(e),
            Ok(_) => run(UnlockPhase::SecondStatus),
        },
        UnlockPhase::SecondStatus => match json_reply(checked) {
            Err(e) => UnlockView::Failed(e),
            Ok(status) => match opening_phase(cli, status) {
                Err(e) => UnlockView::Failed(e),
                Ok(next) => run(next),
            },
        },
        UnlockPhase::LoggingIn | UnlockPhase::Unlocking => match session_reply(checked) {
            Err(e) => UnlockView::Failed(e),
            Ok(key) => UnlockView::Session(key),
        },
    }
}

impl BitwardenCli {
    fn phase_words(&self, options: &LoginOptions, phase: UnlockPhase) -> (r: Vec<String>)
        ensures
            texts(r@) == phase_args(self@, options@, phase),
    {
        match phase {
            UnlockPhase::FirstStatus | UnlockPhase::SecondStatus => words1("status"),
            UnlockPhase::ConfigureServer => words3("config", "server", self.server_url.as_str()),
            UnlockPhase::LoggingIn => {
                let mut args = words3("login", self.email.as_str(), "--passwordenv");
                push_text(&mut args, "BW_BROKER_MASTER_PASSWORD");
                if let (Some(method), Some(code)) = (
                    &options.two_factor_method,
                    &options.two_factor_code,
                ) {
                    push_text(&mut args, "--method");
                    push_text(&mut args, method.as_str());
                    push_text(&mut args, "--code");
                    push_text(&mut args, code.as_str());
                }
                assert(texts(args@) =~= login_args(self@, options@));
                args
            },
            UnlockPhase::Unlocking => words3(
                "unlock",
                "--passwordenv",
                "BW_BROKER_MASTER_PASSWORD",
            ),
        }
    }

    fn run_phase(&self, master_password: &str, options: &LoginOptions, phase: UnlockPhase) -> (r:
        UnlockNext)
        ensures
            r@ == UnlockView::Run(
                phase,
                phase_process(self@, master_password@, options@, phase),
            ),
    {
        let args = self.phase_words(options, phase);
        let process = match phase {
            UnlockPhase::LoggingIn | UnlockPhase::Unlocking => self.run(
                &args,
                None,
                Some(master_password),
                true,
            ),
            _ => self.run(&args, None, None, false),
        };
        UnlockNext::Run(phase, process)
    }

    /// How a session is opened in a profile in a given state.
    pub fn login_or_unlock(&self, status: &Json) -> (r: Result<UnlockPhase, BwError>)
        ensures
            match r {
                Ok(phase) => opening_phase(self@, status@) == Ok::<UnlockPhase, BwErrorView>(phase),
                Err(e) => opening_phase(self@, status@) == Err::<UnlockPhase, BwErrorView>(e@),
            },
    {
        let unauthenticated = match status.text_at("status") {
            Some(state) => *state.as_str() == *"unauthenticated",
            None => false,
        };
        if !unauthenticated {
            Ok(UnlockPhase::Unlocking)
        } else if self.email.as_str().is_empty() {
            Err(BwError::EmailMissing)
        } else {
            Ok(UnlockPhase::LoggingIn)
        }
    }

    /// Begins to open a session in a profile that needs no second step.
    pub fn unlock_or_login(&self, master_password: &str) -> (r: UnlockNext)
        ensures
            r@ == unlock_start(
                self@,
                master_password@,
                (OptionsView { method: None, code: None }),
            ),
    {
        self.unlock_or_login_with_options(master_password, &LoginOptions::default())
    }

    /// Begins to open a session.
    pub fn unlock_or_login_with_options(
        &self,
        master_password: &str,
        login_options: &LoginOptions,
    ) -> (r: UnlockNext)
        ensures
            r@ == unlock_start(self@, master_password@, login_options@),
    {
        match login_options.validate() {
            Err(e) => UnlockNext::Failed(e),
            Ok(()) => self.run_phase(master_password, login_options, UnlockPhase::FirstStatus),
        }
    }

    /// Goes on with opening a session after a call.
    pub fn unlock_step(
        &self,
        master_password: &str,
        login_options: &LoginOptions,
        phase: UnlockPhase,
        reply: ProcessReply,
    ) -> (r: UnlockNext)
        ensures
            r@ == unlock_after(self@, master_password@, login_options@, phase, reply@),
    {
        match phase {
            UnlockPhase::FirstStatus => match self.read_status(reply) {
                Err(e) => UnlockNext::Failed(e),
                Ok(status) => match self.ensure_server_for_status(&status) {
                    Err(e) => UnlockNext::Failed(e),
                    Ok(true) => self.run_phase(
                        master_password,
                        login_options,
                        UnlockPhase::ConfigureServer,
                    ),
                    Ok(false) => self.run_phase(
                        master_password,
                        login_options,
                        UnlockPhase::SecondStatus,
                    ),
                },
            },
            UnlockPhase::ConfigureServer => {
                let args = self.phase_words(login_options, phase);
                match self.checked(&args, None, false, reply) {
                    Err(e) => UnlockNext::Failed(e),
                    Ok(_) => self.run_phase(
                        master_password,
                        login_options,
                        UnlockPhase::SecondStatus,
                    ),
                }
            },
            UnlockPhase::SecondStatus => match self.read_status(reply) {
                Err(e) => UnlockNext::Failed(e),
                Ok(status) => match self.login_or_unlock(&status) {
                    Err(e) => UnlockNext::Failed(e),
                    Ok(next) => self.run_phase(master_password, login_options, next),
                },
            },
            UnlockPhase::LoggingIn | UnlockPhase::Unlocking => {
                let args = self.phase_words(login_options, phase);
                match self.checked(&args, None, true, reply) {
                    Err(e) => UnlockNext::Failed(e),
                    Ok(stdout) => match from_utf8(stdout) {
                        Err(text) => UnlockNext::Failed(BwError::BadOutput(text)),
                        Ok(text) => match session_key(text.as_str()) {
                            Err(e) => UnlockNext::Failed(e),
                            Ok(key) => UnlockNext::Session(key),
                        },
                    },
                }
            },
        }
    }
}

/// Options that say the same but for the code.
pub open spec fn same_but_code(a: OptionsView, b: OptionsView) -> bool {
    a.method == b.method && (a.code is Some) == (b.code is Some)
}

/// What the next step in opening a session is, without the call's arguments and
/// environment.
pub open spec fn without_process(next: UnlockView) -> UnlockView {
    match next {
        UnlockView::Run(phase, _) => UnlockView::Run(
            phase,
            ProcessView { program: Seq::empty(), args: Seq::empty(), envs: Seq::empty(), stdin: None },
        ),
        _ => next,
    }
}

proof fn lemma_redacted_step(args: Seq<Seq<char>>)
    requires
        args.len() > 0,
        args[0] != "--code"@,
    ensures
        redacted(args) == seq![args[0]] + redacted(args.skip(1)),
{
}

/// A login command is shown alike whatever the code of the second step is. The
/// one method left out, `--code`, would hide itself in place of the code.
pub proof fn law_code_is_not_shown(cli: CliView, a: OptionsView, b: OptionsView)
    requires
        same_but_code(a, b),
        a.method != Some("--code"@),
    ensures
        shown_command(cli, login_args(cli, a), false, true) == shown_command(
            cli,
            login_args(cli, b),
            false,
            true,
        ),
{
    if a.method is Some && a.code is Some {
        lemma_redacted_login(cli, a);
        lemma_redacted_login(cli, b);
    }
}

/// What is shown of a login command with a second step.
pub open spec fn shown_login(cli: CliView, method: Seq<char>) -> Seq<Seq<char>> {
    let tail = seq!["--method"@, method, "--code"@, "<redacted>"@];
    if cli.email == "--code"@ {
        seq!["login"@, cli.email, "<redacted>"@, "BW_BROKER_MASTER_PASSWORD"@] + tail
    } else {
        seq!["login"@, cli.email, "--passwordenv"@, "BW_BROKER_MASTER_PASSWORD"@] + tail
    }
}

proof fn lemma_redacted_login(cli: CliView, options: OptionsView)
    requires
        options.method is Some,
        options.code is Some,
        options.method != Some("--code"@),
    ensures
        redacted(login_args(cli, options)) == shown_login(cli, options.method->0),
{
    reveal_strlit("--code");
    reveal_strlit("login");
    reveal_strlit("--passwordenv");
    reveal_strlit("BW_BROKER_MASTER_PASSWORD");
    reveal_strlit("--method");
    let args = login_args(cli, options);
    let method = options.method->0;
    let code = options.code->0;
    assert("login"@.len() != "--code"@.len());
    assert("--passwordenv"@.len() != "--code"@.len());
    assert("BW_BROKER_MASTER_PASSWORD"@.len() != "--code"@.len());
    assert("--method"@.len() != "--code"@.len());
    let end: Seq<Seq<char>> = args.skip(8);
    assert(redacted(end) =~= Seq::empty());
    assert(args.skip(6).skip(2) =~= end);
    assert(redacted(args.skip(6)) =~= seq!["--code"@, "<redacted>"@]);
    assert(args.skip(5).skip(1) =~= args.skip(6));
    lemma_redacted_step(args.skip(5));
    assert(args.skip(4).skip(1) =~= args.skip(5));
    lemma_redacted_step(args.skip(4));
    assert(args.skip(3).skip(1) =~= args.skip(4));
    lemma_redacted_step(args.skip(3));
    assert(redacted(args.skip(3)) =~= seq![
        "BW_BROKER_MASTER_PASSWORD"@,
        "--method"@,
        method,
        "--code"@,
        "<redacted>"@,
    ]);
    assert(args.skip(2).skip(1) =~= args.skip(3));
    lemma_redacted_step(args.skip(2));
    assert(args.skip(1).skip(1) =~= args.skip(2));
    assert(args.skip(1).skip(2) =~= args.skip(3));
    assert(args.skip(1)[0] == cli.email);
    assert(redacted(args.skip(1)) =~= shown_login(cli, method).skip(1));
    assert(args.skip(0) =~= args);
    lemma_redacted_step(args);
    assert(redacted(args) =~= shown_login(cli, method));
}

/// Whatever the vault program answers, neither the phase that follows, nor the
/// session key, nor an error says anything about the master password or about
/// the code of the second step.
pub proof fn law_unlocking_reveals_nothing(
    cli: CliView,
    password1: Seq<char>,
    options1: OptionsView,
    password2: Seq<char>,
    options2: OptionsView,
    phase: UnlockPhase,
    reply: ReplyView,
)
    requires
        same_but_code(options1, options2),
        options1.method != Some("--code"@),
    ensures
        without_process(unlock_start(cli, password1, options1)) == without_process(
            unlock_start(cli, password2, options2),
        ),
        without_process(unlock_after(cli, password1, options1, phase, reply)) == without_process(
            unlock_after(cli, password2, options2, phase, reply),
        ),
{
    law_code_is_not_shown(cli, options1, options2);
}

/// The master password is never among the arguments of a call, and only a login
/// or an unlocking has it in its environment.
pub proof fn law_password_stays_in_the_environment(
    cli: CliView,
    password1: Seq<char>,
    password2: Seq<char>,
    options: OptionsView,
    phase: UnlockPhase,
)
    ensures
        phase_process(cli, password1, options, phase).args == phase_process(
            cli,
            password2,
            options,
            phase,
        ).args,
        phase_process(cli, password1, options, phase).stdin is None,
        !opens_session(phase) ==> phase_process(cli, password1, options, phase) == phase_process(
            cli,
            password2,
            options,
            phase,
        ),
{
}

/// Each id that a listing is narrowed by stands directly behind its own switch,
/// whether the other is given or not; no switch stands there without its id,
/// and nothing else does.
pub proof fn law_each_id_narrows_the_list(
    collection_id: Option<Seq<char>>,
    organization_id: Option<Seq<char>>,
)
    ensures
        ({
            let words = list_args(collection_id, organization_id);
            &&& words.len() >= 2 && words[0] == "list"@ && words[1] == "items"@
            &&& words.len() == 2 + (if collection_id is Some {
                2int
            } else {
                0int
            }) + (if organization_id is Some {
                2int
            } else {
                0int
            })
            &&& collection_id is Some ==> exists|i: int|
                2 <= i < words.len() - 1 && #[trigger] words[i] == "--collectionid"@ && words[i + 1]
                    == collection_id->0
            &&& organization_id is Some ==> exists|i: int|
                2 <= i < words.len() - 1 && #[trigger] words[i] == "--organizationid"@ && words[i
                    + 1] == organization_id->0
            &&& forall|i: int|
                2 <= i < words.len() && i % 2 == 0 ==> i + 1 < words.len() && {
                    ||| #[trigger] words[i] == "--collectionid"@ && collection_id == Some(
                        words[i + 1],
                    )
                    ||| words[i] == "--organizationid"@ && organization_id == Some(words[i + 1])
                }
        }),
{
    let words = list_args(collection_id, organization_id);
    if let Some(id) = collection_id {
        assert(words[2] == "--collectionid"@ && words[3] == id);
        if let Some(other) = organization_id {
            assert(words[4] == "--organizationid"@ && words[5] == other);
        }
    } else if let Some(id) = organization_id {
        assert(words[2] == "--organizationid"@ && words[3] == id);
    }
}

/// A login names the account, takes the password from the environment, and
/// hands over a second step, method and code each behind its switch, exactly
/// where both are given.
pub proof fn law_login_hands_over_what_is_given(cli: CliView, options: OptionsView)
    ensures
        ({
            let words = login_args(cli, options);
            &&& words.len() >= 4 && words[0] == "login"@ && words[1] == cli.email
            &&& words[2] == "--passwordenv"@ && words[3] == "BW_BROKER_MASTER_PASSWORD"@
            &&& options.method is Some && options.code is Some ==> {
                &&& words.len() == 8
                &&& words[4] == "--method"@ && words[5] == options.method->0
                &&& words[6] == "--code"@ && words[7] == options.code->0
            }
            &&& options.method is None || options.code is None ==> words.len() == 4
        }),
{
}

/// A call of the program carries the given words at its end, and before them
/// that nobody is there to answer, that the output is wanted raw where it is,
/// and the session's key where there is one. Its environment names the broker's
/// own profile, and the password exactly where one is handed over.
pub proof fn law_call_carries_its_words(
    cli: CliView,
    args: Seq<Seq<char>>,
    session: Option<Seq<char>>,
    password: Option<Seq<char>>,
    raw: bool,
)
    ensures
        ({
            let call = cli_process(cli, args, session, password, raw);
            let at: int = if raw {
                2
            } else {
                1
            };
            let start: int = if session is Some {
                at + 2
            } else {
                at
            };
            &&& call.program == cli.bw_path
            &&& call.stdin is None
            &&& call.args.len() == start + args.len()
            &&& call.args.skip(start) == args
            &&& call.args[0] == "--nointeraction"@
            &&& raw ==> call.args[1] == "--raw"@
            &&& session is Some ==> call.args[at] == "--session"@ && call.args[at + 1]
                == session->0
            &&& call.envs.len() >= 2
            &&& call.envs[0] == ("BITWARDENCLI_APPDATA_DIR"@, cli.appdata_dir)
            &&& call.envs[1] == ("BW_NOINTERACTION"@, "true"@)
            &&& password is Some ==> call.envs.len() == 3 && call.envs[2] == (
                "BW_BROKER_MASTER_PASSWORD"@,
                password->0,
            )
            &&& password is None ==> call.envs.len() == 2
        }),
{
    let call = cli_process(cli, args, session, password, raw);
    let at: int = if raw {
        2
    } else {
        1
    };
    let start: int = if session is Some {
        at + 2
    } else {
        at
    };
    assert(call.args.skip(start) =~= args);
}

/// The calls that open a vault: the password goes only to the two that need it,
/// a login and an unlocking, whose output is then the key alone.
pub proof fn law_opening_calls(cli: CliView, password: Seq<char>, options: OptionsView)
    ensures
        phase_process(cli, password, options, UnlockPhase::FirstStatus).args == seq![
            "--nointeraction"@,
            "status"@,
        ],
        phase_process(cli, password, options, UnlockPhase::SecondStatus).args == seq![
            "--nointeraction"@,
            "status"@,
        ],
        phase_process(cli, password, options, UnlockPhase::ConfigureServer).args == seq![
            "--nointeraction"@,
            "config"@,
            "server"@,
            cli.server_url,
        ],
        phase_process(cli, password, options, UnlockPhase::Unlocking).args == seq![
            "--nointeraction"@,
            "--raw"@,
            "unlock"@,
            "--passwordenv"@,
            "BW_BROKER_MASTER_PASSWORD"@,
        ],
        phase_process(cli, password, options, UnlockPhase::LoggingIn).args == seq![
            "--nointeraction"@,
            "--raw"@,
        ] + login_args(cli, options),
        forall|phase: UnlockPhase| #[trigger]
            phase_process(cli, password, options, phase).envs.contains(
                ("BW_BROKER_MASTER_PASSWORD"@, password),
            ) <==> phase == UnlockPhase::LoggingIn || phase == UnlockPhase::Unlocking,
{
    assert forall|phase: UnlockPhase| #[trigger]
        phase_process(cli, password, options, phase).envs.contains(
            ("BW_BROKER_MASTER_PASSWORD"@, password),
        ) <==> phase == UnlockPhase::LoggingIn || phase == UnlockPhase::Unlocking by {
        let envs = phase_process(cli, password, options, phase).envs;
        reveal_strlit("BW_BROKER_MASTER_PASSWORD");
        reveal_strlit("BITWARDENCLI_APPDATA_DIR");
        reveal_strlit("BW_NOINTERACTION");
        assert("BW_BROKER_MASTER_PASSWORD"@.len() == 25);
        assert("BITWARDENCLI_APPDATA_DIR"@.len() == 24);
        assert("BW_NOINTERACTION"@.len() == 16);
        if opens_session(phase) {
            assert(envs[2] == ("BW_BROKER_MASTER_PASSWORD"@, password));
        } else {
            assert(envs.len() == 2);
        }
    }
}

/// Where the words of a call are shown, each is shown in its place, but for a
/// code: what stands directly behind the switch for it is hidden, and nothing
/// else is.
pub proof fn law_only_codes_are_hidden(args: Seq<Seq<char>>)
    ensures
        redacted(args).len() == args.len(),
        forall|i: int|
            0 <= i < args.len() && #[trigger] redacted(args)[i] != args[i] ==> i > 0 && args[i - 1]
                == "--code"@ && redacted(args)[i] == "<redacted>"@,
        forall|i: int|
            0 < i < args.len() && args[i - 1] == "--code"@ && (i == 1 || args[i - 2] != "--code"@)
                ==> #[trigger] redacted(args)[i] == "<redacted>"@,
    decreases args.len(),
{
    if args.len() > 0 {
        let n: int = if args[0] == "--code"@ && args.len() > 1 {
            2
        } else {
            1
        };
        let rest = args.skip(n);
        law_only_codes_are_hidden(rest);
        assert forall|i: int| n <= i < args.len() implies {
            &&& #[trigger] redacted(args)[i] == redacted(rest)[i - n]
            &&& args[i] == rest[i - n]
        } by {}
        assert forall|i: int|
            0 <= i < args.len() && #[trigger] redacted(args)[i] != args[i] implies i > 0 && args[i
            - 1] == "--code"@ && redacted(args)[i] == "<redacted>"@ by {
            if i >= n {
                assert(redacted(rest)[i - n] != rest[i - n]);
                assert(args[i - 1] == rest[i - n - 1]);
            }
        }
        assert forall|i: int|
            0 < i < args.len() && args[i - 1] == "--code"@ && (i == 1 || args[i - 2]
                != "--code"@) implies #[trigger] redacted(args)[i] == "<redacted>"@ by {
            if i >= n {
                if n == 2 && i == 2 {
                    assert(args[0] == "--code"@);
                } else if i == n {
                    assert(n == 1 && args[0] == "--code"@ && args.len() > 1);
                } else {
                    assert(args[i - 1] == rest[i - n - 1]);
                    if i - n >= 2 {
                        assert(args[i - 2] == rest[i - n - 2]);
                    }
                    assert(redacted(rest)[i - n] == "<redacted>"@);
                }
            }
        }
    }
}

/// A call is shown as it is made, word by word behind the program's name, with
/// the code and the session's key hidden.
pub proof fn law_call_is_shown_as_made(
    cli: CliView,
    args: Seq<Seq<char>>,
    password: Option<Seq<char>>,
    raw: bool,
)
    ensures
        shown_command(cli, args, true, raw) == joined(
            seq![cli.bw_path] + cli_process(
                cli,
                redacted(args),
                Some("<redacted>"@),
                password,
                raw,
            ).args,
            " "@,
        ),
        shown_command(cli, args, false, raw) == joined(
            seq![cli.bw_path] + cli_process(cli, redacted(args), None, password, raw).args,
            " "@,
        ),
{
    assert(seq![cli.bw_path] + switches(raw, Some("<redacted>"@)) + redacted(args) =~= seq![
        cli.bw_path,
    ] + cli_process(cli, redacted(args), Some("<redacted>"@), password, raw).args);
    assert(seq![cli.bw_path] + switches(raw, None) + redacted(args) =~= seq![cli.bw_path]
        + cli_process(cli, redacted(args), None, password, raw).args);
}

/// A call that succeeds gives out what it printed. One that fails is reported
/// with its words, its status and what it printed as its error, or else as its
/// output; one that never started, with the program's name and the cause.
pub proof fn law_call_is_taken_at_its_word(
    cli: CliView,
    args: Seq<Seq<char>>,
    has_session: bool,
    raw: bool,
    answer: ReplyView,
)
    ensures
        ({
            let checked = checked_reply(cli, args, has_session, raw, answer);
            match answer {
                ReplyView::NotStarted(cause) => checked is Err && {
                    &&& checked->Err_0.message() == "failed to run "@ + cli.bw_path
                    &&& checked->Err_0.full_message() == "failed to run "@ + cli.bw_path + ": "@
                        + cause
                },
                ReplyView::Finished(output) => {
                    let printed = if output.stderr.len() > 0 {
                        output.stderr
                    } else {
                        output.stdout
                    };
                    &&& checked is Ok <==> output.success
                    &&& output.success ==> checked == Ok::<Seq<u8>, BwErrorView>(output.stdout)
                    &&& !output.success ==> checked->Err_0.message() == "bw command failed: `"@
                        + shown_command(cli, args, has_session, raw) + "` exited with "@
                        + output.status + "; output: "@ + trimmed(lossy_text(printed))
                },
            }
        }),
{
}

/// Output that is to be read as JSON is read whole; what cannot be read is an
/// error in the words of the reader.
pub proof fn law_output_is_read_whole(stdout: Seq<u8>)
    ensures
        match json_text(stdout) {
            Ok(value) => json_reply(Ok(stdout)) == Ok::<JsonView, BwErrorView>(value),
            Err(text) => json_reply(Ok(stdout)) is Err && json_reply(
                Ok(stdout),
            )->Err_0.message() == text,
        },
        match json_list(stdout) {
            Ok(items) => items_reply(Ok(stdout)) == Ok::<Seq<JsonView>, BwErrorView>(items),
            Err(text) => items_reply(Ok(stdout)) is Err && items_reply(
                Ok(stdout),
            )->Err_0.message() == text,
        },
        forall|e: BwErrorView| #[trigger] json_reply(Err(e)) == Err::<JsonView, BwErrorView>(e),
        forall|e: BwErrorView| #[trigger]
            items_reply(Err(e)) == Err::<Seq<JsonView>, BwErrorView>(e),
        forall|e: BwErrorView| #[trigger]
            session_reply(Err(e)) == Err::<Seq<char>, BwErrorView>(e),
        !valid_utf8(stdout) ==> session_reply(Ok(stdout)) is Err && session_reply(
            Ok(stdout),
        )->Err_0.message() == utf8_fault(stdout),
{
}

/// The session's key is what was printed, without the white space around it;
/// where nothing else was printed there is no session.
pub proof fn law_session_key_is_what_was_printed(stdout: Seq<u8>)
    requires
        valid_utf8(stdout),
    ensures
        ({
            let printed = decode_utf8(stdout);
            match session_reply(Ok(stdout)) {
                Ok(key) => {
                    &&& key.len() > 0 && !is_space(key[0]) && !is_space(key.last())
                    &&& exists|i: int, j: int|
                        #![trigger printed.subrange(i, j)]
                        {
                            &&& 0 <= i <= j <= printed.len()
                            &&& key == printed.subrange(i, j)
                            &&& forall|k: int| 0 <= k < i ==> is_space(#[trigger] printed[k])
                            &&& forall|k: int|
                                j <= k < printed.len() ==> is_space(#[trigger] printed[k])
                        }
                },
                Err(e) => {
                    &&& e.message() == "bw did not return a session key"@
                    &&& forall|k: int| 0 <= k < printed.len() ==> is_space(#[trigger] printed[k])
                },
            }
        }),
{
    law_trimmed_is_what_white_space_surrounds(decode_utf8(stdout));
}

/// Before a vault is opened, its server: where none is configured, or the
/// configured one is in use, nothing is to be done; where another is in use, or
/// none, it is changed for a profile that is logged out, and refused for any
/// other.
pub proof fn law_server_is_changed_only_when_logged_out(cli: CliView, status: JsonView)
    ensures
        ({
            let check = server_check(cli, status);
            let used = status.text_at("serverUrl"@);
            let logged_out = status.text_at("status"@) == Some("unauthenticated"@);
            let fine = cli.server_url.len() == 0 || used == Some(cli.server_url);
            &&& check == Ok::<bool, BwErrorView>(false) <==> fine
            &&& check == Ok::<bool, BwErrorView>(true) <==> !fine && logged_out
            &&& check is Err ==> check->Err_0.message() == "bw profile is logged in to server `"@
                + (if used is Some {
                used->0
            } else {
                Seq::empty()
            }) + "`, but broker config requires `"@ + cli.server_url
                + "`; log out of the isolated broker profile before changing server URL"@
        }),
{
}

/// A profile that is logged out is logged in, which takes an account; any other
/// is unlocked.
pub proof fn law_only_logged_out_profile_logs_in(cli: CliView, status: JsonView)
    ensures
        ({
            let phase = opening_phase(cli, status);
            let logged_out = status.text_at("status"@) == Some("unauthenticated"@);
            &&& !logged_out <==> phase == Ok::<UnlockPhase, BwErrorView>(UnlockPhase::Unlocking)
            &&& logged_out && cli.email.len() > 0 <==> phase == Ok::<UnlockPhase, BwErrorView>(
                UnlockPhase::LoggingIn,
            )
            &&& phase is Err ==> phase->Err_0.message()
                == "bw is unauthenticated and bitwarden.email is not configured"@
        }),
{
}

/// A second step of a login takes both its method and its code. Where one is
/// missing the fault names the one that was given and the one that was not.
pub proof fn law_second_step_takes_both(
    options: OptionsView,
    method_arg: Seq<char>,
    code_arg: Seq<char>,
)
    ensures
        ({
            let fault = options_fault(options, method_arg, code_arg);
            &&& fault is None <==> (options.method is Some <==> options.code is Some)
            &&& options.method is Some && options.code is None ==> fault->0.message() == method_arg
                + " requires "@ + code_arg
            &&& options.method is None && options.code is Some ==> fault->0.message() == code_arg
                + " requires "@ + method_arg
        }),
{
}

/// A vault is opened by a status, a change of server where one is owed, a second
/// status, and a login or an unlocking that gives the key: each step that
/// succeeds leads to the next, and one that fails ends it.
pub proof fn law_opening_goes_step_by_step(
    cli: CliView,
    password: Seq<char>,
    options: OptionsView,
    output: OutputView,
)
    requires
        output.success,
    ensures
        ({
            let answer = ReplyView::Finished(output);
            let first = unlock_after(cli, password, options, UnlockPhase::FirstStatus, answer);
            let changed = unlock_after(cli, password, options, UnlockPhase::ConfigureServer, answer);
            let second = unlock_after(cli, password, options, UnlockPhase::SecondStatus, answer);
            &&& changed matches UnlockView::Run(next, _) && next == UnlockPhase::SecondStatus
            &&& match json_text(output.stdout) {
                Err(text) => {
                    &&& first matches UnlockView::Failed(e) && e.message() == text
                    &&& second matches UnlockView::Failed(e) && e.message() == text
                },
                Ok(status) => {
                    &&& match server_check(cli, status) {
                        Ok(change) => first matches UnlockView::Run(next, _) && next == if change {
                            UnlockPhase::ConfigureServer
                        } else {
                            UnlockPhase::SecondStatus
                        },
                        Err(e) => first == UnlockView::Failed(e),
                    }
                    &&& match opening_phase(cli, status) {
                        Ok(phase) => second matches UnlockView::Run(next, _) && next == phase,
                        Err(e) => second == UnlockView::Failed(e),
                    }
                },
            }
        }),
{
}

/// A login or an unlocking that succeeds ends in the key that it printed, and
/// any step that fails ends in the report of that failure.
pub proof fn law_opening_ends_in_a_key_or_a_report(
    cli: CliView,
    password: Seq<char>,
    options: OptionsView,
    phase: UnlockPhase,
    answer: ReplyView,
)
    ensures
        ({
            let next = unlock_after(cli, password, options, phase, answer);
            let words = phase_args(cli, options, phase);
            let raw = phase == UnlockPhase::LoggingIn || phase == UnlockPhase::Unlocking;
            &&& checked_reply(cli, words, false, raw, answer) is Err ==> next
                == UnlockView::Failed(checked_reply(cli, words, false, raw, answer)->Err_0)
            &&& next is Session ==> raw
            &&& raw && checked_reply(cli, words, false, raw, answer) is Ok ==> match session_reply(
                Ok(checked_reply(cli, words, false, raw, answer)->Ok_0),
            ) {
                Ok(key) => next == UnlockView::Session(key),
                Err(e) => next == UnlockView::Failed(e),
            }
        }),
{
}

/// The program, its server, its account and its profile are those of the
/// configuration.
pub proof fn law_configured_program_is_called(
    config: Config,
    home: Seq<char>,
    user_home: Option<Seq<char>>,
)
    ensures
        ({
            let cli = cli_of(config, home, user_home);
            &&& cli.bw_path == config.bitwarden.bw_path@
            &&& cli.server_url == config.bitwarden.server_url@
            &&& cli.email == config.bitwarden.email@
            &&& cli.appdata_dir == expanded_path(config.bitwarden.appdata_dir@, home, user_home)
        }),
{
}

/// Opening a vault starts with its status, unless a second step is given by
/// half: then the half that is there and the one that is not are named.
pub proof fn law_opening_starts_with_a_status(
    cli: CliView,
    password: Seq<char>,
    options: OptionsView,
)
    ensures
        ({
            let start = unlock_start(cli, password, options);
            let method = "two-step login method"@;
            let code = "two-step login code"@;
            &&& (options.method is Some <==> options.code is Some) ==> start == UnlockView::Run(
                UnlockPhase::FirstStatus,
                phase_process(cli, password, options, UnlockPhase::FirstStatus),
            )
            &&& options.method is Some && options.code is None ==> (start matches
                UnlockView::Failed(e) && e.message() == method + " requires "@ + code)
            &&& options.method is None && options.code is Some ==> (start matches
                UnlockView::Failed(e) && e.message() == code + " requires "@ + method)
        }),
{
}

} // verus!
