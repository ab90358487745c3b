//! The helper program that keeps the master password in the keychain.
use vstd::prelude::*;
use vstd::utf8::{decode_utf8, valid_utf8};

use crate::config::{expand_path, expanded_path, join_path, path_below, Config};
use crate::primitives::{base64_text, random_token};
use crate::process::{
    push_text, OutputView, ProcessOutput, ProcessReply, ProcessSpec, ProcessView, ReplyView,
};
use crate::text::{
    from_utf8, from_utf8_lossy, lossy_text, opt_str, texts, trim, trimmed, utf8_fault,
};

verus! {

/// What can go wrong with the helper program.
#[derive(Debug)]
pub enum KeychainError {
    /// The helper could not be launched.
    NotLaunched { cause: String },
    /// A program could not be run, and there is no more to say than why.
    NotRun { cause: String },
    /// The helper reported a failure in these words.
    Refused(String),
    /// The helper printed something other than text.
    BadText(String),
    UnexpectedValue,
    CompilerNotRun { source: String, cause: String },
    BuildFailed(String),
}

/// What can go wrong with the helper program, as mathematics.
pub enum KeychainErrorView {
    NotLaunched { cause: Seq<char> },
    NotRun { cause: Seq<char> },
    Refused(Seq<char>),
    BadText(Seq<char>),
    UnexpectedValue,
    CompilerNotRun { source: Seq<char>, cause: Seq<char> },
    BuildFailed(Seq<char>),
}

impl View for KeychainError {
    type V = KeychainErrorView;

    open spec fn view(&self) -> KeychainErrorView {
        match self {
            KeychainError::NotLaunched { cause } => KeychainErrorView::NotLaunched {
                cause: cause@,
            },
            KeychainError::NotRun { cause } => KeychainErrorView::NotRun { cause: cause@ },
            KeychainError::Refused(text) => KeychainErrorView::Refused(text@),
            KeychainError::BadText(text) => KeychainErrorView::BadText(text@),
            KeychainError::UnexpectedValue => KeychainErrorView::UnexpectedValue,
            KeychainError::CompilerNotRun { source, cause } => KeychainErrorView::CompilerNotRun {
                source: source@,
                cause: cause@,
            },
            KeychainError::BuildFailed(text) => KeychainErrorView::BuildFailed(text@),
        }
    }
}

impl KeychainErrorView {
    /// The message that is shown.
    pub open spec fn message(self) -> Seq<char> {
        match self {
            KeychainErrorView::NotLaunched { cause: _ } => "failed to launch keychain helper"@,
            KeychainErrorView::NotRun { cause } => cause,
            KeychainErrorView::Refused(text) => text,
            KeychainErrorView::BadText(text) => text,
            KeychainErrorView::UnexpectedValue => "self-test read returned unexpected value"@,
            KeychainErrorView::CompilerNotRun { source, cause: _ } => "failed to run swiftc for "@
                + source,
            KeychainErrorView::BuildFailed(text) => "failed to build keychain helper: "@ + text,
        }
    }

    /// The message with what lies behind it.
    pub open spec fn full_message(self) -> Seq<char> {
        match self {
            KeychainErrorView::NotLaunched { cause } => self.message() + ": "@ + cause,
            KeychainErrorView::CompilerNotRun { source: _, cause } => self.message() + ": "@
                + cause,
            _ => self.message(),
        }
    }
}

impl KeychainError {
    /// The message that is shown.
    pub fn message(&self) -> (r: String)
        ensures
            r@ == self@.message(),
    {
        match self {
            KeychainError::NotLaunched { cause: _ } =>
            "failed to launch keychain helper".to_string(),
            KeychainError::NotRun { cause } => cause.clone(),
            KeychainError::Refused(text) => text.clone(),
            KeychainError::BadText(text) => text.clone(),
            KeychainError::UnexpectedValue =>
            "self-test read returned unexpected value".to_string(),
            KeychainError::CompilerNotRun { source, cause: _ } =>
            "failed to run swiftc for ".to_string().concat(source.as_str()),
            KeychainError::BuildFailed(text) =>
            "failed to build keychain helper: ".to_string().concat(text.as_str()),
        }
    }

    /// The message with what lies behind it.
    pub fn full_message(&self) -> (r: String)
        ensures
            r@ == self@.full_message(),
    {
        match self {
            KeychainError::NotLaunched { cause } => self.message().concat(": ").concat(
                cause.as_str(),
            ),
            KeychainError::CompilerNotRun { source: _, cause } => self.message().concat(
                ": ",
            ).concat(cause.as_str()),
            _ => self.message(),
        }
    }
}

/// Where the helper stands.
pub fn helper_path(config: &Config, home: &str, user_home: Option<&str>) -> (r: String)
    ensures
        r@ == expanded_path(config.keychain.helper_path@, home@, opt_str(user_home)),
{
    expand_path(config.keychain.helper_path.as_str(), home, user_home)
}

/// A call of the helper.
pub open spec fn helper_process(
    helper: Seq<char>,
    command: Seq<char>,
    service: Seq<char>,
    account: Seq<char>,
    reason: Option<Seq<char>>,
    stdin: Option<Seq<char>>,
) -> ProcessView {
    ProcessView {
        program: helper,
        args: seq![command, "--service"@, service, "--account"@, account] + match reason {
            Some(reason) => seq!["--reason"@, reason],
            None => Seq::empty(),
        },
        envs: Seq::empty(),
        stdin,
    }
}

/// Puts a call of the helper together.
pub fn run_helper(
    helper: &str,
    command: &str,
    service: &str,
    account: &str,
    reason: Option<&str>,
) -> (r: ProcessSpec)
    ensures
        r@ == helper_process(helper@, command@, service@, account@, opt_str(reason), None),
{
    let mut args: Vec<String> = Vec::new();
    push_text(&mut args, command);
    push_text(&mut args, "--service");
    push_text(&mut args, service);
    push_text(&mut args, "--account");
    push_text(&mut args, account);
    if let Some(reason) = reason {
        push_text(&mut args, "--reason");
        push_text(&mut args, reason);
    }
    assert(texts(args@) =~= helper_process(
        helper@,
        command@,
        service@,
        account@,
        opt_str(reason),
        None,
    ).args);
    let r = ProcessSpec { program: helper.to_string(), args, envs: Vec::new(), stdin: None };
    assert(r@.envs =~= Seq::empty());
    r
}

/// Puts a call of the helper together that is given something to read.
pub fn run_helper_with_stdin(
    helper: &str,
    command: &str,
    service: &str,
    account: &str,
    reason: Option<&str>,
    stdin: &str,
) -> (r: ProcessSpec)
    ensures
        r@ == helper_process(helper@, command@, service@, account@, opt_str(reason), Some(stdin@)),
{
    let process = run_helper(helper, command, service, account, reason);
    ProcessSpec {
        program: process.program,
        args: process.args,
        envs: process.envs,
        stdin: Some(stdin.to_string()),
    }
}

/// A call of the configured helper for the configured account.
pub open spec fn configured_process(
    config: Config,
    home: Seq<char>,
    user_home: Option<Seq<char>>,
    command: Seq<char>,
    reason: Option<Seq<char>>,
    stdin: Option<Seq<char>>,
) -> ProcessView {
    helper_process(
        expanded_path(config.keychain.helper_path@, home, user_home),
        command,
        config.keychain.service@,
        config.keychain.account@,
        reason,
        stdin,
    )
}

/// A call of the configured helper with no more than a command.
pub fn helper_command(config: &Config, home: &str, user_home: Option<&str>, command: &str) -> (r:
    ProcessSpec)
    ensures
        r@ == configured_process(*config, home@, opt_str(user_home), command@, None, None),
{
    run_helper(
        helper_path(config, home, user_home).as_str(),
        command,
        config.keychain.service.as_str(),
        config.keychain.account.as_str(),
        None,
    )
}

/// The call that stores the master password. The password is given to the
/// helper to read.
pub fn store_master_password(
    config: &Config,
    home: &str,
    user_home: Option<&str>,
    password: &str,
) -> (r: ProcessSpec)
    ensures
        r@ == configured_process(
            *config,
            home@,
            opt_str(user_home),
            "store"@,
            None,
            Some(password@),
        ),
{
    run_helper_with_stdin(
        helper_path(config, home, user_home).as_str(),
        "store",
        config.keychain.service.as_str(),
        config.keychain.account.as_str(),
        None,
        password,
    )
}

/// What a failed call is reported as.
pub open spec fn refusal(output: OutputView) -> KeychainErrorView {
    KeychainErrorView::Refused(trimmed(lossy_text(output.stderr)))
}

fn refused(output: &ProcessOutput) -> (r: KeychainError)
    ensures
        r@ == refusal(output@),
{
    KeychainError::Refused(trim(from_utf8_lossy(&output.stderr).as_str()))
}

/// What is wrong with a call that was to store something, if anything.
pub open spec fn store_fault(reply: ReplyView) -> Option<KeychainErrorView> {
    match reply {
        ReplyView::NotStarted(cause) => Some(KeychainErrorView::NotLaunched { cause }),
        ReplyView::Finished(output) => if output.success {
            None
        } else {
            Some(refusal(output))
        },
    }
}

/// Whether the master password was stored.
pub fn read_stored(reply: ProcessReply) -> (r: Result<(), KeychainError>)
    ensures
        match r {
            Ok(()) => store_fault(reply@) is None,
            Err(e) => store_fault(reply@) == Some(e@),
        },
{
    match reply {
        ProcessReply::NotStarted(cause) => Err(KeychainError::NotLaunched { cause }),
        ProcessReply::Finished(output) => if output.success {
            Ok(())
        } else {
            Err(refused(&output))
        },
    }
}

/// The call that reads the master password, for a reason that the user is shown.
pub fn read_master_password(
    config: &Config,
    home: &str,
    user_home: Option<&str>,
    reason: &str,
) -> (r: ProcessSpec)
    ensures
        r@ == configured_process(
            *config,
            home@,
            opt_str(user_home),
            "read"@,
            Some(reason@),
            None,
        ),
{
    run_helper(
        helper_path(config, home, user_home).as_str(),
        "read",
        config.keychain.service.as_str(),
        config.keychain.account.as_str(),
        Some(reason),
    )
}

/// The master password that a call read, or what went wrong. The password is
/// all that was printed, with any blanks around it.
pub open spec fn password_of(reply: ReplyView) -> Result<Seq<char>, KeychainErrorView> {
    match reply {
        ReplyView::NotStarted(cause) => Err(KeychainErrorView::NotLaunched { cause }),
        ReplyView::Finished(output) => if !output.success {
            Err(refusal(output))
        } else if valid_utf8(output.stdout) {
            Ok(decode_utf8(output.stdout))
        } else {
            Err(KeychainErrorView::BadText(utf8_fault(output.stdout)))
        },
    }
}

/// The text of a result, or its error.
pub open spec fn password_view(r: Result<String, KeychainError>) -> Result<
    Seq<char>,
    KeychainErrorView,
> {
    match r {
        Ok(s) => Ok(s@),
        Err(e) => Err(e@),
    }
}

/// The master password, from what became of the call.
pub fn read_password(reply: ProcessReply) -> (r: Result<String, KeychainError>)
    ensures
        password_view(r) == password_of(reply@),
{
    match reply {
        ProcessReply::NotStarted(cause) => Err(KeychainError::NotLaunched { cause }),
        ProcessReply::Finished(output) => if output.success {
            match from_utf8(output.stdout) {
                Ok(password) => Ok(password),
                Err(text) => Err(KeychainError::BadText(text)),
            }
        } else {
            Err(refused(&output))
        },
    }
}

/// The call that asks whether there is a master password.
pub fn has_master_password(config: &Config, home: &str, user_home: Option<&str>) -> (r: ProcessSpec)
    ensures
        r@ == configured_process(*config, home@, opt_str(user_home), "exists"@, None, None),
{
    helper_command(config, home, user_home, "exists")
}

/// Whether there is a master password: a helper that cannot be run has none.
pub fn read_exists(reply: &ProcessReply) -> (r: bool)
    ensures
        r == (reply@ matches ReplyView::Finished(output) && output.success),
{
    match reply {
        ProcessReply::NotStarted(_) => false,
        ProcessReply::Finished(output) => output.success,
    }
}

/// The call that deletes the master password.
pub fn delete_master_password(config: &Config, home: &str, user_home: Option<&str>) -> (r:
    ProcessSpec)
    ensures
        r@ == configured_process(*config, home@, opt_str(user_home), "delete"@, None, None),
{
    helper_command(config, home, user_home, "delete")
}

/// What is wrong with a call, if anything, where a program that could not be run
/// is reported as such.
pub open spec fn run_fault(reply: ReplyView) -> Option<KeychainErrorView> {
    match reply {
        ReplyView::NotStarted(cause) => Some(KeychainErrorView::NotRun { cause }),
        ReplyView::Finished(output) => if output.success {
            None
        } else {
            Some(refusal(output))
        },
    }
}

/// Whether a secret was deleted.
pub fn read_deleted(reply: ProcessReply) -> (r: Result<(), KeychainError>)
    ensures
        match r {
            Ok(()) => run_fault(reply@) is None,
            Err(e) => run_fault(reply@) == Some(e@),
        },
{
    went_well(reply)
}

fn went_well(reply: ProcessReply) -> (r: Result<(), KeychainError>)
    ensures
        match r {
            Ok(()) => run_fault(reply@) is None,
            Err(e) => run_fault(reply@) == Some(e@),
        },
{
    match reply {
        ProcessReply::NotStarted(cause) => Err(KeychainError::NotRun { cause }),
        ProcessReply::Finished(output) => if output.success {
            Ok(())
        } else {
            Err(refused(&output))
        },
    }
}

/// Where the source of the helper stands.
pub open spec fn source_below(project: Seq<char>) -> Seq<char> {
    path_below(path_below(project, "keychain"@), "TouchIDSecret.swift"@)
}

/// Where the source of the helper stands.
pub fn helper_source(project: &str) -> (r: String)
    ensures
        r@ == source_below(project@),
{
    join_path(join_path(project, "keychain").as_str(), "TouchIDSecret.swift")
}

/// The call that builds the helper.
pub fn build_helper(config: &Config, home: &str, user_home: Option<&str>, project: &str) -> (r:
    ProcessSpec)
    ensures
        r@ == (ProcessView {
            program: "swiftc"@,
            args: seq![
                source_below(project@),
                "-o"@,
                expanded_path(config.keychain.helper_path@, home@, opt_str(user_home)),
            ],
            envs: Seq::empty(),
            stdin: None,
        }),
{
    let target = helper_path(config, home, user_home);
    let mut args: Vec<String> = Vec::new();
    push_text(&mut args, helper_source(project).as_str());
    push_text(&mut args, "-o");
    push_text(&mut args, target.as_str());
    assert(texts(args@) =~= seq![source_below(project@), "-o"@, target@]);
    let r = ProcessSpec { program: "swiftc".to_string(), args, envs: Vec::new(), stdin: None };
    assert(r@.envs =~= Seq::empty());
    r
}

/// What is wrong with a build of the helper, if anything.
pub open spec fn build_fault(project: Seq<char>, reply: ReplyView) -> Option<KeychainErrorView> {
    match reply {
        ReplyView::NotStarted(cause) => Some(
            KeychainErrorView::CompilerNotRun { source: source_below(project), cause },
        ),
        ReplyView::Finished(output) => if output.success {
            None
        } else {
            Some(KeychainErrorView::BuildFailed(trimmed(lossy_text(output.stderr))))
        },
    }
}

/// Whether the helper was built.
pub fn read_built(project: &str, reply: ProcessReply) -> (r: Result<(), KeychainError>)
    ensures
        match r {
            Ok(()) => build_fault(project@, reply@) is None,
            Err(e) => build_fault(project@, reply@) == Some(e@),
        },
{
    match reply {
        ProcessReply::NotStarted(cause) => Err(
            KeychainError::CompilerNotRun { source: helper_source(project), cause },
        ),
        ProcessReply::Finished(output) => if output.success {
            Ok(())
        } else {
            Err(
                KeychainError::BuildFailed(trim(from_utf8_lossy(&output.stderr).as_str())),
            )
        },
    }
}

/// A trial of the helper with a throwaway secret.
#[derive(Debug)]
pub struct SelfTest {
    pub helper: String,
    pub account: String,
    pub value: String,
}

/// A trial of the helper, as mathematics.
pub struct SelfTestView {
    pub helper: Seq<char>,
    pub account: Seq<char>,
    pub value: Seq<char>,
}

impl View for SelfTest {
    type V = SelfTestView;

    open spec fn view(&self) -> SelfTestView {
        SelfTestView { helper: self.helper@, account: self.account@, value: self.value@ }
    }
}

/// Where a trial stands: the call whose answer is awaited.
#[derive(Debug)]
pub enum TestPhase {
    Storing,
    Reading,
    /// The secret is deleted again; this is what reading it gave.
    Deleting { read: ProcessOutput },
}

/// Where a trial stands, as mathematics.
pub enum TestPhaseView {
    Storing,
    Reading,
    Deleting { read: OutputView },
}

impl View for TestPhase {
    type V = TestPhaseView;

    open spec fn view(&self) -> TestPhaseView {
        match self {
            TestPhase::Storing => TestPhaseView::Storing,
            TestPhase::Reading => TestPhaseView::Reading,
            TestPhase::Deleting { read } => TestPhaseView::Deleting { read: read@ },
        }
    }
}

/// What comes next in a trial.
#[derive(Debug)]
pub enum TestNext {
    Run(TestPhase, ProcessSpec),
    Finished(Result<(), KeychainError>),
}

/// What comes next in a trial, as mathematics.
pub enum TestNextView {
    Run(TestPhaseView, ProcessView),
    Passed,
    Failed(KeychainErrorView),
}

impl View for TestNext {
    type V = TestNextView;

    open spec fn view(&self) -> TestNextView {
        match self {
            TestNext::Run(phase, process) => TestNextView::Run(phase@, process@),
            TestNext::Finished(Ok(())) => TestNextView::Passed,
            TestNext::Finished(Err(e)) => TestNextView::Failed(e@),
        }
    }
}

/// The call that a phase of a trial stands for.
pub open spec fn test_process(test: SelfTestView, phase: TestPhaseView) -> ProcessView {
    let service = "bw-touchid-broker.self-test"@;
    match phase {
        TestPhaseView::Storing => helper_process(
            test.helper,
            "store"@,
            service,
            test.account,
            None,
            Some(test.value),
        ),
        TestPhaseView::Reading => helper_process(
            test.helper,
            "read"@,
            service,
            test.account,
            Some("BW broker Keychain self-test"@),
            None,
        ),
        TestPhaseView::Deleting { .. } => helper_process(
            test.helper,
            "delete"@,
            service,
            test.account,
            None,
            None,
        ),
    }
}

/// The trial at a phase.
pub open spec fn test_run(test: SelfTestView, phase: TestPhaseView) -> TestNextView {
    TestNextView::Run(phase, test_process(test, phase))
}

/// How a trial goes on after a call. It passes once the secret is stored, read
/// back and deleted.
pub open spec fn test_after(test: SelfTestView, phase: TestPhaseView, reply: ReplyView) -> TestNextView {
    match phase {
        TestPhaseView::Storing => match run_fault(reply) {
            Some(e) => TestNextView::Failed(e),
            None => test_run(test, TestPhaseView::Reading),
        },
        TestPhaseView::Reading => match reply {
            ReplyView::NotStarted(cause) => TestNextView::Failed(
                KeychainErrorView::NotRun { cause },
            ),
            ReplyView::Finished(read) => test_run(test, TestPhaseView::Deleting { read }),
        },
        TestPhaseView::Deleting { read } => match password_of(ReplyView::Finished(read)) {
            Err(e) => TestNextView::Failed(e),
            Ok(value) => if value != test.value {
                TestNextView::Failed(KeychainErrorView::UnexpectedValue)
            } else {
                match run_fault(reply) {
                    Some(e) => TestNextView::Failed(e),
                    None => TestNextView::Passed,
                }
            },
        },
    }
}

/// Whether a text is a prefix with a random token behind it.
pub open spec fn has_token(s: Seq<char>, prefix: Seq<char>, bytes: nat) -> bool {
    exists|raw: Seq<u8>| raw.len() == bytes && s == prefix + #[trigger] base64_text(raw)
}

/// A trial of the configured helper, with an account and a value of its own.
pub fn self_test(config: &Config, home: &str, user_home: Option<&str>) -> (r: SelfTest)
    ensures
        r.helper@ == expanded_path(config.keychain.helper_path@, home@, opt_str(user_home)),
        has_token(r.account@, "self-test-"@, 8),
        has_token(r.value@, "dummy-"@, 16),
{
    let account_token = random_token(8);
    let value_token = random_token(16);
    SelfTest {
        helper: helper_path(config, home, user_home),
        account: "self-test-".to_string().concat(account_token.as_str()),
        value: "dummy-".to_string().concat(value_token.as_str()),
    }
}

impl SelfTest {
    fn run(&self, phase: TestPhase) -> (r: TestNext)
        ensures
            r@ == test_run(self@, phase@),
    {
        let service = "bw-touchid-broker.self-test";
        let process = match &phase {
            TestPhase::Storing => run_helper_with_stdin(
                self.helper.as_str(),
                "store",
                service,
                self.account.as_str(),
                None,
                self.value.as_str(),
            ),
            TestPhase::Reading => run_helper(
                self.helper.as_str(),
                "read",
                service,
                self.account.as_str(),
                Some("BW broker Keychain self-test"),
            ),
            TestPhase::Deleting { read: _ } => run_helper(
                self.helper.as_str(),
                "delete",
                service,
                self.account.as_str(),
                None,
            ),
        };
        TestNext::Run(phase, process)
    }

    /// Begins the trial.
    pub fn start(&self) -> (r: TestNext)
        ensures
            r@ == test_run(self@, TestPhaseView::Storing),
    {
        self.run(TestPhase::Storing)
    }

    /// Goes on with the trial after a call.
    pub fn step(&self, phase: TestPhase, reply: ProcessReply) -> (r: TestNext)
        ensures
            r@ == test_after(self@, phase@, reply@),
    {
        match phase {
            TestPhase::Storing => match went_well(reply) {
                Err(e) => TestNext::Finished(Err(e)),
                Ok(()) => self.run(TestPhase::Reading),
            },
            TestPhase::Reading => match reply {
                ProcessReply::NotStarted(cause) => TestNext::Finished(
                    Err(KeychainError::NotRun { cause }),
                ),
                ProcessReply::Finished(read) => self.run(TestPhase::Deleting { read }),
            },
            TestPhase::Deleting { read } => match read_password(ProcessReply::Finished(read)) {
                Err(e) => TestNext::Finished(Err(e)),
                Ok(value) => if !(*value.as_str() == *self.value.as_str()) {
                    TestNext::Finished(Err(KeychainError::UnexpectedValue))
                } else {
                    TestNext::Finished(read_deleted(reply))
                },
            },
        }
    }
}

/// A trial uses a service of its own: none of its calls names the service under
/// which the master password is kept, as long as that is another one.
pub proof fn law_self_test_keeps_to_its_service(
    test: SelfTestView,
    phase: TestPhaseView,
    config: Config,
    home: Seq<char>,
    user_home: Option<Seq<char>>,
    command: Seq<char>,
    reason: Option<Seq<char>>,
    stdin: Option<Seq<char>>,
)
    requires
        config.keychain.service@ != "bw-touchid-broker.self-test"@,
    ensures
        test_process(test, phase).args[1] == "--service"@,
        test_process(test, phase).args[2] == "bw-touchid-broker.self-test"@,
        configured_process(config, home, user_home, command, reason, stdin).args[1]
            == "--service"@,
        test_process(test, phase).args[2] != configured_process(
            config,
            home,
            user_home,
            command,
            reason,
            stdin,
        ).args[2],
{
}

/// A trial passes exactly where the value was stored, the same value was read
/// back, and it was deleted again.
pub proof fn law_passed_self_test_read_back(
    test: SelfTestView,
    stored: ReplyView,
    read: ReplyView,
    deleted: ReplyView,
)
    ensures
        ({
            let after_store = test_after(test, TestPhaseView::Storing, stored);
            let after_read = test_after(test, TestPhaseView::Reading, read);
            let passed = after_store == test_run(test, TestPhaseView::Reading) && (
            after_read matches TestNextView::Run(phase, _) && test_after(test, phase, deleted)
                == TestNextView::Passed);
            passed <==> run_fault(stored) is None && password_of(read) == Ok::<
                Seq<char>,
                KeychainErrorView,
            >(test.value) && run_fault(deleted) is None
        }),
{
}

/// A call of the helper says what is to be done, and names the service and the
/// account each behind its switch; a reason is given behind its own exactly
/// where there is one. What is to be stored goes in on standard input alone.
pub proof fn law_helper_call_carries_its_words(
    helper: Seq<char>,
    command: Seq<char>,
    service: Seq<char>,
    account: Seq<char>,
    reason: Option<Seq<char>>,
    stdin: Option<Seq<char>>,
)
    ensures
        ({
            let call = helper_process(helper, command, service, account, reason, stdin);
            &&& call.program == helper
            &&& call.envs.len() == 0
            &&& call.stdin == stdin
            &&& call.args.len() == if reason is Some {
                7int
            } else {
                5int
            }
            &&& call.args[0] == command
            &&& call.args[1] == "--service"@ && call.args[2] == service
            &&& call.args[3] == "--account"@ && call.args[4] == account
            &&& reason is Some ==> call.args[5] == "--reason"@ && call.args[6] == reason->0
        }),
{
}

/// The configured helper is called for the configured service and account.
pub proof fn law_configured_helper_is_called(
    config: Config,
    home: Seq<char>,
    user_home: Option<Seq<char>>,
    command: Seq<char>,
    reason: Option<Seq<char>>,
    stdin: Option<Seq<char>>,
)
    ensures
        ({
            let call = configured_process(config, home, user_home, command, reason, stdin);
            &&& call.program == expanded_path(config.keychain.helper_path@, home, user_home)
            &&& call.args[0] == command
            &&& call.args[1] == "--service"@ && call.args[2] == config.keychain.service@
            &&& call.args[3] == "--account"@ && call.args[4] == config.keychain.account@
            &&& reason is Some ==> call.args[5] == "--reason"@ && call.args[6] == reason->0
            &&& call.stdin == stdin
        }),
{
}

/// The password is what the helper printed, every character of it; there is
/// none where the helper failed, was not started, or printed no text.
pub proof fn law_password_is_what_was_printed(answer: ReplyView)
    ensures
        match answer {
            ReplyView::NotStarted(cause) => password_of(answer) matches Err(e) && {
                &&& e.message() == "failed to launch keychain helper"@
                &&& e.full_message() == "failed to launch keychain helper"@ + ": "@ + cause
            },
            ReplyView::Finished(output) => {
                &&& output.success && valid_utf8(output.stdout) <==> password_of(answer) is Ok
                &&& password_of(answer) is Ok ==> password_of(answer)->Ok_0 == decode_utf8(
                    output.stdout,
                )
                &&& !output.success ==> password_of(answer)->Err_0.message() == trimmed(
                    lossy_text(output.stderr),
                )
                &&& output.success && !valid_utf8(output.stdout) ==> password_of(
                    answer,
                )->Err_0.message() == utf8_fault(output.stdout)
            },
        },
{
}

/// Storing, deleting and building go well exactly where the program ran and
/// succeeded; else the fault tells the cause, or what the program complained of.
pub proof fn law_fault_tells_the_cause(project: Seq<char>, answer: ReplyView)
    ensures
        ({
            let well = answer is Finished && answer->Finished_0.success;
            &&& store_fault(answer) is None <==> well
            &&& run_fault(answer) is None <==> well
            &&& build_fault(project, answer) is None <==> well
        }),
        answer matches ReplyView::NotStarted(cause) ==> {
            &&& store_fault(answer)->0.message() == "failed to launch keychain helper"@
            &&& store_fault(answer)->0.full_message() == "failed to launch keychain helper"@ + ": "@
                + cause
            &&& run_fault(answer)->0.message() == cause
            &&& build_fault(project, answer)->0.message() == "failed to run swiftc for "@
                + source_below(project)
            &&& build_fault(project, answer)->0.full_message() == "failed to run swiftc for "@
                + source_below(project) + ": "@ + cause
        },
        answer is Finished && !answer->Finished_0.success ==> {
            let complaint = trimmed(lossy_text(answer->Finished_0.stderr));
            &&& store_fault(answer)->0.message() == complaint
            &&& run_fault(answer)->0.message() == complaint
            &&& build_fault(project, answer)->0.message() == "failed to build keychain helper: "@
                + complaint
        },
        source_below(project) == path_below(
            path_below(project, "keychain"@),
            "TouchIDSecret.swift"@,
        ),
{
}

/// A self-test stores its value, reads it back and deletes it again whatever was
/// read; it passes exactly where what was read is the value and nothing failed.
pub proof fn law_self_test_goes_step_by_step(
    test: SelfTestView,
    answer: ReplyView,
    read: OutputView,
)
    ensures
        ({
            let well = answer is Finished && answer->Finished_0.success;
            let stored = test_after(test, TestPhaseView::Storing, answer);
            let was_read = test_after(test, TestPhaseView::Reading, answer);
            let deleted = test_after(test, TestPhaseView::Deleting { read }, answer);
            let same = read.success && valid_utf8(read.stdout) && decode_utf8(read.stdout)
                == test.value;
            &&& well ==> (stored matches TestNextView::Run(phase, _) && phase
                == TestPhaseView::Reading)
            &&& !well ==> stored is Failed
            &&& answer is Finished ==> (was_read matches TestNextView::Run(phase, _) && phase == (
            TestPhaseView::Deleting { read: answer->Finished_0 }))
            &&& answer is NotStarted ==> was_read is Failed
            &&& deleted is Passed <==> same && well
            &&& deleted is Passed || deleted is Failed
            &&& read.success && valid_utf8(read.stdout) && decode_utf8(read.stdout) != test.value
                ==> (deleted matches TestNextView::Failed(e) && e.message()
                == "self-test read returned unexpected value"@)
        }),
{
}

/// The calls of a self-test: the value goes in where it is stored and nowhere
/// else, and only the reading gives a reason.
pub proof fn law_self_test_calls(test: SelfTestView, read: OutputView)
    ensures
        ({
            let store = test_process(test, TestPhaseView::Storing);
            let fetch = test_process(test, TestPhaseView::Reading);
            let delete = test_process(test, TestPhaseView::Deleting { read });
            let rest = seq![
                "--service"@,
                "bw-touchid-broker.self-test"@,
                "--account"@,
                test.account,
            ];
            &&& store.program == test.helper && fetch.program == test.helper && delete.program
                == test.helper
            &&& store.args == seq!["store"@] + rest
            &&& fetch.args == seq!["read"@] + rest + seq![
                "--reason"@,
                "BW broker Keychain self-test"@,
            ]
            &&& delete.args == seq!["delete"@] + rest
            &&& store.stdin == Some(test.value)
            &&& fetch.stdin is None && delete.stdin is None
        }),
{
}

} // verus!
