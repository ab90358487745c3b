//! The self-signed certificate that the broker serves with.
use vstd::prelude::*;

use crate::process::{done_view, push_text, ProcessReply, ProcessSpec, ProcessView, ReplyView};
use crate::text::{from_utf8_lossy, lossy_text, texts, trim, trimmed};

verus! {

/// What can go wrong in making a certificate.
#[derive(Debug)]
pub enum CertError {
    /// A file or a directory could not be made or changed.
    NoFile(String),
    NotRun { cause: String },
    Failed(String),
}

/// What can go wrong in making a certificate, as mathematics.
pub enum CertErrorView {
    NoFile(Seq<char>),
    NotRun { cause: Seq<char> },
    Failed(Seq<char>),
}

impl View for CertError {
    type V = CertErrorView;

    open spec fn view(&self) -> CertErrorView {
        match self {
            CertError::NoFile(text) => CertErrorView::NoFile(text@),
            CertError::NotRun { cause } => CertErrorView::NotRun { cause: cause@ },
            CertError::Failed(text) => CertErrorView::Failed(text@),
        }
    }
}

impl CertErrorView {
    /// The message that is shown.
    pub open spec fn message(self) -> Seq<char> {
        match self {
            CertErrorView::NoFile(text) => text,
            CertErrorView::NotRun { cause: _ } => "failed to run openssl"@,
            CertErrorView::Failed(text) => "failed to create self-signed TLS certificate: "@ + text,
        }
    }

    /// The message with what lies behind it.
    pub open spec fn full_message(self) -> Seq<char> {
        match self {
            CertErrorView::NotRun { cause } => self.message() + ": "@ + cause,
            _ => self.message(),
        }
    }
}

impl CertError {
    /// The message that is shown.
    pub fn message(&self) -> (r: String)
        ensures
            r@ == self@.message(),
    {
        match self {
            CertError::NoFile(text) => text.clone(),
            CertError::NotRun { cause: _ } => "failed to run openssl".to_string(),
            CertError::Failed(text) =>
            "failed to create self-signed TLS certificate: ".to_string().concat(text.as_str()),
        }
    }

    /// The message with what lies behind it.
    pub fn full_message(&self) -> (r: String)
        ensures
            r@ == self@.full_message(),
    {
        match self {
            CertError::NotRun { cause } => self.message().concat(": ").concat(cause.as_str()),
            _ => self.message(),
        }
    }
}

/// The settings for the certificate: it is for this machine alone.
pub open spec fn openssl_settings() -> Seq<char> {
    "\n[req]\ndefault_bits = 2048\nprompt = no\ndefault_md = sha256\ndistinguished_name = dn\nx509_extensions = v3_req\n\n[dn]\nCN = localhost\n\n[v3_req]\nsubjectAltName = @alt_names\n\n[alt_names]\nDNS.1 = localhost\nIP.1 = 127.0.0.1\n"@
}

/// The place behind the last occurrence of a character, or the front.
pub open spec fn behind_last(s: Seq<char>, c: char) -> int
    decreases s.len(),
{
    if s.len() == 0 {
        0
    } else if s.last() == c {
        s.len() as int
    } else {
        behind_last(s.drop_last(), c)
    }
}

/// The last component of a path.
pub open spec fn last_component(path: Seq<char>) -> Seq<char> {
    path.skip(behind_last(path, '/'))
}

/// Whether the last component of a path is an ordinary file name. One that is
/// two dots and an extension, with nothing between, does not count as one.
pub open spec fn names_file(path: Seq<char>) -> bool {
    let name = last_component(path);
    &&& name.len() > 0
    &&& name != "."@
    &&& name != ".."@
    &&& behind_last(name, '.') == 2 ==> name[0] != '.'
}

/// A path to a file with what is behind the last dot of its name, and that dot,
/// taken away. A dot at the front of a name begins no extension.
pub open spec fn without_extension(path: Seq<char>) -> Seq<char> {
    let dot = behind_last(last_component(path), '.');
    if dot <= 1 {
        path
    } else {
        path.take(behind_last(path, '/') + dot - 1)
    }
}

/// `std::path::Path::with_extension` on a path as text, on a system where a slash
/// parts the components: the extension of the file name is replaced, or added
/// where there is none. A path that ends in `..` has no file name and stays as it
/// is. Of paths that end in a slash or in a single dot nothing is said, nor of
/// names such as `..key`.
#[verifier::external_body]
fn with_extension(path: &str, extension: &str) -> (r: String)
    requires
        !extension@.contains('/'),
        !extension@.contains('\\'),
        extension@.len() > 0,
    ensures
        names_file(path@) ==> r@ == without_extension(path@) + "."@ + extension@,
        last_component(path@) == ".."@ ==> r@ == path@,
{
    std::path::Path::new(path).with_extension(extension).to_string_lossy().into_owned()
}

/// A certificate that is to be made, its key, and where the settings for it are
/// put meanwhile.
#[derive(Debug)]
pub struct CertPlan {
    pub cert_path: String,
    pub key_path: String,
    pub settings_path: String,
}

/// A certificate that is to be made, as mathematics.
pub struct CertPlanView {
    pub cert_path: Seq<char>,
    pub key_path: Seq<char>,
    pub settings_path: Seq<char>,
}

impl View for CertPlan {
    type V = CertPlanView;

    open spec fn view(&self) -> CertPlanView {
        CertPlanView {
            cert_path: self.cert_path@,
            key_path: self.key_path@,
            settings_path: self.settings_path@,
        }
    }
}

/// Whether a certificate is to be made: not where it and its key are there.
pub open spec fn cert_wanted(cert_exists: bool, key_exists: bool) -> bool {
    !cert_exists || !key_exists
}

/// What is done to have a certificate: nothing where it and its key are there.
pub fn ensure_self_signed_cert(
    cert_path: &str,
    key_path: &str,
    cert_exists: bool,
    key_exists: bool,
) -> (r: Option<CertPlan>)
    ensures
        match r {
            None => !cert_wanted(cert_exists, key_exists),
            Some(plan) => {
                &&& cert_wanted(cert_exists, key_exists)
                &&& plan.cert_path@ == cert_path@
                &&& plan.key_path@ == key_path@
                &&& names_file(key_path@) ==> plan.settings_path@ == without_extension(key_path@)
                    + "."@ + "openssl.cnf"@
                &&& last_component(key_path@) == ".."@ ==> plan.settings_path@ == key_path@
            },
        },
{
    if cert_exists && key_exists {
        return None;
    }
    proof {
        reveal_strlit("openssl.cnf");
    }
    Some(
        CertPlan {
            cert_path: cert_path.to_string(),
            key_path: key_path.to_string(),
            settings_path: with_extension(key_path, "openssl.cnf"),
        },
    )
}

/// The call that makes a key and a certificate for it.
pub open spec fn openssl_process(plan: CertPlanView) -> ProcessView {
    ProcessView {
        program: "openssl"@,
        args: seq![
            "req"@,
            "-x509"@,
            "-newkey"@,
            "rsa:2048"@,
            "-nodes"@,
            "-days"@,
            "825"@,
            "-keyout"@,
            plan.key_path,
            "-out"@,
            plan.cert_path,
            "-config"@,
            plan.settings_path,
        ],
        envs: Seq::empty(),
        stdin: None,
    }
}

/// What is wrong with a certificate that was to be made, if anything.
pub open spec fn cert_fault(reply: ReplyView) -> Option<CertErrorView> {
    match reply {
        ReplyView::NotStarted(cause) => Some(CertErrorView::NotRun { cause }),
        ReplyView::Finished(output) => if output.success {
            None
        } else {
            Some(CertErrorView::Failed(trimmed(lossy_text(output.stderr))))
        },
    }
}

/// Where making a certificate stands: what was done last to a file or directory.
#[derive(Debug)]
pub enum CertPhase {
    MakingCertDir,
    MakingKeyDir,
    WritingSettings,
    /// The settings are removed; this is what went wrong before, if anything.
    RemovingSettings(Option<CertError>),
    SettingKeyMode,
    SettingCertMode,
}

/// Where making a certificate stands, as mathematics.
pub enum CertPhaseView {
    MakingCertDir,
    MakingKeyDir,
    WritingSettings,
    RemovingSettings(Option<CertErrorView>),
    SettingKeyMode,
    SettingCertMode,
}

impl View for CertPhase {
    type V = CertPhaseView;

    open spec fn view(&self) -> CertPhaseView {
        match self {
            CertPhase::MakingCertDir => CertPhaseView::MakingCertDir,
            CertPhase::MakingKeyDir => CertPhaseView::MakingKeyDir,
            CertPhase::WritingSettings => CertPhaseView::WritingSettings,
            CertPhase::RemovingSettings(None) => CertPhaseView::RemovingSettings(None),
            CertPhase::RemovingSettings(Some(e)) => CertPhaseView::RemovingSettings(Some(e@)),
            CertPhase::SettingKeyMode => CertPhaseView::SettingKeyMode,
            CertPhase::SettingCertMode => CertPhaseView::SettingCertMode,
        }
    }
}

/// What comes next in making a certificate.
#[derive(Debug)]
pub enum CertNext {
    /// See that the directory of a file is there.
    MakeDirFor(CertPhase, String),
    /// Write a file with a text.
    WriteFile(CertPhase, String, String),
    /// Make the call, and come back with what became of it.
    Run(ProcessSpec),
    RemoveFile(CertPhase, String),
    /// Give a file a mode.
    SetMode(CertPhase, String, u32),
    Finished(Result<(), CertError>),
}

/// What comes next in making a certificate, as mathematics.
pub enum CertNextView {
    MakeDirFor(CertPhaseView, Seq<char>),
    WriteFile(CertPhaseView, Seq<char>, Seq<char>),
    Run(ProcessView),
    RemoveFile(CertPhaseView, Seq<char>),
    SetMode(CertPhaseView, Seq<char>, u32),
    Made,
    Failed(CertErrorView),
}

impl View for CertNext {
    type V = CertNextView;

    open spec fn view(&self) -> CertNextView {
        match self {
            CertNext::MakeDirFor(phase, path) => CertNextView::MakeDirFor(phase@, path@),
            CertNext::WriteFile(phase, path, text) => CertNextView::WriteFile(
                phase@,
                path@,
                text@,
            ),
            CertNext::Run(process) => CertNextView::Run(process@),
            CertNext::RemoveFile(phase, path) => CertNextView::RemoveFile(phase@, path@),
            CertNext::SetMode(phase, path, mode) => CertNextView::SetMode(phase@, path@, *mode),
            CertNext::Finished(Ok(())) => CertNextView::Made,
            CertNext::Finished(Err(e)) => CertNextView::Failed(e@),
        }
    }
}

/// How making a certificate begins.
pub open spec fn cert_start(plan: CertPlanView) -> CertNextView {
    CertNextView::MakeDirFor(CertPhaseView::MakingCertDir, plan.cert_path)
}

/// How making a certificate goes on after something was to be done to a file or
/// directory. Whether the settings could be removed does not matter. No one but
/// the owner may read the key.
pub open spec fn cert_done(
    plan: CertPlanView,
    phase: CertPhaseView,
    done: Result<(), Seq<char>>,
) -> CertNextView {
    match (phase, done) {
        (CertPhaseView::RemovingSettings(Some(e)), _) => CertNextView::Failed(e),
        (CertPhaseView::RemovingSettings(None), _) => CertNextView::SetMode(
            CertPhaseView::SettingKeyMode,
            plan.key_path,
            0o600,
        ),
        (_, Err(text)) => CertNextView::Failed(CertErrorView::NoFile(text)),
        (CertPhaseView::MakingCertDir, Ok(())) => CertNextView::MakeDirFor(
            CertPhaseView::MakingKeyDir,
            plan.key_path,
        ),
        (CertPhaseView::MakingKeyDir, Ok(())) => CertNextView::WriteFile(
            CertPhaseView::WritingSettings,
            plan.settings_path,
            openssl_settings(),
        ),
        (CertPhaseView::WritingSettings, Ok(())) => CertNextView::Run(openssl_process(plan)),
        (CertPhaseView::SettingKeyMode, Ok(())) => CertNextView::SetMode(
            CertPhaseView::SettingCertMode,
            plan.cert_path,
            0o644,
        ),
        (CertPhaseView::SettingCertMode, Ok(())) => CertNextView::Made,
    }
}

/// How making a certificate goes on after the call: once the program ran, the
/// settings are removed.
pub open spec fn cert_answered(plan: CertPlanView, reply: ReplyView) -> CertNextView {
    match reply {
        ReplyView::NotStarted(cause) => CertNextView::Failed(CertErrorView::NotRun { cause }),
        ReplyView::Finished(_) => CertNextView::RemoveFile(
            CertPhaseView::RemovingSettings(cert_fault(reply)),
            plan.settings_path,
        ),
    }
}

impl CertPlan {
    fn process(&self) -> (r: ProcessSpec)
        ensures
            r@ == openssl_process(self@),
    {
        let mut args: Vec<String> = Vec::new();
        push_text(&mut args, "req");
        push_text(&mut args, "-x509");
        push_text(&mut args, "-newkey");
        push_text(&mut args, "rsa:2048");
        push_text(&mut args, "-nodes");
        push_text(&mut args, "-days");
        push_text(&mut args, "825");
        push_text(&mut args, "-keyout");
        push_text(&mut args, self.key_path.as_str());
        push_text(&mut args, "-out");
        push_text(&mut args, self.cert_path.as_str());
        push_text(&mut args, "-config");
        push_text(&mut args, self.settings_path.as_str());
        assert(texts(args@) =~= openssl_process(self@).args);
        let r = ProcessSpec {
            program: "openssl".to_string(),
            args,
            envs: Vec::new(),
            stdin: None,
        };
        assert(r@.envs =~= Seq::empty());
        r
    }

    /// Begins to make the certificate.
    pub fn start(&self) -> (r: CertNext)
        ensures
            r@ == cert_start(self@),
    {
        CertNext::MakeDirFor(CertPhase::MakingCertDir, self.cert_path.clone())
    }

    /// Goes on after something was to be done to a file or directory.
    pub fn done(&self, phase: CertPhase, done: Result<(), String>) -> (r: CertNext)
        ensures
            r@ == cert_done(self@, phase@, done_view(done)),
    {
        match (phase, done) {
            (CertPhase::RemovingSettings(Some(e)), _) => CertNext::Finished(Err(e)),
            (CertPhase::RemovingSettings(None), _) => CertNext::SetMode(
                CertPhase::SettingKeyMode,
                self.key_path.clone(),
                0o600,
            ),
            (_, Err(text)) => CertNext::Finished(Err(CertError::NoFile(text))),
            (CertPhase::MakingCertDir, Ok(())) => CertNext::MakeDirFor(
                CertPhase::MakingKeyDir,
                self.key_path.clone(),
            ),
            (CertPhase::MakingKeyDir, Ok(())) => CertNext::WriteFile(
                CertPhase::WritingSettings,
                self.settings_path.clone(),
                "\n[req]\ndefault_bits = 2048\nprompt = no\ndefault_md = sha256\ndistinguished_name = dn\nx509_extensions = v3_req\n\n[dn]\nCN = localhost\n\n[v3_req]\nsubjectAltName = @alt_names\n\n[alt_names]\nDNS.1 = localhost\nIP.1 = 127.0.0.1\n".to_string(),
            ),
            (CertPhase::WritingSettings, Ok(())) => CertNext::Run(self.process()),
            (CertPhase::SettingKeyMode, Ok(())) => CertNext::SetMode(
                CertPhase::SettingCertMode,
                self.cert_path.clone(),
                0o644,
            ),
            (CertPhase::SettingCertMode, Ok(())) => CertNext::Finished(Ok(())),
        }
    }

    /// Goes on after the call.
    pub fn answered(&self, reply: ProcessReply) -> (r: CertNext)
        ensures
            r@ == cert_answered(self@, reply@),
    {
        match reply {
            ProcessReply::NotStarted(cause) => CertNext::Finished(Err(CertError::NotRun { cause })),
            ProcessReply::Finished(output) => {
                let fault = if output.success {
                    None
                } else {
                    Some(CertError::Failed(trim(from_utf8_lossy(&output.stderr).as_str())))
                };
                CertNext::RemoveFile(
                    CertPhase::RemovingSettings(fault),
                    self.settings_path.clone(),
                )
            },
        }
    }
}

/// Files that are there, and their modes.
pub struct Disk {
    pub files: Set<Seq<char>>,
    pub modes: Map<Seq<char>, u32>,
}

/// The files after a step was carried out, where carrying it out worked. The
/// call leaves a key and a certificate behind if it succeeds.
pub open spec fn disk_after(
    plan: CertPlanView,
    next: CertNextView,
    reply: ReplyView,
    disk: Disk,
) -> Disk {
    match next {
        CertNextView::WriteFile(_, path, _) => Disk { files: disk.files.insert(path), ..disk },
        CertNextView::RemoveFile(_, path) => Disk { files: disk.files.remove(path), ..disk },
        CertNextView::SetMode(_, path, mode) => Disk {
            modes: disk.modes.insert(path, mode),
            ..disk
        },
        CertNextView::Run(_) => if cert_fault(reply) is None {
            Disk { files: disk.files.insert(plan.key_path).insert(plan.cert_path), ..disk }
        } else {
            disk
        },
        _ => disk,
    }
}

/// How many steps are left in making a certificate.
pub open spec fn cert_steps_left(next: CertNextView) -> nat {
    match next {
        CertNextView::Made | CertNextView::Failed(_) => 0,
        CertNextView::Run(_) => 4,
        CertNextView::MakeDirFor(phase, _) => phase_steps_left(phase),
        CertNextView::WriteFile(phase, _, _) => phase_steps_left(phase),
        CertNextView::RemoveFile(phase, _) => phase_steps_left(phase),
        CertNextView::SetMode(phase, _, _) => phase_steps_left(phase),
    }
}

/// How many steps are left at a phase.
pub open spec fn phase_steps_left(phase: CertPhaseView) -> nat {
    match phase {
        CertPhaseView::MakingCertDir => 7,
        CertPhaseView::MakingKeyDir => 6,
        CertPhaseView::WritingSettings => 5,
        CertPhaseView::RemovingSettings(_) => 3,
        CertPhaseView::SettingKeyMode => 2,
        CertPhaseView::SettingCertMode => 1,
    }
}

/// What comes after a step that was carried out.
pub open spec fn cert_step(plan: CertPlanView, next: CertNextView, reply: ReplyView) -> CertNextView {
    match next {
        CertNextView::Run(_) => cert_answered(plan, reply),
        CertNextView::MakeDirFor(phase, _) => cert_done(plan, phase, Ok(())),
        CertNextView::WriteFile(phase, _, _) => cert_done(plan, phase, Ok(())),
        CertNextView::RemoveFile(phase, _) => cert_done(plan, phase, Ok(())),
        CertNextView::SetMode(phase, _, _) => cert_done(plan, phase, Ok(())),
        _ => next,
    }
}

/// How making a certificate ends where files and directories give no trouble,
/// and what it leaves behind.
pub open spec fn cert_end(
    plan: CertPlanView,
    next: CertNextView,
    reply: ReplyView,
    disk: Disk,
) -> (CertNextView, Disk)
    decreases cert_steps_left(next),
{
    if next is Made || next is Failed {
        (next, disk)
    } else {
        cert_end(plan, cert_step(plan, next, reply), reply, disk_after(plan, next, reply, disk))
    }
}

/// Where files and directories give no trouble and the call succeeds, the
/// certificate and its key are there afterwards, the key for its owner alone, the
/// settings are gone and no other file came or went; and there is then no more to
/// be done, so that doing it again changes nothing. Only a key that is the same
/// file as the certificate is for others too, and only settings that are the same
/// file as one of the two take it away with them. Where the call fails, that is
/// what is reported, and the settings are gone if it was made at all.
pub proof fn law_certificate_is_made_once(plan: CertPlanView, reply: ReplyView, disk: Disk)
    ensures
        ({
            let (end, after) = cert_end(plan, cert_start(plan), reply, disk);
            &&& match cert_fault(reply) {
                None => {
                    &&& end is Made
                    &&& after.files == disk.files.insert(plan.key_path).insert(
                        plan.cert_path,
                    ).remove(plan.settings_path)
                    &&& after.modes == disk.modes.insert(plan.key_path, 0o600).insert(
                        plan.cert_path,
                        0o644,
                    )
                    &&& plan.key_path != plan.cert_path ==> after.modes[plan.key_path] == 0o600
                    &&& plan.settings_path != plan.cert_path && plan.settings_path != plan.key_path
                        ==> !cert_wanted(
                        after.files.contains(plan.cert_path),
                        after.files.contains(plan.key_path),
                    )
                },
                Some(e) => end == CertNextView::Failed(e),
            }
            &&& reply is Finished ==> !after.files.contains(plan.settings_path)
        }),
{
    reveal_with_fuel(cert_end, 8);
    let (_, after) = cert_end(plan, cert_start(plan), reply, disk);
    if cert_fault(reply) is None {
        assert(after.files =~= disk.files.insert(plan.key_path).insert(plan.cert_path).remove(
            plan.settings_path,
        ));
    }
}

/// The call that makes a certificate writes the key and the certificate to their
/// own places, and takes its settings from where they were put.
pub proof fn law_certificate_call(plan: CertPlanView)
    ensures
        ({
            let call = openssl_process(plan);
            &&& call.program == "openssl"@
            &&& call.args.len() == 13
            &&& call.args.take(7) == seq![
                "req"@,
                "-x509"@,
                "-newkey"@,
                "rsa:2048"@,
                "-nodes"@,
                "-days"@,
                "825"@,
            ]
            &&& call.args[7] == "-keyout"@ && call.args[8] == plan.key_path
            &&& call.args[9] == "-out"@ && call.args[10] == plan.cert_path
            &&& call.args[11] == "-config"@ && call.args[12] == plan.settings_path
            &&& call.envs.len() == 0 && call.stdin is None
        }),
{
    assert(openssl_process(plan).args.take(7) =~= seq![
        "req"@,
        "-x509"@,
        "-newkey"@,
        "rsa:2048"@,
        "-nodes"@,
        "-days"@,
        "825"@,
    ]);
}

/// A certificate is made step by step: both directories, the settings, the call,
/// the settings away again, the key closed to all but its owner and the
/// certificate open to read. A step that fails ends it with the cause, but that
/// the settings could not be taken away is passed over.
pub proof fn law_certificate_goes_step_by_step(
    plan: CertPlanView,
    phase: CertPhaseView,
    text: Seq<char>,
    done: Result<(), Seq<char>>,
    e: CertErrorView,
)
    ensures
        cert_start(plan) == CertNextView::MakeDirFor(CertPhaseView::MakingCertDir, plan.cert_path),
        cert_done(plan, CertPhaseView::MakingCertDir, Ok(())) == CertNextView::MakeDirFor(
            CertPhaseView::MakingKeyDir,
            plan.key_path,
        ),
        cert_done(plan, CertPhaseView::MakingKeyDir, Ok(())) matches CertNextView::WriteFile(
            next,
            path,
            written,
        ) && next == CertPhaseView::WritingSettings && path == plan.settings_path && written
            == "\n[req]\ndefault_bits = 2048\nprompt = no\ndefault_md = sha256\ndistinguished_name = dn\nx509_extensions = v3_req\n\n[dn]\nCN = localhost\n\n[v3_req]\nsubjectAltName = @alt_names\n\n[alt_names]\nDNS.1 = localhost\nIP.1 = 127.0.0.1\n"@,
        cert_done(plan, CertPhaseView::WritingSettings, Ok(())) == CertNextView::Run(
            openssl_process(plan),
        ),
        cert_done(plan, CertPhaseView::RemovingSettings(None), done) == CertNextView::SetMode(
            CertPhaseView::SettingKeyMode,
            plan.key_path,
            384,
        ),
        cert_done(plan, CertPhaseView::RemovingSettings(Some(e)), done) == CertNextView::Failed(e),
        cert_done(plan, CertPhaseView::SettingKeyMode, Ok(())) == CertNextView::SetMode(
            CertPhaseView::SettingCertMode,
            plan.cert_path,
            420,
        ),
        cert_done(plan, CertPhaseView::SettingCertMode, Ok(())) == CertNextView::Made,
        !(phase is RemovingSettings) ==> (cert_done(plan, phase, Err(text)) matches
            CertNextView::Failed(f) && f.message() == text),
{
}

/// The call succeeds or fails as its reply says; the settings are taken away in
/// either case, unless the program was not there to be run at all.
pub proof fn law_certificate_reply(plan: CertPlanView, answer: ReplyView)
    ensures
        match answer {
            ReplyView::NotStarted(cause) => cert_answered(plan, answer) matches
                CertNextView::Failed(e) && e.message() == "failed to run openssl"@
                && e.full_message() == "failed to run openssl"@ + ": "@ + cause,
            ReplyView::Finished(output) => cert_answered(plan, answer) matches
                CertNextView::RemoveFile(CertPhaseView::RemovingSettings(fault), path) && {
                &&& path == plan.settings_path
                &&& output.success <==> fault is None
                &&& fault is Some ==> fault->0.message()
                    == "failed to create self-signed TLS certificate: "@ + trimmed(
                    lossy_text(output.stderr),
                )
            },
        },
{
}

/// A certificate is made exactly where it or its key is missing.
pub proof fn law_certificate_is_made_where_missing(cert_exists: bool, key_exists: bool)
    ensures
        cert_wanted(cert_exists, key_exists) <==> !(cert_exists && key_exists),
{
}

proof fn lemma_behind_last(a: Seq<char>, c: char, b: Seq<char>)
    requires
        !b.contains(c),
    ensures
        behind_last(a.push(c) + b, c) == a.len() + 1,
    decreases b.len(),
{
    let all = a.push(c) + b;
    if b.len() == 0 {
        assert(all =~= a.push(c));
    } else {
        let rest = b.drop_last();
        assert(all.drop_last() =~= a.push(c) + rest);
        assert(all.last() == b.last());
        assert(b.contains(b.last()));
        assert forall|x: char| rest.contains(x) implies b.contains(x) by {
            let i = choose|i: int| 0 <= i < rest.len() && rest[i] == x;
            assert(b[i] == x);
        }
        lemma_behind_last(a, c, rest);
    }
}

/// Without its extension, the path to a file in a directory is the path to the
/// name that stands before the last dot.
pub proof fn law_extension_is_what_the_last_dot_parts(
    dir: Seq<char>,
    stem: Seq<char>,
    extension: Seq<char>,
)
    requires
        stem.len() > 0 && !stem.contains('/'),
        !extension.contains('/') && !extension.contains('.'),
    ensures
        last_component(dir.push('/') + (stem.push('.') + extension)) == stem.push('.') + extension,
        without_extension(dir.push('/') + (stem.push('.') + extension)) == dir.push('/') + stem,
{
    let name = stem.push('.') + extension;
    let path = dir.push('/') + name;
    assert(!name.contains('/')) by {
        assert forall|i: int| 0 <= i < name.len() implies #[trigger] name[i] != '/' by {
            if i < stem.len() {
                assert(stem.contains(stem[i]));
            } else if i > stem.len() {
                assert(extension.contains(extension[i - stem.len() - 1]));
            }
        }
    }
    lemma_behind_last(dir, '/', name);
    assert(last_component(path) =~= name);
    lemma_behind_last(stem, '.', extension);
    assert(path.take((dir.len() + 1 + stem.len()) as int) =~= dir.push('/') + stem);
}

} // verus!
