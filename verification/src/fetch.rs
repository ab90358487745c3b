//! Fetching the fields of one item with the stored master password.
use vstd::prelude::*;

use crate::bw::{cli_of, BitwardenCli, BwError, BwErrorView, CliView, LoginOptions, OptionsView};
use crate::catalog::{extract_fields, extracted, field_value};
use crate::config::Config;
use crate::json::{object_view, Json, JsonView};
use crate::keychain::{
    configured_process, password_of, read_master_password, read_password, KeychainError,
    KeychainErrorView,
};
use crate::process::{done_view, ProcessReply, ProcessSpec, ProcessView, ReplyView};
use crate::text::{opt_str, texts};
use crate::textmap::TextMap;
use crate::vault::{
    alike, law_outcome_reveals_no_credentials, vault_after, vault_reaches, vault_start, DataView, JobView, TaskView, VaultData, VaultJob, VaultNext,
    VaultNextView, VaultPhase, VaultPhaseView, VaultTask,
};

verus! {

/// What is fetched, and how.
#[derive(Debug)]
pub struct FetchPlan {
    pub cli: BitwardenCli,
    /// What the user is told when the master password is read.
    pub reason: String,
    pub sync: bool,
    pub item_id: String,
    pub fields: Vec<String>,
}

/// What is fetched, and how, as mathematics.
pub struct PlanView {
    pub cli: CliView,
    pub reason: Seq<char>,
    pub sync: bool,
    pub item_id: Seq<char>,
    pub fields: Seq<Seq<char>>,
}

impl View for FetchPlan {
    type V = PlanView;

    open spec fn view(&self) -> PlanView {
        PlanView {
            cli: self.cli@,
            reason: self.reason@,
            sync: self.sync,
            item_id: self.item_id@,
            fields: texts(self.fields@),
        }
    }
}

/// Why nothing was fetched.
#[derive(Debug)]
pub enum FetchError {
    Keychain(KeychainError),
    /// The directory of the vault program's profile could not be made.
    NoProfile(String),
    Vault(BwError),
}

/// Why nothing was fetched, as mathematics.
pub enum FetchErrorView {
    Keychain(KeychainErrorView),
    NoProfile(Seq<char>),
    Vault(BwErrorView),
}

impl View for FetchError {
    type V = FetchErrorView;

    open spec fn view(&self) -> FetchErrorView {
        match self {
            FetchError::Keychain(e) => FetchErrorView::Keychain(e@),
            FetchError::NoProfile(text) => FetchErrorView::NoProfile(text@),
            FetchError::Vault(e) => FetchErrorView::Vault(e@),
        }
    }
}

impl FetchErrorView {
    /// The message that is shown.
    pub open spec fn message(self) -> Seq<char> {
        match self {
            FetchErrorView::Keychain(e) => e.message(),
            FetchErrorView::NoProfile(text) => text,
            FetchErrorView::Vault(e) => e.message(),
        }
    }

    /// The message with what lies behind it.
    pub open spec fn full_message(self) -> Seq<char> {
        match self {
            FetchErrorView::Keychain(e) => e.full_message(),
            FetchErrorView::NoProfile(text) => text,
            FetchErrorView::Vault(e) => e.full_message(),
        }
    }
}

impl FetchError {
    /// The message that is shown.
    pub fn message(&self) -> (r: String)
        ensures
            r@ == self@.message(),
    {
        match self {
            FetchError::Keychain(e) => e.message(),
            FetchError::NoProfile(text) => text.clone(),
            FetchError::Vault(e) => e.message(),
        }
    }

    /// The message with what lies behind it.
    pub fn full_message(&self) -> (r: String)
        ensures
            r@ == self@.full_message(),
    {
        match self {
            FetchError::Keychain(e) => e.full_message(),
            FetchError::NoProfile(text) => text.clone(),
            FetchError::Vault(e) => e.full_message(),
        }
    }
}

/// Where fetching stands: the call whose answer is awaited.
#[derive(Debug)]
pub enum FetchPhase {
    ReadingPassword,
    Working { job: VaultJob, phase: VaultPhase },
}

/// Where fetching stands, as mathematics.
pub enum FetchPhaseView {
    ReadingPassword,
    Working { job: JobView, phase: VaultPhaseView },
}

impl View for FetchPhase {
    type V = FetchPhaseView;

    open spec fn view(&self) -> FetchPhaseView {
        match self {
            FetchPhase::ReadingPassword => FetchPhaseView::ReadingPassword,
            FetchPhase::Working { job, phase } => FetchPhaseView::Working {
                job: job@,
                phase: phase@,
            },
        }
    }
}

/// What comes next in fetching.
#[derive(Debug)]
pub enum FetchNext {
    /// Make the call, and come back with what became of it.
    Run(FetchPhase, ProcessSpec),
    /// See that the directory is there, and go on with the job.
    MakeDir(VaultJob, String),
    Finished(Result<TextMap<Json>, FetchError>),
}

/// What comes next in fetching, as mathematics.
pub enum FetchNextView {
    Run(FetchPhaseView, ProcessView),
    MakeDir(JobView, Seq<char>),
    Finished(Result<Map<Seq<char>, JsonView>, FetchErrorView>),
}

impl View for FetchNext {
    type V = FetchNextView;

    open spec fn view(&self) -> FetchNextView {
        match self {
            FetchNext::Run(phase, process) => FetchNextView::Run(phase@, process@),
            FetchNext::MakeDir(job, dir) => FetchNextView::MakeDir(job@, dir@),
            FetchNext::Finished(Ok(fields)) => FetchNextView::Finished(Ok(object_view(*fields))),
            FetchNext::Finished(Err(e)) => FetchNextView::Finished(Err(e@)),
        }
    }
}

/// What the user is told when the master password is read for a client.
pub open spec fn fetch_reason(client_id: Seq<char>, secret_id: Seq<char>) -> Seq<char> {
    "Unlock Vaultwarden agent account for "@ + client_id + " to read "@ + secret_id
}

/// The plan to fetch fields of an item for a client.
pub open spec fn plan_of(
    config: Config,
    home: Seq<char>,
    user_home: Option<Seq<char>>,
    client_id: Seq<char>,
    secret_id: Seq<char>,
    item_id: Seq<char>,
    fields: Seq<Seq<char>>,
) -> PlanView {
    PlanView {
        cli: cli_of(config, home, user_home),
        reason: fetch_reason(client_id, secret_id),
        sync: config.bitwarden.sync_before_read,
        item_id,
        fields,
    }
}

/// How fetching begins: with reading the master password.
pub open spec fn fetch_start(
    config: Config,
    home: Seq<char>,
    user_home: Option<Seq<char>>,
    plan: PlanView,
) -> FetchNextView {
    FetchNextView::Run(
        FetchPhaseView::ReadingPassword,
        configured_process(config, home, user_home, "read"@, Some(plan.reason), None),
    )
}

/// The job in the vault that gets the item.
pub open spec fn fetch_job(plan: PlanView, password: Seq<char>) -> JobView {
    JobView {
        cli: plan.cli,
        password,
        options: OptionsView { method: None, code: None },
        sync: plan.sync,
        task: TaskView::Read { item_id: plan.item_id },
    }
}

/// The item that a job brought home. A job that was not for one brings none.
pub open spec fn item_of(data: DataView) -> JsonView {
    match data {
        DataView::Item(item) => item,
        _ => JsonView::Null,
    }
}

/// Fetching after a step in the vault.
pub open spec fn fetch_in_vault(plan: PlanView, job: JobView, next: VaultNextView) -> FetchNextView {
    match next {
        VaultNextView::Run(phase, process) => FetchNextView::Run(
            FetchPhaseView::Working { job, phase },
            process,
        ),
        VaultNextView::Finished(Ok(data)) => FetchNextView::Finished(
            Ok(extracted(item_of(data), plan.fields)),
        ),
        VaultNextView::Finished(Err(e)) => FetchNextView::Finished(Err(FetchErrorView::Vault(e))),
    }
}

/// How fetching goes on after a call.
pub open spec fn fetch_answered(
    plan: PlanView,
    phase: FetchPhaseView,
    reply: ReplyView,
) -> FetchNextView {
    match phase {
        FetchPhaseView::ReadingPassword => match password_of(reply) {
            Err(e) => FetchNextView::Finished(Err(FetchErrorView::Keychain(e))),
            Ok(password) => FetchNextView::MakeDir(
                fetch_job(plan, password),
                plan.cli.appdata_dir,
            ),
        },
        FetchPhaseView::Working { job, phase } => fetch_in_vault(
            plan,
            job,
            vault_after(job, phase, reply),
        ),
    }
}

/// How fetching goes on after the directory was to be made.
pub open spec fn fetch_dir_made(
    plan: PlanView,
    job: JobView,
    made: Result<(), Seq<char>>,
) -> FetchNextView {
    match made {
        Err(text) => FetchNextView::Finished(Err(FetchErrorView::NoProfile(text))),
        Ok(()) => fetch_in_vault(plan, job, vault_start(job)),
    }
}

impl FetchPlan {
    /// The plan to fetch fields of an item for a client.
    pub fn new(
        config: &Config,
        home: &str,
        user_home: Option<&str>,
        client_id: &str,
        secret_id: &str,
        item_id: String,
        fields: Vec<String>,
    ) -> (r: FetchPlan)
        ensures
            r@ == plan_of(
                *config,
                home@,
                opt_str(user_home),
                client_id@,
                secret_id@,
                item_id@,
                texts(fields@),
            ),
    {
        let reason = "Unlock Vaultwarden agent account for ".to_string().concat(client_id).concat(
            " to read ",
        ).concat(secret_id);
        FetchPlan {
            cli: BitwardenCli::new(config, home, user_home),
            reason,
            sync: config.bitwarden.sync_before_read,
            item_id,
            fields,
        }
    }

    /// Begins fetching.
    pub fn start(&self, config: &Config, home: &str, user_home: Option<&str>) -> (r: FetchNext)
        ensures
            r@ == fetch_start(*config, home@, opt_str(user_home), self@),
    {
        FetchNext::Run(
            FetchPhase::ReadingPassword,
            read_master_password(config, home, user_home, self.reason.as_str()),
        )
    }

    fn in_vault(&self, job: VaultJob, next: VaultNext) -> (r: FetchNext)
        ensures
            r@ == fetch_in_vault(self@, job@, next@),
    {
        match next {
            VaultNext::Run(phase, process) => FetchNext::Run(
                FetchPhase::Working { job, phase },
                process,
            ),
            VaultNext::Finished(Ok(data)) => {
                let item = match data {
                    VaultData::Item(item) => item,
                    _ => Json::Null,
                };
                FetchNext::Finished(Ok(extract_fields(&item, &self.fields)))
            },
            VaultNext::Finished(Err(e)) => FetchNext::Finished(Err(FetchError::Vault(e))),
        }
    }

    /// Goes on after a call.
    pub fn answered(&self, phase: FetchPhase, reply: ProcessReply) -> (r: FetchNext)
        ensures
            r@ == fetch_answered(self@, phase@, reply@),
    {
        match phase {
            FetchPhase::ReadingPassword => match read_password(reply) {
                Err(e) => FetchNext::Finished(Err(FetchError::Keychain(e))),
                Ok(password) => {
                    let job = VaultJob {
                        cli: self.cli.clone(),
                        master_password: password,
                        login_options: LoginOptions::default(),
                        sync: self.sync,
                        task: VaultTask::Read { item_id: self.item_id.clone() },
                    };
                    FetchNext::MakeDir(job, self.cli.appdata_dir.clone())
                },
            },
            FetchPhase::Working { job, phase } => {
                let next = job.step(phase, reply);
                self.in_vault(job, next)
            },
        }
    }

    /// Goes on after the directory was to be made.
    pub fn dir_made(&self, job: VaultJob, made: Result<(), String>) -> (r: FetchNext)
        ensures
            r@ == fetch_dir_made(self@, job@, done_view(made)),
    {
        match made {
            Err(text) => FetchNext::Finished(Err(FetchError::NoProfile(text))),
            Ok(()) => {
                let next = job.start();
                self.in_vault(job, next)
            },
        }
    }
}

/// What is fetched, or why nothing is, says nothing about the master password
/// or the session key: with other ones, and the same answers from the vault
/// program, it is the same.
pub proof fn law_fetched_reveals_no_credentials(
    plan: PlanView,
    password1: Seq<char>,
    password2: Seq<char>,
    next1: VaultNextView,
    next2: VaultNextView,
    replies: Seq<ReplyView>,
)
    requires
        alike(next1, next2),
    ensures
        ({
            let job1 = fetch_job(plan, password1);
            let job2 = fetch_job(plan, password2);
            let end1 = fetch_in_vault(plan, job1, vault_reaches(job1, next1, replies));
            let end2 = fetch_in_vault(plan, job2, vault_reaches(job2, next2, replies));
            &&& alike(vault_start(job1), vault_start(job2))
            &&& end1 is Finished || end2 is Finished ==> end1 == end2
        }),
{
    law_outcome_reveals_no_credentials(
        fetch_job(plan, password1),
        fetch_job(plan, password2),
        next1,
        next2,
        replies,
    );
}

/// A plan is for the item and the fields that it was made for, in the configured
/// profile, and tells the user in whose name and for which secret.
pub proof fn law_plan_is_for_what_was_asked(
    config: Config,
    home: Seq<char>,
    user_home: Option<Seq<char>>,
    client_id: Seq<char>,
    secret_id: Seq<char>,
    item_id: Seq<char>,
    fields: Seq<Seq<char>>,
)
    ensures
        ({
            let plan = plan_of(config, home, user_home, client_id, secret_id, item_id, fields);
            &&& plan.item_id == item_id
            &&& plan.fields == fields
            &&& plan.sync == config.bitwarden.sync_before_read
            &&& plan.cli == cli_of(config, home, user_home)
            &&& plan.reason == "Unlock Vaultwarden agent account for "@ + client_id + " to read "@
                + secret_id
        }),
{
}

/// Fetching begins with the reading of the password, for the plan's reason; with
/// it the plan's item is read in the plan's profile, once the profile's
/// directory is there, without a second step of login.
pub proof fn law_fetching_goes_step_by_step(
    config: Config,
    home: Seq<char>,
    user_home: Option<Seq<char>>,
    plan: PlanView,
    answer: ReplyView,
    text: Seq<char>,
)
    ensures
        fetch_start(config, home, user_home, plan) == FetchNextView::Run(
            FetchPhaseView::ReadingPassword,
            configured_process(config, home, user_home, "read"@, Some(plan.reason), None),
        ),
        match password_of(answer) {
            Ok(password) => fetch_answered(plan, FetchPhaseView::ReadingPassword, answer) matches
                FetchNextView::MakeDir(job, dir) && {
                &&& dir == plan.cli.appdata_dir
                &&& job.cli == plan.cli
                &&& job.password == password
                &&& job.sync == plan.sync
                &&& job.options.method is None && job.options.code is None
                &&& job.task == (TaskView::Read { item_id: plan.item_id })
                &&& fetch_dir_made(plan, job, Ok(())) == fetch_in_vault(plan, job, vault_start(job))
                &&& fetch_dir_made(plan, job, Err(text)) matches FetchNextView::Finished(r)
                    && r is Err && r->Err_0.message() == text
            },
            Err(e) => fetch_answered(plan, FetchPhaseView::ReadingPassword, answer) matches
                FetchNextView::Finished(r) && r is Err && r->Err_0.message() == e.message()
                && r->Err_0.full_message() == e.full_message(),
        },
{
}

/// What the vault gives out for an item is fetched as the fields of the plan,
/// each with the item's value; what fails in the vault fails in its words.
pub proof fn law_fetched_are_the_plans_fields(
    plan: PlanView,
    job: JobView,
    phase: VaultPhaseView,
    answer: ReplyView,
    field: Seq<char>,
)
    ensures
        ({
            let next = fetch_answered(plan, FetchPhaseView::Working { job, phase }, answer);
            match vault_after(job, phase, answer) {
                VaultNextView::Run(later, call) => next == FetchNextView::Run(
                    FetchPhaseView::Working { job, phase: later },
                    call,
                ),
                VaultNextView::Finished(Err(e)) => next matches FetchNextView::Finished(r)
                    && r is Err && r->Err_0.message() == e.message() && r->Err_0.full_message()
                    == e.full_message(),
                VaultNextView::Finished(Ok(data)) => next matches FetchNextView::Finished(r)
                    && r is Ok && (r->Ok_0.contains_key(field) <==> plan.fields.contains(field))
                    && (data matches DataView::Item(item) ==> plan.fields.contains(field)
                    ==> r->Ok_0[field] == field_value(item, field)),
            }
        }),
{
}

} // verus!
