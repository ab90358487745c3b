//! Jobs in the vault: a session is opened, used and locked again.
use vstd::prelude::*;

use crate::bw::{
    checked_reply, cli_process, items_reply, json_reply, law_each_id_narrows_the_list,
    law_unlocking_reveals_nothing, list_args, phase_process, same_but_code, unlock_after, unlock_start, BitwardenCli, BwError, BwErrorView,
    CliView, LoginOptions, OptionsView, UnlockNext, UnlockPhase, UnlockView,
};
use crate::json::{json_list, json_text, list_view, Json, JsonView};
use crate::process::{OutputView, ProcessReply, ProcessSpec, ProcessView, ReplyView};
use crate::text::{borrow_option, opt_text};

verus! {

/// What a session is opened for.
#[derive(Debug)]
pub enum VaultTask {
    /// To see that the profile can be opened.
    Login,
    /// To list the items of the vault.
    List { collection_id: Option<String>, organization_id: Option<String> },
    /// To read one item.
    Read { item_id: String },
}

/// What a session is opened for, as mathematics.
pub enum TaskView {
    Login,
    List { collection_id: Option<Seq<char>>, organization_id: Option<Seq<char>> },
    Read { item_id: Seq<char> },
}

impl View for VaultTask {
    type V = TaskView;

    open spec fn view(&self) -> TaskView {
        match self {
            VaultTask::Login => TaskView::Login,
            VaultTask::List { collection_id, organization_id } => TaskView::List {
                collection_id: opt_text(*collection_id),
                organization_id: opt_text(*organization_id),
            },
            VaultTask::Read { item_id } => TaskView::Read { item_id: item_id@ },
        }
    }
}

/// A job in the vault.
#[derive(Debug)]
pub struct VaultJob {
    pub cli: BitwardenCli,
    pub master_password: String,
    pub login_options: LoginOptions,
    /// Whether the vault is brought up to date first.
    pub sync: bool,
    pub task: VaultTask,
}

/// A job in the vault, as mathematics.
pub struct JobView {
    pub cli: CliView,
    pub password: Seq<char>,
    pub options: OptionsView,
    pub sync: bool,
    pub task: TaskView,
}

impl View for VaultJob {
    type V = JobView;

    open spec fn view(&self) -> JobView {
        JobView {
            cli: self.cli@,
            password: self.master_password@,
            options: self.login_options@,
            sync: self.sync,
            task: self.task@,
        }
    }
}

/// What a job brings home.
#[derive(Debug)]
pub enum VaultData {
    LoggedIn,
    Items(Vec<Json>),
    Item(Json),
}

/// What a job brings home, as mathematics.
pub enum DataView {
    LoggedIn,
    Items(Seq<JsonView>),
    Item(JsonView),
}

impl View for VaultData {
    type V = DataView;

    open spec fn view(&self) -> DataView {
        match self {
            VaultData::LoggedIn => DataView::LoggedIn,
            VaultData::Items(items) => DataView::Items(list_view(items@)),
            VaultData::Item(item) => DataView::Item(item@),
        }
    }
}

/// The outcome of a job.
pub open spec fn outcome_view(r: Result<VaultData, BwError>) -> Result<DataView, BwErrorView> {
    match r {
        Ok(data) => Ok(data@),
        Err(e) => Err(e@),
    }
}

/// Where a job stands: the call whose answer is awaited.
#[derive(Debug)]
pub enum VaultPhase {
    Opening(UnlockPhase),
    Syncing { session: String },
    Working { session: String },
    Locking { session: String, outcome: Result<VaultData, BwError> },
}

/// Where a job stands, as mathematics.
pub enum VaultPhaseView {
    Opening(UnlockPhase),
    Syncing { session: Seq<char> },
    Working { session: Seq<char> },
    Locking { session: Seq<char>, outcome: Result<DataView, BwErrorView> },
}

impl View for VaultPhase {
    type V = VaultPhaseView;

    open spec fn view(&self) -> VaultPhaseView {
        match self {
            VaultPhase::Opening(phase) => VaultPhaseView::Opening(*phase),
            VaultPhase::Syncing { session } => VaultPhaseView::Syncing { session: session@ },
            VaultPhase::Working { session } => VaultPhaseView::Working { session: session@ },
            VaultPhase::Locking { session, outcome } => VaultPhaseView::Locking {
                session: session@,
                outcome: outcome_view(*outcome),
            },
        }
    }
}

/// What comes next in a job.
#[derive(Debug)]
pub enum VaultNext {
    /// Make the call, and come back with what became of it.
    Run(VaultPhase, ProcessSpec),
    Finished(Result<VaultData, BwError>),
}

/// What comes next in a job, as mathematics.
pub enum VaultNextView {
    Run(VaultPhaseView, ProcessView),
    Finished(Result<DataView, BwErrorView>),
}

impl View for VaultNext {
    type V = VaultNextView;

    open spec fn view(&self) -> VaultNextView {
        match self {
            VaultNext::Run(phase, process) => VaultNextView::Run(phase@, process@),
            VaultNext::Finished(outcome) => VaultNextView::Finished(outcome_view(*outcome)),
        }
    }
}

/// The words of the command that does what the job is for.
pub open spec fn task_args(task: TaskView) -> Seq<Seq<char>> {
    match task {
        TaskView::Login => Seq::empty(),
        TaskView::List { collection_id, organization_id } => list_args(
            collection_id,
            organization_id,
        ),
        TaskView::Read { item_id } => seq!["get"@, "item"@, item_id],
    }
}

/// The call that a phase of a job stands for.
pub open spec fn vault_process(job: JobView, phase: VaultPhaseView) -> ProcessView {
    match phase {
        VaultPhaseView::Opening(p) => phase_process(job.cli, job.password, job.options, p),
        VaultPhaseView::Syncing { session } => cli_process(
            job.cli,
            seq!["sync"@],
            Some(session),
            None,
            false,
        ),
        VaultPhaseView::Working { session } => cli_process(
            job.cli,
            task_args(job.task),
            Some(session),
            None,
            false,
        ),
        VaultPhaseView::Locking { session, outcome: _ } => cli_process(
            job.cli,
            seq!["lock"@],
            Some(session),
            None,
            false,
        ),
    }
}

/// The job at a phase.
pub open spec fn vault_run(job: JobView, phase: VaultPhaseView) -> VaultNextView {
    VaultNextView::Run(phase, vault_process(job, phase))
}

/// The job once the session is open and the vault is up to date: a login has
/// nothing more to do.
pub open spec fn vault_ready(job: JobView, session: Seq<char>) -> VaultNextView {
    if job.task is Login {
        vault_run(job, VaultPhaseView::Locking { session, outcome: Ok(DataView::LoggedIn) })
    } else {
        vault_run(job, VaultPhaseView::Working { session })
    }
}

/// The job after a step in opening the session.
pub open spec fn vault_unlocked(job: JobView, next: UnlockView) -> VaultNextView {
    match next {
        UnlockView::Run(p, _) => vault_run(job, VaultPhaseView::Opening(p)),
        UnlockView::Failed(e) => VaultNextView::Finished(Err(e)),
        UnlockView::Session(session) => if job.sync {
            vault_run(job, VaultPhaseView::Syncing { session })
        } else {
            vault_ready(job, session)
        },
    }
}

/// What a job makes of the answer of the call that it is for.
pub open spec fn task_outcome(job: JobView, reply: ReplyView) -> Result<DataView, BwErrorView> {
    let checked = checked_reply(job.cli, task_args(job.task), true, false, reply);
    match job.task {
        TaskView::Login => Ok(DataView::LoggedIn),
        TaskView::List { .. } => match items_reply(checked) {
            Ok(items) => Ok(DataView::Items(items)),
            Err(e) => Err(e),
        },
        TaskView::Read { .. } => match json_reply(checked) {
            Ok(item) => Ok(DataView::Item(item)),
            Err(e) => Err(e),
        },
    }
}

/// How a job begins.
pub open spec fn vault_start(job: JobView) -> VaultNextView {
    vault_unlocked(job, unlock_start(job.cli, job.password, job.options))
}

/// How a job goes on after a call. Whatever happens to an open session, it is
/// locked before the job ends; whether locking worked does not matter.
pub open spec fn vault_after(job: JobView, phase: VaultPhaseView, reply: ReplyView) -> VaultNextView {
    match phase {
        VaultPhaseView::Opening(p) => vault_unlocked(
            job,
            unlock_after(job.cli, job.password, job.options, p, reply),
        ),
        VaultPhaseView::Syncing { session } => match checked_reply(
            job.cli,
            seq!["sync"@],
            true,
            false,
            reply,
        ) {
            Ok(_) => vault_ready(job, session),
            Err(e) => vault_run(job, VaultPhaseView::Locking { session, outcome: Err(e) }),
        },
        VaultPhaseView::Working { session } => vault_run(
            job,
            VaultPhaseView::Locking { session, outcome: task_outcome(job, reply) },
        ),
        VaultPhaseView::Locking { session: _, outcome } => VaultNextView::Finished(outcome),
    }
}

impl VaultJob {
    fn lock(&self, session: String, outcome: Result<VaultData, BwError>) -> (r: VaultNext)
        ensures
            r@ == vault_run(
                self@,
                (VaultPhaseView::Locking { session: session@, outcome: outcome_view(outcome) }),
            ),
    {
        match self.cli.lock(Some(session.as_str())) {
            Some(process) => VaultNext::Run(VaultPhase::Locking { session, outcome }, process),
            None => VaultNext::Finished(outcome),
        }
    }

    fn ready(&self, session: String) -> (r: VaultNext)
        ensures
            r@ == vault_ready(self@, session@),
    {
        match &self.task {
            VaultTask::Login => self.lock(session, Ok(VaultData::LoggedIn)),
            VaultTask::List { collection_id, organization_id } => {
                let process = self.cli.list_items(
                    session.as_str(),
                    borrow_option(collection_id),
                    borrow_option(organization_id),
                );
                VaultNext::Run(VaultPhase::Working { session }, process)
            },
            VaultTask::Read { item_id } => {
                let process = self.cli.get_item(item_id.as_str(), session.as_str());
                VaultNext::Run(VaultPhase::Working { session }, process)
            },
        }
    }

    fn unlocked(&self, next: UnlockNext) -> (r: VaultNext)
        requires
            next@ matches UnlockView::Run(p, process) ==> process == vault_process(
                self@,
                VaultPhaseView::Opening(p),
            ),
        ensures
            r@ == vault_unlocked(self@, next@),
    {
        match next {
            UnlockNext::Run(phase, process) => VaultNext::Run(VaultPhase::Opening(phase), process),
            UnlockNext::Failed(e) => VaultNext::Finished(Err(e)),
            UnlockNext::Session(session) => if self.sync {
                let process = self.cli.sync(session.as_str());
                VaultNext::Run(VaultPhase::Syncing { session }, process)
            } else {
                self.ready(session)
            },
        }
    }

    /// Begins the job.
    pub fn start(&self) -> (r: VaultNext)
        ensures
            r@ == vault_start(self@),
    {
        let next = self.cli.unlock_or_login_with_options(
            self.master_password.as_str(),
            &self.login_options,
        );
        self.unlocked(next)
    }

    /// Goes on with the job after a call.
    pub fn step(&self, phase: VaultPhase, reply: ProcessReply) -> (r: VaultNext)
        ensures
            r@ == vault_after(self@, phase@, reply@),
    {
        match phase {
            VaultPhase::Opening(p) => {
                let next = self.cli.unlock_step(
                    self.master_password.as_str(),
                    &self.login_options,
                    p,
                    reply,
                );
                self.unlocked(next)
            },
            VaultPhase::Syncing { session } => match self.cli.read_sync(session.as_str(), reply) {
                Ok(()) => self.ready(session),
                Err(e) => self.lock(session, Err(e)),
            },
            VaultPhase::Working { session } => {
                let outcome = match &self.task {
                    VaultTask::Login => Ok(VaultData::LoggedIn),
                    VaultTask::List { collection_id, organization_id } => match self.cli.read_items(
                        session.as_str(),
                        borrow_option(collection_id),
                        borrow_option(organization_id),
                        reply,
                    ) {
                        Ok(items) => Ok(VaultData::Items(items)),
                        Err(e) => Err(e),
                    },
                    VaultTask::Read { item_id } => match self.cli.read_item(
                        item_id.as_str(),
                        session.as_str(),
                        reply,
                    ) {
                        Ok(item) => Ok(VaultData::Item(item)),
                        Err(e) => Err(e),
                    },
                };
                self.lock(session, outcome)
            },
            VaultPhase::Locking { session: _, outcome } => VaultNext::Finished(outcome),
        }
    }
}

/// Where a job gets to with the answers to its calls.
pub open spec fn vault_reaches(
    job: JobView,
    next: VaultNextView,
    replies: Seq<ReplyView>,
) -> VaultNextView
    decreases replies.len(),
{
    match next {
        VaultNextView::Run(phase, _) if replies.len() > 0 => vault_reaches(
            job,
            vault_after(job, phase, replies[0]),
            replies.skip(1),
        ),
        _ => next,
    }
}

/// The calls that a job makes on its way.
pub open spec fn vault_calls(job: JobView, next: VaultNextView, replies: Seq<ReplyView>) -> Seq<
    ProcessView,
>
    decreases replies.len(),
{
    match next {
        VaultNextView::Run(phase, process) if replies.len() > 0 => seq![process] + vault_calls(
            job,
            vault_after(job, phase, replies[0]),
            replies.skip(1),
        ),
        _ => Seq::empty(),
    }
}

/// The session that is open at a phase.
pub open spec fn session_at(phase: VaultPhaseView) -> Option<Seq<char>> {
    match phase {
        VaultPhaseView::Opening(_) => None,
        VaultPhaseView::Syncing { session } => Some(session),
        VaultPhaseView::Working { session } => Some(session),
        VaultPhaseView::Locking { session, outcome: _ } => Some(session),
    }
}

/// The call that locks a session.
pub open spec fn lock_process(cli: CliView, session: Seq<char>) -> ProcessView {
    cli_process(cli, seq!["lock"@], Some(session), None, false)
}

proof fn lemma_locked_from(
    job: JobView,
    phase: VaultPhaseView,
    session: Seq<char>,
    replies: Seq<ReplyView>,
)
    requires
        session_at(phase) == Some(session),
        vault_reaches(job, vault_run(job, phase), replies) is Finished,
    ensures
        vault_calls(job, vault_run(job, phase), replies).len() > 0,
        vault_calls(job, vault_run(job, phase), replies).last() == lock_process(job.cli, session),
    decreases replies.len(),
{
    match vault_after(job, phase, replies[0]) {
        VaultNextView::Run(after, _) => {
            lemma_locked_from(job, after, session, replies.skip(1));
        },
        VaultNextView::Finished(outcome) => {
            assert(vault_calls(job, VaultNextView::Finished(outcome), replies.skip(1))
                =~= Seq::empty());
        },
    }
}

/// A session that is open at any time during a job is locked by the last call
/// that the job makes, however the calls before it went.
pub proof fn law_open_session_is_locked(
    job: JobView,
    next: VaultNextView,
    replies: Seq<ReplyView>,
    i: int,
    phase: VaultPhaseView,
    session: Seq<char>,
)
    requires
        0 <= i <= replies.len(),
        vault_reaches(job, next, replies.take(i)) == vault_run(job, phase),
        session_at(phase) == Some(session),
        vault_reaches(job, next, replies) is Finished,
    ensures
        vault_calls(job, next, replies).len() > 0,
        vault_calls(job, next, replies).last() == lock_process(job.cli, session),
    decreases i,
{
    if i == 0 {
        lemma_locked_from(job, phase, session, replies);
    } else {
        assert(replies.take(i)[0] == replies[0]);
        assert(replies.take(i).skip(1) =~= replies.skip(1).take(i - 1));
        match next {
            VaultNextView::Run(p, _) => {
                let after = vault_after(job, p, replies[0]);
                law_open_session_is_locked(job, after, replies.skip(1), i - 1, phase, session);
            },
            VaultNextView::Finished(_) => {},
        }
    }
}

/// How many answers a job may still need.
pub open spec fn calls_left(next: VaultNextView) -> nat {
    match next {
        VaultNextView::Finished(_) => 0,
        VaultNextView::Run(phase, _) => match phase {
            VaultPhaseView::Opening(UnlockPhase::FirstStatus) => 7,
            VaultPhaseView::Opening(UnlockPhase::ConfigureServer) => 6,
            VaultPhaseView::Opening(UnlockPhase::SecondStatus) => 5,
            VaultPhaseView::Opening(_) => 4,
            VaultPhaseView::Syncing { .. } => 3,
            VaultPhaseView::Working { .. } => 2,
            VaultPhaseView::Locking { .. } => 1,
        },
    }
}

/// A job ends, after at most seven calls.
pub proof fn law_job_ends(job: JobView, next: VaultNextView, replies: Seq<ReplyView>)
    requires
        replies.len() >= calls_left(next),
    ensures
        vault_reaches(job, next, replies) is Finished,
        calls_left(next) <= 7,
    decreases replies.len(),
{
    if let VaultNextView::Run(phase, _) = next {
        let after = vault_after(job, phase, replies[0]);
        law_job_ends(job, after, replies.skip(1));
    }
}

/// Jobs that differ in the master password and in the code of the second step
/// at most.
pub open spec fn same_but_credentials(a: JobView, b: JobView) -> bool {
    &&& a.cli == b.cli
    &&& a.sync == b.sync
    &&& a.task == b.task
    &&& same_but_code(a.options, b.options)
}

/// Phases that differ in the session key at most.
pub open spec fn same_but_session(a: VaultPhaseView, b: VaultPhaseView) -> bool {
    match (a, b) {
        (VaultPhaseView::Opening(p), VaultPhaseView::Opening(q)) => p == q,
        (VaultPhaseView::Syncing { .. }, VaultPhaseView::Syncing { .. }) => true,
        (VaultPhaseView::Working { .. }, VaultPhaseView::Working { .. }) => true,
        (
            VaultPhaseView::Locking { session: _, outcome: o },
            VaultPhaseView::Locking { session: _, outcome: q },
        ) => o == q,
        _ => false,
    }
}

/// Next steps that differ in credentials at most: the outcome is the same.
pub open spec fn alike(a: VaultNextView, b: VaultNextView) -> bool {
    match (a, b) {
        (VaultNextView::Run(p, _), VaultNextView::Run(q, _)) => same_but_session(p, q),
        (VaultNextView::Finished(p), VaultNextView::Finished(q)) => p == q,
        _ => false,
    }
}

/// The outcome of a job, with all its errors, says nothing about the master
/// password, the code of the second step or the session key: with other ones,
/// and the same answers from the vault program, it is the same.
pub proof fn law_outcome_reveals_no_credentials(
    job1: JobView,
    job2: JobView,
    next1: VaultNextView,
    next2: VaultNextView,
    replies: Seq<ReplyView>,
)
    requires
        same_but_credentials(job1, job2),
        job1.options.method != Some("--code"@),
        alike(next1, next2),
    ensures
        alike(vault_start(job1), vault_start(job2)),
        alike(vault_reaches(job1, next1, replies), vault_reaches(job2, next2, replies)),
    decreases replies.len(),
{
    law_unlocking_reveals_nothing(
        job1.cli,
        job1.password,
        job1.options,
        job2.password,
        job2.options,
        UnlockPhase::FirstStatus,
        ReplyView::NotStarted(Seq::empty()),
    );
    match (next1, next2) {
        (VaultNextView::Run(p, _), VaultNextView::Run(q, _)) if replies.len() > 0 => {
            if let VaultPhaseView::Opening(phase) = p {
                law_unlocking_reveals_nothing(
                    job1.cli,
                    job1.password,
                    job1.options,
                    job2.password,
                    job2.options,
                    phase,
                    replies[0],
                );
            }
            law_outcome_reveals_no_credentials(
                job1,
                job2,
                vault_after(job1, p, replies[0]),
                vault_after(job2, q, replies[0]),
                replies.skip(1),
            );
        },
        _ => {},
    }
}

/// Whether what a job brings home is what it was for.
pub open spec fn answers_task(task: TaskView, outcome: Result<DataView, BwErrorView>) -> bool {
    match (task, outcome) {
        (_, Err(_)) => true,
        (TaskView::Login, Ok(data)) => data is LoggedIn,
        (TaskView::List { .. }, Ok(data)) => data is Items,
        (TaskView::Read { .. }, Ok(data)) => data is Item,
    }
}

proof fn lemma_answers_task(job: JobView, next: VaultNextView, replies: Seq<ReplyView>)
    requires
        match next {
            VaultNextView::Finished(outcome) => answers_task(job.task, outcome),
            VaultNextView::Run(VaultPhaseView::Locking { session: _, outcome }, _) => answers_task(
                job.task,
                outcome,
            ),
            _ => true,
        },
    ensures
        vault_reaches(job, next, replies) matches VaultNextView::Finished(outcome) ==> answers_task(
            job.task,
            outcome,
        ),
    decreases replies.len(),
{
    if let VaultNextView::Run(phase, _) = next {
        if replies.len() > 0 {
            lemma_answers_task(job, vault_after(job, phase, replies[0]), replies.skip(1));
        }
    }
}

/// A job that succeeds brings home what it was for: a listing brings items, and
/// a reading brings an item.
pub proof fn law_job_brings_what_it_is_for(job: JobView, replies: Seq<ReplyView>)
    ensures
        vault_reaches(job, vault_start(job), replies) matches VaultNextView::Finished(outcome)
            ==> answers_task(job.task, outcome),
{
    lemma_answers_task(job, vault_start(job), replies);
}

/// Where a job gets to with one more answer.
pub proof fn lemma_reaches_step(job: JobView, next: VaultNextView, replies: Seq<ReplyView>)
    requires
        replies.len() > 0,
    ensures
        vault_reaches(job, next, replies) == match vault_reaches(
            job,
            next,
            replies.drop_last(),
        ) {
            VaultNextView::Run(phase, _) => vault_after(job, phase, replies.last()),
            finished => finished,
        },
    decreases replies.len(),
{
    let front = replies.drop_last();
    if let VaultNextView::Run(phase, _) = next {
        let after = vault_after(job, phase, replies[0]);
        if replies.len() == 1 {
            assert(vault_reaches(job, next, front) == next);
            assert(vault_reaches(job, after, replies.skip(1)) == after);
        } else {
            assert(front[0] == replies[0]);
            assert(front.skip(1) =~= replies.skip(1).drop_last());
            lemma_reaches_step(job, after, replies.skip(1));
        }
    }
}

/// Every call of a job runs the configured program in the broker's own profile,
/// and lets it ask nothing.
pub proof fn law_calls_stay_in_the_profile(job: JobView, phase: VaultPhaseView)
    ensures
        vault_process(job, phase).program == job.cli.bw_path,
        vault_process(job, phase).args[0] == "--nointeraction"@,
        vault_process(job, phase).envs[0] == ("BITWARDENCLI_APPDATA_DIR"@, job.cli.appdata_dir),
        vault_process(job, phase).envs[1] == ("BW_NOINTERACTION"@, "true"@),
        vault_process(job, phase).stdin is None,
{
}

/// The second step of a login is for a first login alone: no other call of a job
/// depends on it.
pub proof fn law_second_step_is_for_a_login(
    job: JobView,
    options: OptionsView,
    phase: VaultPhaseView,
)
    requires
        phase != VaultPhaseView::Opening(UnlockPhase::LoggingIn),
    ensures
        vault_process(JobView { options, ..job }, phase) == vault_process(job, phase),
{
}

/// A job that reads an item asks for that item and no other, within its
/// session; a synchronisation and a locking name nothing but the session.
pub proof fn law_session_calls(job: JobView, session: Seq<char>, outcome: Result<DataView, BwErrorView>)
    ensures
        job.task matches TaskView::Read { item_id } ==> vault_process(
            job,
            VaultPhaseView::Working { session },
        ).args == seq!["--nointeraction"@, "--session"@, session, "get"@, "item"@, item_id],
        vault_process(job, VaultPhaseView::Syncing { session }).args == seq![
            "--nointeraction"@,
            "--session"@,
            session,
            "sync"@,
        ],
        vault_process(job, VaultPhaseView::Locking { session, outcome }).args == seq![
            "--nointeraction"@,
            "--session"@,
            session,
            "lock"@,
        ],
{
}

/// A job that lists items narrows the listing by each id that it was given,
/// directly behind the switch for it, whether it was given the other or not.
pub proof fn law_listing_call_carries_each_id(job: JobView, session: Seq<char>)
    requires
        job.task is List,
    ensures
        ({
            let words = vault_process(job, VaultPhaseView::Working { session }).args;
            let collection_id = job.task->collection_id;
            let organization_id = job.task->organization_id;
            &&& words.take(5) == seq!["--nointeraction"@, "--session"@, session, "list"@, "items"@]
            &&& words.len() == 5 + (if collection_id is Some {
                2int
            } else {
                0int
            }) + (if organization_id is Some {
                2int
            } else {
                0int
            })
            &&& collection_id is Some ==> exists|i: int|
                5 <= i < words.len() - 1 && #[trigger] words[i] == "--collectionid"@ && words[i + 1]
                    == collection_id->0
            &&& organization_id is Some ==> exists|i: int|
                5 <= i < words.len() - 1 && #[trigger] words[i] == "--organizationid"@ && words[i
                    + 1] == organization_id->0
        }),
{
    let words = vault_process(job, VaultPhaseView::Working { session }).args;
    let listing = list_args(job.task->collection_id, job.task->organization_id);
    law_each_id_narrows_the_list(job.task->collection_id, job.task->organization_id);
    assert(words =~= seq!["--nointeraction"@, "--session"@, session] + listing);
    assert(words.take(5) =~= seq!["--nointeraction"@, "--session"@, session, "list"@, "items"@]);
    if job.task->collection_id is Some {
        let i = choose|i: int|
            2 <= i < listing.len() - 1 && #[trigger] listing[i] == "--collectionid"@ && listing[i
                + 1] == job.task->collection_id->0;
        assert(words[i + 3] == listing[i] && words[i + 3 + 1] == listing[i + 1]);
    }
    if job.task->organization_id is Some {
        let i = choose|i: int|
            2 <= i < listing.len() - 1 && #[trigger] listing[i] == "--organizationid"@ && listing[i
                + 1] == job.task->organization_id->0;
        assert(words[i + 3] == listing[i] && words[i + 3 + 1] == listing[i + 1]);
    }
}

/// Once a session is open, a job synchronises first where it is to, then does
/// what it is for, then locks, and ends with what the work brought. A login has
/// no work of its own.
pub proof fn law_job_goes_step_by_step(
    job: JobView,
    session: Seq<char>,
    output: OutputView,
    outcome: Result<DataView, BwErrorView>,
    answer: ReplyView,
)
    requires
        output.success,
    ensures
        ({
            let done = ReplyView::Finished(output);
            let opened = vault_unlocked(job, UnlockView::Session(session));
            let synced = vault_after(job, VaultPhaseView::Syncing { session }, done);
            let worked = vault_after(job, VaultPhaseView::Working { session }, done);
            let locking = VaultPhaseView::Locking { session, outcome };
            &&& job.sync ==> (opened matches VaultNextView::Run(phase, _) && phase
                == VaultPhaseView::Syncing { session })
            &&& !job.sync ==> opened == synced
            &&& job.task is Login ==> (synced matches VaultNextView::Run(phase, _) && phase == (
            VaultPhaseView::Locking { session, outcome: Ok(DataView::LoggedIn) }))
            &&& !(job.task is Login) ==> (synced matches VaultNextView::Run(phase, _) && phase
                == VaultPhaseView::Working { session })
            &&& job.task is Read ==> match json_text(output.stdout) {
                Ok(item) => worked matches VaultNextView::Run(phase, _) && phase == (
                VaultPhaseView::Locking { session, outcome: Ok(DataView::Item(item)) }),
                Err(text) => worked matches VaultNextView::Run(phase, _) && phase is Locking
                    && phase->outcome is Err && phase->outcome->Err_0.message() == text,
            }
            &&& job.task is List ==> match json_list(output.stdout) {
                Ok(items) => worked matches VaultNextView::Run(phase, _) && phase == (
                VaultPhaseView::Locking { session, outcome: Ok(DataView::Items(items)) }),
                Err(text) => worked matches VaultNextView::Run(phase, _) && phase is Locking
                    && phase->outcome is Err && phase->outcome->Err_0.message() == text,
            }
            &&& vault_after(job, locking, answer) == VaultNextView::Finished(outcome)
        }),
{
}

/// What fails in a session is reported in the end, and the session is locked
/// all the same; what fails before there is one ends the job.
pub proof fn law_failure_is_reported(
    job: JobView,
    session: Seq<char>,
    answer: ReplyView,
    e: BwErrorView,
)
    requires
        !(answer matches ReplyView::Finished(output) && output.success),
    ensures
        vault_after(job, VaultPhaseView::Syncing { session }, answer) matches VaultNextView::Run(
            phase,
            _,
        ) && phase == (VaultPhaseView::Locking {
            session,
            outcome: Err(
                checked_reply(job.cli, seq!["sync"@], true, false, answer)->Err_0,
            ),
        }),
        !(job.task is Login) ==> (vault_after(
            job,
            VaultPhaseView::Working { session },
            answer,
        ) matches VaultNextView::Run(phase, _) && phase == (VaultPhaseView::Locking {
            session,
            outcome: Err(
                checked_reply(job.cli, task_args(job.task), true, false, answer)->Err_0,
            ),
        })),
        vault_unlocked(job, UnlockView::Failed(e)) == VaultNextView::Finished(Err(e)),
{
}

/// Every call of a job is the one that its phase makes, and a vault is first
/// asked for its status, unless the options are refused.
pub proof fn law_job_starts_with_a_status(job: JobView, phase: VaultPhaseView, answer: ReplyView)
    ensures
        (job.options.method is Some <==> job.options.code is Some) ==> vault_start(job)
            == VaultNextView::Run(
            VaultPhaseView::Opening(UnlockPhase::FirstStatus),
            vault_process(job, VaultPhaseView::Opening(UnlockPhase::FirstStatus)),
        ),
        !(job.options.method is Some <==> job.options.code is Some) ==> (vault_start(job) matches
            VaultNextView::Finished(r) && r is Err),
        vault_after(job, phase, answer) matches VaultNextView::Run(next, call) ==> call
            == vault_process(job, next),
{
}

} // verus!
