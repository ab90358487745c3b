//! How a request is answered: its nonce is used up, the catalog is looked at,
//! the user is asked, and the catalog or the fields of one secret are given out.
use vstd::prelude::*;

use crate::approval::{
    confirm_request, denial, dialog_message, dialog_script, read_confirmation,
};
use crate::audit::{audit_event, event_fields};
use crate::catalog::{
    approval_needed, catalog_shown, entry_for, extracted, field_value, needs_approval, permitted, require_secret, visible_catalog,
    Catalog, EntryView,
};
use crate::config::{
    client_named, client_position, ClientApprovalMode, ClientConfig, ClientView, Config,
};
use crate::fetch::{
    fetch_answered, fetch_dir_made, fetch_in_vault, fetch_job, fetch_start, plan_of, FetchErrorView, FetchNext, FetchNextView,
    FetchPhase, FetchPhaseView, FetchPlan, PlanView,
};
use crate::json::{number_view, object_view, put, Json, JsonView};
use crate::keychain::{configured_process, password_of};
use crate::nonce::{
    law_nonce_is_accepted_once, law_signed_request_is_accepted_once, nonce_key, nonce_taken,
    nonces_after, nonces_after_all, NonceDb,
};
use crate::process::{done_view, ProcessReply, ProcessSpec, ProcessView, ReplyView};
use crate::server::{
    ask_of, caller_of, fault_at, field_names, fields_fault, fields_for, first_fault,
    law_fields_are_granted_as_asked, read_ask, refusal, requested_fields, verify_request,
    AppState, Ask, AskView, Caller, CallerView, HttpError, HttpErrorView, Request, RequestView,
    Route,
};
use crate::signing::{
    carries, header_text, law_signed_request_is_accepted, now_unix, signed_headers_view,
    within_skew, HEADER_CLIENT, HEADER_TIMESTAMP,
};
use crate::text::{borrow_option, opt_text, parsed_i64, texts};
use crate::textmap::TextMap;
use crate::vault::{
    calls_left, lemma_reaches_step, vault_reaches, vault_run, vault_start, DataView, JobView,
    VaultJob, VaultNextView,
};

verus! {

/// A request whose nonce was accepted: who sent it, and the secret that it asks
/// for, if it does not ask for the catalog.
#[derive(Debug)]
pub struct Wanted {
    pub client: ClientConfig,
    pub client_id: String,
    pub ask: Option<Ask>,
}

/// A request whose nonce was accepted, as mathematics.
pub struct WantedView {
    pub client: ClientView,
    pub client_id: Seq<char>,
    pub ask: Option<AskView>,
}

impl View for Wanted {
    type V = WantedView;

    open spec fn view(&self) -> WantedView {
        WantedView {
            client: self.client@,
            client_id: self.client_id@,
            ask: match self.ask {
                Some(ask) => Some(ask@),
                None => None,
            },
        }
    }
}

/// A secret that a client may have, once the user agrees.
#[derive(Debug)]
pub struct Grant {
    pub client_id: String,
    pub secret_id: String,
    pub purpose: String,
    pub run_id: String,
    pub ttl_seconds: u64,
    pub plan: FetchPlan,
}

/// A secret that a client may have, as mathematics.
pub struct GrantView {
    pub client_id: Seq<char>,
    pub secret_id: Seq<char>,
    pub purpose: Seq<char>,
    pub run_id: Seq<char>,
    pub ttl_seconds: u64,
    pub plan: PlanView,
}

impl View for Grant {
    type V = GrantView;

    open spec fn view(&self) -> GrantView {
        GrantView {
            client_id: self.client_id@,
            secret_id: self.secret_id@,
            purpose: self.purpose@,
            run_id: self.run_id@,
            ttl_seconds: self.ttl_seconds,
            plan: self.plan@,
        }
    }
}

/// A call whose answer is awaited.
#[derive(Debug)]
pub enum Pending {
    /// The user is asked.
    Asking(Grant),
    /// The secret is fetched.
    Fetching(Grant, FetchPhase),
}

/// A call whose answer is awaited, as mathematics.
pub enum PendingView {
    Asking(GrantView),
    Fetching(GrantView, FetchPhaseView),
}

impl View for Pending {
    type V = PendingView;

    open spec fn view(&self) -> PendingView {
        match self {
            Pending::Asking(grant) => PendingView::Asking(grant@),
            Pending::Fetching(grant, phase) => PendingView::Fetching(grant@, phase@),
        }
    }
}

/// Something to be written to the log.
#[derive(Debug)]
pub struct LogEntry {
    pub event: String,
    pub fields: TextMap<Json>,
}

/// Something to be written to the log, as mathematics.
pub struct LogView {
    pub event: Seq<char>,
    pub fields: Map<Seq<char>, JsonView>,
}

impl View for LogEntry {
    type V = LogView;

    open spec fn view(&self) -> LogView {
        LogView { event: self.event@, fields: object_view(self.fields) }
    }
}

/// What is answered, and what is logged before it is.
#[derive(Debug)]
pub struct Answer {
    pub log: Option<LogEntry>,
    pub outcome: Result<Json, HttpError>,
}

/// What is answered and logged, as mathematics.
pub struct AnswerView {
    pub log: Option<LogView>,
    pub outcome: Result<JsonView, HttpErrorView>,
}

impl View for Answer {
    type V = AnswerView;

    open spec fn view(&self) -> AnswerView {
        AnswerView {
            log: match self.log {
                Some(entry) => Some(entry@),
                None => None,
            },
            outcome: match self.outcome {
                Ok(j) => Ok(j@),
                Err(e) => Err(e@),
            },
        }
    }
}

/// What comes next in answering a request.
#[derive(Debug)]
pub enum Next {
    /// Read the nonces. No one else may read or write them until this request
    /// has written them or is answered.
    LoadNonces(Caller),
    SaveNonces(Caller, NonceDb),
    LoadCatalog(Wanted),
    /// Make the call, and come back with what became of it.
    Run(Pending, ProcessSpec),
    /// See that the directory is there, and go on with the job.
    MakeDir(Grant, VaultJob, String),
    Reply(Answer),
}

/// What comes next in answering a request, as mathematics.
pub enum NextView {
    LoadNonces(CallerView),
    SaveNonces(CallerView, Map<Seq<char>, i64>),
    LoadCatalog(WantedView),
    Run(PendingView, ProcessView),
    MakeDir(GrantView, JobView, Seq<char>),
    Reply(AnswerView),
}

impl View for Next {
    type V = NextView;

    open spec fn view(&self) -> NextView {
        match self {
            Next::LoadNonces(caller) => NextView::LoadNonces(caller@),
            Next::SaveNonces(caller, db) => NextView::SaveNonces(caller@, db@),
            Next::LoadCatalog(wanted) => NextView::LoadCatalog(wanted@),
            Next::Run(pending, process) => NextView::Run(pending@, process@),
            Next::MakeDir(grant, job, dir) => NextView::MakeDir(grant@, job@, dir@),
            Next::Reply(answer) => NextView::Reply(answer@),
        }
    }
}

/// An answer without a line in the log.
pub open spec fn reply(outcome: Result<JsonView, HttpErrorView>) -> NextView {
    NextView::Reply(AnswerView { log: None, outcome })
}

fn reply_with(outcome: Result<Json, HttpError>) -> (r: Next)
    ensures
        r@ == reply(
            match outcome {
                Ok(j) => Ok(j@),
                Err(e) => Err(e@),
            },
        ),
{
    Next::Reply(Answer { log: None, outcome })
}

/// How answering begins: a body that is too large is not even looked at.
pub open spec fn exchange_start(config: Config, request: RequestView, now: i64) -> NextView {
    if request.route == Route::Secret && request.body.len() > config.server.max_body_bytes {
        reply(Err(refusal(413, "request body too large"@)))
    } else {
        match caller_of(
            config,
            request.method(),
            request.target,
            request.lines,
            request.signed_body(),
            now as int,
        ) {
            Err(e) => reply(Err(e)),
            Ok(caller) => NextView::LoadNonces(caller),
        }
    }
}

/// How answering goes on with the nonces: one that is taken is a replay.
pub open spec fn exchange_nonces(
    ttl_seconds: int,
    caller: CallerView,
    loaded: Result<Map<Seq<char>, i64>, Seq<char>>,
    now: i64,
) -> NextView {
    match loaded {
        Err(text) => reply(Err(refusal(401, text))),
        Ok(nonces) => {
            let key = nonce_key(caller.client_id, caller.nonce);
            if nonce_taken(nonces, key, now as int, ttl_seconds) {
                reply(Err(refusal(401, "replay detected for request nonce"@)))
            } else {
                NextView::SaveNonces(caller, nonces_after(nonces, key, now, ttl_seconds))
            }
        },
    }
}

/// How answering goes on once the nonce is used up.
pub open spec fn exchange_saved(
    request: RequestView,
    caller: CallerView,
    saved: Result<(), Seq<char>>,
) -> NextView {
    match saved {
        Err(text) => reply(Err(refusal(401, text))),
        Ok(()) => match request.route {
            Route::Catalog => NextView::LoadCatalog(
                WantedView { client: caller.client, client_id: caller.client_id, ask: None },
            ),
            Route::Secret => match ask_of(request.body) {
                Err(e) => reply(Err(e)),
                Ok(ask) => NextView::LoadCatalog(
                    WantedView {
                        client: caller.client,
                        client_id: caller.client_id,
                        ask: Some(ask),
                    },
                ),
            },
        },
    }
}

/// What a client may have of what it asks for, or why it may not: the entry has
/// to be open to it, and so have the fields.
pub open spec fn grant_for(
    state: AppState,
    secrets: Map<Seq<char>, EntryView>,
    client: ClientView,
    client_id: Seq<char>,
    ask: AskView,
) -> Result<GrantView, HttpErrorView> {
    match entry_for(secrets, client, ask.secret_id) {
        Err(e) => Err(refusal(403, e.message())),
        Ok(entry) => match fields_for(ask.fields, entry.return_fields) {
            Err(e) => Err(e),
            Ok(fields) => Ok(
                GrantView {
                    client_id,
                    secret_id: ask.secret_id,
                    purpose: ask.purpose,
                    run_id: ask.run_id,
                    ttl_seconds: entry.ttl_seconds,
                    plan: plan_of(
                        state.config,
                        state.home@,
                        opt_text(state.user_home),
                        client_id,
                        ask.secret_id,
                        entry.item_id,
                        fields,
                    ),
                },
            ),
        },
    }
}

/// The dialog in which the user is asked about a grant.
pub open spec fn grant_dialog(config: Config, grant: GrantView) -> ProcessView {
    ProcessView {
        program: "osascript"@,
        args: seq![
            "-e"@,
            dialog_script(
                dialog_message(grant.client_id, grant.secret_id, grant.purpose, grant.run_id),
                config.approval.dialog_timeout_seconds as nat,
            ),
        ],
        envs: Seq::empty(),
        stdin: None,
    }
}

/// Whether the user is asked before a client gets an entry.
pub open spec fn user_is_asked(config: Config, client: ClientView, entry: EntryView) -> bool {
    needs_approval(client, entry) && config.approval.confirm_dialog
}

/// What is logged of a grant.
pub open spec fn grant_log(
    event: Seq<char>,
    grant: GrantView,
    fields: Option<Seq<Seq<char>>>,
) -> LogView {
    LogView {
        event,
        fields: event_fields(
            grant.client_id,
            grant.secret_id,
            grant.purpose,
            grant.run_id,
            fields,
        ),
    }
}

/// The answer that gives a secret out.
pub open spec fn released(grant: GrantView, fields: Map<Seq<char>, JsonView>) -> JsonView {
    JsonView::Object(
        map![
            "secret_id"@ => JsonView::Text(grant.secret_id),
            "fields"@ => JsonView::Object(fields),
            "ttl_seconds"@ => number_view(grant.ttl_seconds),
        ],
    )
}

/// How answering goes on after a step in fetching.
pub open spec fn exchange_fetching(grant: GrantView, next: FetchNextView) -> NextView {
    match next {
        FetchNextView::Run(phase, process) => NextView::Run(
            PendingView::Fetching(grant, phase),
            process,
        ),
        FetchNextView::MakeDir(job, dir) => NextView::MakeDir(grant, job, dir),
        FetchNextView::Finished(Err(e)) => reply(Err(refusal(400, e.message()))),
        FetchNextView::Finished(Ok(fields)) => NextView::Reply(
            AnswerView {
                log: Some(grant_log("secret_released"@, grant, Some(grant.plan.fields))),
                outcome: Ok(released(grant, fields)),
            },
        ),
    }
}

/// How answering goes on when a grant is settled.
pub open spec fn exchange_granted(state: AppState, grant: GrantView) -> NextView {
    exchange_fetching(
        grant,
        fetch_start(state.config, state.home@, opt_text(state.user_home), grant.plan),
    )
}

/// How answering goes on with the catalog.
pub open spec fn exchange_catalog(
    state: AppState,
    wanted: WantedView,
    loaded: Result<Catalog, Seq<char>>,
) -> NextView {
    match loaded {
        Err(text) => reply(Err(refusal(400, text))),
        Ok(catalog) => match wanted.ask {
            None => reply(Ok(catalog_shown(wanted.client, catalog))),
            Some(ask) => match grant_for(
                state,
                catalog.by_name(),
                wanted.client,
                wanted.client_id,
                ask,
            ) {
                Err(e) => reply(Err(e)),
                Ok(grant) => if user_is_asked(
                    state.config,
                    wanted.client,
                    catalog.by_name()[ask.secret_id],
                ) {
                    NextView::Run(PendingView::Asking(grant), grant_dialog(state.config, grant))
                } else {
                    exchange_granted(state, grant)
                },
            },
        },
    }
}

/// How answering goes on after a call.
pub open spec fn exchange_answered(
    state: AppState,
    pending: PendingView,
    answer: ReplyView,
) -> NextView {
    match pending {
        PendingView::Asking(grant) => match denial(answer) {
            Some(e) => NextView::Reply(
                AnswerView {
                    log: Some(grant_log("secret_denied"@, grant, None)),
                    outcome: Err(refusal(403, e.message())),
                },
            ),
            None => exchange_granted(state, grant),
        },
        PendingView::Fetching(grant, phase) => exchange_fetching(
            grant,
            fetch_answered(grant.plan, phase, answer),
        ),
    }
}

/// What was read of the nonces.
pub open spec fn nonces_view(r: Result<NonceDb, String>) -> Result<Map<Seq<char>, i64>, Seq<char>> {
    match r {
        Ok(db) => Ok(db@),
        Err(text) => Err(text@),
    }
}

/// What was read of the catalog.
pub open spec fn loaded_view(r: Result<Catalog, String>) -> Result<Catalog, Seq<char>> {
    match r {
        Ok(catalog) => Ok(catalog),
        Err(text) => Err(text@),
    }
}

impl Grant {
    fn log(&self, event: &str, fields: Option<&[String]>) -> (r: LogEntry)
        ensures
            r@ == grant_log(
                event@,
                self@,
                match fields {
                    Some(names) => Some(texts(names@)),
                    None => None,
                },
            ),
    {
        LogEntry {
            event: event.to_string(),
            fields: audit_event(
                self.client_id.as_str(),
                self.secret_id.as_str(),
                self.purpose.as_str(),
                self.run_id.as_str(),
                fields,
            ),
        }
    }

    fn release(&self, fields: TextMap<Json>) -> (r: Json)
        ensures
            r@ == released(self@, object_view(fields)),
    {
        let mut object: TextMap<Json> = TextMap::new();
        put(&mut object, "secret_id", Json::text(self.secret_id.as_str()));
        put(&mut object, "fields", Json::Object(fields));
        put(&mut object, "ttl_seconds", Json::number(self.ttl_seconds));
        Json::Object(object)
    }
}

fn fetching(grant: Grant, next: FetchNext) -> (r: Next)
    ensures
        r@ == exchange_fetching(grant@, next@),
{
    match next {
        FetchNext::Run(phase, process) => Next::Run(Pending::Fetching(grant, phase), process),
        FetchNext::MakeDir(job, dir) => Next::MakeDir(grant, job, dir),
        FetchNext::Finished(Err(e)) => reply_with(Err(HttpError::new(400, e.message()))),
        FetchNext::Finished(Ok(fields)) => {
            let log = grant.log("secret_released", Some(grant.plan.fields.as_slice()));
            Next::Reply(Answer { log: Some(log), outcome: Ok(grant.release(fields)) })
        },
    }
}

impl AppState {
    /// Begins to answer a request that came at a given time.
    pub fn begin_at(&self, request: &Request, now: i64) -> (r: Next)
        ensures
            r@ == exchange_start(self.config, request@, now),
    {
        let empty: Vec<u8> = Vec::new();
        let verified = match request.route {
            Route::Catalog => {
                assert(empty@ =~= request@.signed_body());
                verify_request(
                    &self.config,
                    "GET",
                    request.target.as_str(),
                    &request.headers,
                    &empty,
                    now,
                )
            },
            Route::Secret => {
                if request.body.len() > self.config.server.max_body_bytes {
                    return reply_with(
                        Err(HttpError::new(413, "request body too large".to_string())),
                    );
                }
                verify_request(
                    &self.config,
                    "POST",
                    request.target.as_str(),
                    &request.headers,
                    &request.body,
                    now,
                )
            },
        };
        match verified {
            Err(e) => reply_with(Err(e)),
            Ok(caller) => Next::LoadNonces(caller),
        }
    }

    /// Begins to answer a request that comes now.
    pub fn begin(&self, request: &Request) -> (r: Next)
        ensures
            exists|now: i64| r@ == #[trigger] exchange_start(self.config, request@, now),
    {
        let now = now_unix();
        self.begin_at(request, now)
    }

    /// Goes on with the nonces that were read, at a given time.
    pub fn nonces_loaded_at(&self, caller: Caller, loaded: Result<NonceDb, String>, now: i64) -> (r:
        Next)
        ensures
            r@ == exchange_nonces(
                self.nonces.ttl_seconds as int,
                caller@,
                nonces_view(loaded),
                now,
            ),
    {
        match loaded {
            Err(text) => reply_with(Err(HttpError::new(401, text))),
            Ok(db) => {
                let mut db = db;
                match self.nonces.check_and_store(
                    &mut db,
                    caller.client_id.as_str(),
                    caller.nonce.as_str(),
                    now,
                ) {
                    Err(e) => reply_with(Err(HttpError::new(401, e.message()))),
                    Ok(()) => Next::SaveNonces(caller, db),
                }
            },
        }
    }

    /// Goes on with the nonces that were just read.
    pub fn nonces_loaded(&self, caller: Caller, loaded: Result<NonceDb, String>) -> (r: Next)
        ensures
            exists|now: i64|
                r@ == #[trigger] exchange_nonces(
                    self.nonces.ttl_seconds as int,
                    caller@,
                    nonces_view(loaded),
                    now,
                ),
    {
        let now = now_unix();
        self.nonces_loaded_at(caller, loaded, now)
    }

    /// Goes on after the nonces were to be written.
    pub fn nonces_saved(&self, request: &Request, caller: Caller, saved: Result<(), String>) -> (r:
        Next)
        ensures
            r@ == exchange_saved(request@, caller@, done_view(saved)),
    {
        match saved {
            Err(text) => reply_with(Err(HttpError::new(401, text))),
            Ok(()) => {
                let ask = match request.route {
                    Route::Catalog => None,
                    Route::Secret => match read_ask(&request.body) {
                        Err(e) => return reply_with(Err(e)),
                        Ok(ask) => Some(ask),
                    },
                };
                Next::LoadCatalog(
                    Wanted { client: caller.client, client_id: caller.client_id, ask },
                )
            },
        }
    }

    fn granted(&self, grant: Grant) -> (r: Next)
        ensures
            r@ == exchange_granted(*self, grant@),
    {
        let next = grant.plan.start(&self.config, self.home.as_str(), borrow_option(&self.user_home));
        fetching(grant, next)
    }

    /// Goes on with the catalog that was read.
    pub fn catalog_loaded(&self, wanted: Wanted, loaded: Result<Catalog, String>) -> (r: Next)
        ensures
            r@ == exchange_catalog(*self, wanted@, loaded_view(loaded)),
    {
        let catalog = match loaded {
            Ok(catalog) => catalog,
            Err(text) => return reply_with(Err(HttpError::new(400, text))),
        };
        let ask = match wanted.ask {
            None => return reply_with(Ok(visible_catalog(&catalog, &wanted.client))),
            Some(ask) => ask,
        };
        let entry = match require_secret(&catalog, &wanted.client, ask.secret_id.as_str()) {
            Ok(entry) => entry,
            Err(e) => return reply_with(Err(HttpError::new(403, e.message()))),
        };
        let fields = match requested_fields(&ask.payload, &entry.return_fields) {
            Ok(fields) => fields,
            Err(e) => return reply_with(Err(e)),
        };
        let plan = FetchPlan::new(
            &self.config,
            self.home.as_str(),
            borrow_option(&self.user_home),
            wanted.client_id.as_str(),
            ask.secret_id.as_str(),
            entry.item_id.clone(),
            fields,
        );
        let asked = approval_needed(&wanted.client, entry);
        let grant = Grant {
            client_id: wanted.client_id,
            secret_id: ask.secret_id,
            purpose: ask.purpose,
            run_id: ask.run_id,
            ttl_seconds: entry.ttl_seconds,
            plan,
        };
        if asked {
            if let Some(process) = confirm_request(
                &self.config,
                grant.client_id.as_str(),
                grant.secret_id.as_str(),
                grant.purpose.as_str(),
                grant.run_id.as_str(),
            ) {
                return Next::Run(Pending::Asking(grant), process);
            }
        }
        self.granted(grant)
    }

    /// Goes on after a call.
    pub fn answered(&self, pending: Pending, answer: ProcessReply) -> (r: Next)
        ensures
            r@ == exchange_answered(*self, pending@, answer@),
    {
        match pending {
            Pending::Asking(grant) => match read_confirmation(answer) {
                Err(e) => Next::Reply(
                    Answer {
                        log: Some(grant.log("secret_denied", None)),
                        outcome: Err(HttpError::new(403, e.message())),
                    },
                ),
                Ok(()) => self.granted(grant),
            },
            Pending::Fetching(grant, phase) => {
                let next = grant.plan.answered(phase, answer);
                fetching(grant, next)
            },
        }
    }

    /// Goes on after the directory was to be made.
    pub fn dir_made(&self, grant: Grant, job: VaultJob, made: Result<(), String>) -> (r: Next)
        ensures
            r@ == exchange_fetching(
                grant@,
                fetch_dir_made(grant@.plan, job@, done_view(made)),
            ),
    {
        let next = grant.plan.dir_made(job, made);
        fetching(grant, next)
    }
}

/// Something that happens outside while a request is answered.
pub enum EventView {
    NoncesLoaded(Result<Map<Seq<char>, i64>, Seq<char>>, i64),
    NoncesSaved(Result<(), Seq<char>>),
    CatalogLoaded(Result<Catalog, Seq<char>>),
    Answered(ReplyView),
    DirMade(Result<(), Seq<char>>),
}

/// How answering goes on after an event. One that was not waited for changes
/// nothing.
pub open spec fn exchange_step(
    state: AppState,
    request: RequestView,
    next: NextView,
    event: EventView,
) -> NextView {
    match (next, event) {
        (NextView::LoadNonces(caller), EventView::NoncesLoaded(loaded, now)) => exchange_nonces(
            state.nonces.ttl_seconds as int,
            caller,
            loaded,
            now,
        ),
        (NextView::SaveNonces(caller, _), EventView::NoncesSaved(saved)) => exchange_saved(
            request,
            caller,
            saved,
        ),
        (NextView::LoadCatalog(wanted), EventView::CatalogLoaded(loaded)) => exchange_catalog(
            state,
            wanted,
            loaded,
        ),
        (NextView::Run(pending, _), EventView::Answered(answer)) => exchange_answered(
            state,
            pending,
            answer,
        ),
        (NextView::MakeDir(grant, job, _), EventView::DirMade(made)) => exchange_fetching(
            grant,
            fetch_dir_made(grant.plan, job, made),
        ),
        _ => next,
    }
}

/// Where answering a request that came at a given time gets to.
#[verifier::opaque]
pub open spec fn exchange_reaches(
    state: AppState,
    request: RequestView,
    now: i64,
    events: Seq<EventView>,
) -> NextView
    decreases events.len(),
{
    if events.len() == 0 {
        exchange_start(state.config, request, now)
    } else {
        exchange_step(
            state,
            request,
            exchange_reaches(state, request, now, events.drop_last()),
            events.last(),
        )
    }
}

/// Who sent a request that came at a given time.
pub open spec fn sender(state: AppState, request: RequestView, now: i64) -> Result<
    CallerView,
    HttpErrorView,
> {
    caller_of(
        state.config,
        request.method(),
        request.target,
        request.lines,
        request.signed_body(),
        now as int,
    )
}

/// Whether an event shows that the nonce of a request was not used before.
pub open spec fn shows_fresh_nonce(state: AppState, caller: CallerView, event: EventView) -> bool {
    event matches EventView::NoncesLoaded(Ok(nonces), at) && !nonce_taken(
        nonces,
        nonce_key(caller.client_id, caller.nonce),
        at as int,
        state.nonces.ttl_seconds as int,
    )
}

/// Whether an event brings a catalog that gives a client what it asks for.
pub open spec fn shows_grant(
    state: AppState,
    caller: CallerView,
    ask: AskView,
    grant: GrantView,
    event: EventView,
) -> bool {
    event matches EventView::CatalogLoaded(Ok(catalog)) && grant_for(
        state,
        catalog.by_name(),
        caller.client,
        caller.client_id,
        ask,
    ) == Ok::<GrantView, HttpErrorView>(grant)
}

/// Whether an event brings a catalog that a client gets what it asks for from
/// without the user being asked.
pub open spec fn shows_no_question(
    state: AppState,
    caller: CallerView,
    ask: AskView,
    event: EventView,
) -> bool {
    event matches EventView::CatalogLoaded(Ok(catalog)) && !user_is_asked(
        state.config,
        caller.client,
        catalog.by_name()[ask.secret_id],
    )
}

/// Whether an event is the consent of the user.
pub open spec fn shows_consent(event: EventView) -> bool {
    event matches EventView::Answered(answer) && denial(answer) is None
}

/// Whether the nonce of a request was found unused.
pub open spec fn nonce_was_fresh(
    state: AppState,
    caller: CallerView,
    events: Seq<EventView>,
) -> bool {
    exists|i: int| 0 <= i < events.len() && shows_fresh_nonce(state, caller, #[trigger] events[i])
}

/// Whether the catalog gives a client what it asks for.
pub open spec fn was_granted(
    state: AppState,
    caller: CallerView,
    ask: AskView,
    grant: GrantView,
    events: Seq<EventView>,
) -> bool {
    exists|i: int|
        0 <= i < events.len() && shows_grant(state, caller, ask, grant, #[trigger] events[i])
}

/// Whether the catalog gives a client what it asks for without the user being
/// asked.
pub open spec fn was_spared(
    state: AppState,
    caller: CallerView,
    ask: AskView,
    grant: GrantView,
    events: Seq<EventView>,
) -> bool {
    exists|i: int|
        0 <= i < events.len() && shows_grant(state, caller, ask, grant, #[trigger] events[i])
            && shows_no_question(state, caller, ask, events[i])
}

/// Whether the user consented.
pub open spec fn user_consented(events: Seq<EventView>) -> bool {
    exists|i: int| 0 <= i < events.len() && shows_consent(#[trigger] events[i])
}

/// Whether a grant may be carried out: the catalog gives it, and the user was
/// asked and consented, or was not to be asked.
pub open spec fn was_cleared(
    state: AppState,
    caller: CallerView,
    ask: AskView,
    grant: GrantView,
    events: Seq<EventView>,
) -> bool {
    &&& was_granted(state, caller, ask, grant, events)
    &&& was_spared(state, caller, ask, grant, events) || user_consented(events)
}

/// Whether an answer gives out the fields of a grant, and is logged as that.
pub open spec fn releases(grant: GrantView, answer: AnswerView) -> bool {
    &&& exists|item: JsonView|
        answer.outcome == Ok::<JsonView, HttpErrorView>(
            released(grant, #[trigger] extracted(item, grant.plan.fields)),
        )
    &&& answer.log == Some(grant_log("secret_released"@, grant, Some(grant.plan.fields)))
}

/// What holds of a request at each stage of its answering.
pub open spec fn accounted_for(
    state: AppState,
    request: RequestView,
    now: i64,
    events: Seq<EventView>,
    next: NextView,
) -> bool {
    let from = sender(state, request, now);
    let caller = from->Ok_0;
    let ask = ask_of(request.body)->Ok_0;
    let accepted = from is Ok && nonce_was_fresh(state, caller, events);
    let asked = request.route == Route::Secret && ask_of(request.body) is Ok
        && request.body.len() <= state.config.server.max_body_bytes;
    match next {
        NextView::LoadNonces(c) => from == Ok::<CallerView, HttpErrorView>(c) && (request.route
            == Route::Secret ==> request.body.len() <= state.config.server.max_body_bytes),
        NextView::SaveNonces(c, _) => accepted && caller == c && (request.route == Route::Secret
            ==> request.body.len() <= state.config.server.max_body_bytes),
        NextView::LoadCatalog(w) => accepted && w.client == caller.client && w.client_id
            == caller.client_id && match w.ask {
            None => request.route == Route::Catalog,
            Some(a) => asked && a == ask,
        },
        NextView::Run(PendingView::Asking(grant), _) => accepted && asked && was_granted(
            state,
            caller,
            ask,
            grant,
            events,
        ),
        NextView::Run(PendingView::Fetching(grant, _), _) => accepted && asked && was_cleared(
            state,
            caller,
            ask,
            grant,
            events,
        ),
        NextView::MakeDir(grant, _, _) => accepted && asked && was_cleared(
            state,
            caller,
            ask,
            grant,
            events,
        ),
        NextView::Reply(answer) => answer.outcome is Ok ==> accepted && match request.route {
            Route::Catalog => exists|i: int|
                0 <= i < events.len() && (#[trigger] events[i] matches EventView::CatalogLoaded(
                    Ok(catalog),
                ) && answer.outcome == Ok::<JsonView, HttpErrorView>(
                    catalog_shown(caller.client, catalog),
                )),
            Route::Secret => asked && exists|grant: GrantView|
                was_cleared(state, caller, ask, grant, events) && releases(grant, answer),
        },
    }
}

proof fn lemma_fresh_later(state: AppState, caller: CallerView, events: Seq<EventView>)
    requires
        events.len() > 0,
        nonce_was_fresh(state, caller, events.drop_last()),
    ensures
        nonce_was_fresh(state, caller, events),
{
    let front = events.drop_last();
    let i = choose|i: int| 0 <= i < front.len() && shows_fresh_nonce(
        state,
        caller,
        #[trigger] front[i],
    );
    assert(events[i] == front[i]);
}

proof fn lemma_granted_later(
    state: AppState,
    caller: CallerView,
    ask: AskView,
    grant: GrantView,
    events: Seq<EventView>,
)
    requires
        events.len() > 0,
        was_granted(state, caller, ask, grant, events.drop_last()),
    ensures
        was_granted(state, caller, ask, grant, events),
{
    let front = events.drop_last();
    let i = choose|i: int| 0 <= i < front.len() && shows_grant(
        state,
        caller,
        ask,
        grant,
        #[trigger] front[i],
    );
    assert(events[i] == front[i]);
}

proof fn lemma_cleared_later(
    state: AppState,
    caller: CallerView,
    ask: AskView,
    grant: GrantView,
    events: Seq<EventView>,
)
    requires
        events.len() > 0,
        was_cleared(state, caller, ask, grant, events.drop_last()),
    ensures
        was_cleared(state, caller, ask, grant, events),
{
    lemma_granted_later(state, caller, ask, grant, events);
    let front = events.drop_last();
    if was_spared(state, caller, ask, grant, front) {
        let i = choose|i: int| 0 <= i < front.len() && shows_grant(
            state,
            caller,
            ask,
            grant,
            #[trigger] front[i],
        ) && shows_no_question(state, caller, ask, front[i]);
        assert(events[i] == front[i]);
    } else {
        let i = choose|i: int| 0 <= i < front.len() && shows_consent(#[trigger] front[i]);
        assert(events[i] == front[i]);
    }
}

proof fn lemma_fetching_accounted_for(
    state: AppState,
    request: RequestView,
    now: i64,
    events: Seq<EventView>,
    grant: GrantView,
    next: FetchNextView,
)
    requires
        request.route == Route::Secret,
        sender(state, request, now) is Ok,
        nonce_was_fresh(state, sender(state, request, now)->Ok_0, events),
        ask_of(request.body) is Ok,
        request.body.len() <= state.config.server.max_body_bytes,
        was_cleared(
            state,
            sender(state, request, now)->Ok_0,
            ask_of(request.body)->Ok_0,
            grant,
            events,
        ),
        next matches FetchNextView::Finished(Ok(fields)) ==> exists|item: JsonView|
            fields == #[trigger] extracted(item, grant.plan.fields),
    ensures
        accounted_for(state, request, now, events, exchange_fetching(grant, next)),
{
    if let FetchNextView::Finished(Ok(fields)) = next {
        let item = choose|item: JsonView| fields == #[trigger] extracted(item, grant.plan.fields);
        assert(exchange_fetching(grant, next)->Reply_0.outcome == Ok::<JsonView, HttpErrorView>(
            released(grant, extracted(item, grant.plan.fields)),
        ));
        assert(releases(grant, exchange_fetching(grant, next)->Reply_0));
    }
}

proof fn lemma_accounted_for(
    state: AppState,
    request: RequestView,
    now: i64,
    events: Seq<EventView>,
)
    ensures
        accounted_for(
            state,
            request,
            now,
            events,
            exchange_reaches(state, request, now, events),
        ),
    decreases events.len(),
{
    reveal(exchange_reaches);
    if events.len() > 0 {
        let front = events.drop_last();
        let event = events.last();
        let before = exchange_reaches(state, request, now, front);
        let caller = sender(state, request, now)->Ok_0;
        let ask = ask_of(request.body)->Ok_0;
        lemma_accounted_for(state, request, now, front);
        assert(events[events.len() - 1] == event);
        if nonce_was_fresh(state, caller, front) {
            lemma_fresh_later(state, caller, events);
        }
        match before {
            NextView::Run(PendingView::Asking(grant), _) => {
                lemma_granted_later(state, caller, ask, grant, events);
                if let EventView::Answered(answer) = event {
                    if denial(answer) is None {
                        assert(shows_consent(events[events.len() - 1]));
                        assert(user_consented(events));
                        lemma_fetching_accounted_for(
                            state,
                            request,
                            now,
                            events,
                            grant,
                            fetch_start(
                                state.config,
                                state.home@,
                                opt_text(state.user_home),
                                grant.plan,
                            ),
                        );
                    }
                }
            },
            NextView::Run(PendingView::Fetching(grant, phase), _) => {
                lemma_cleared_later(state, caller, ask, grant, events);
                if let EventView::Answered(answer) = event {
                    lemma_fetching_accounted_for(
                        state,
                        request,
                        now,
                        events,
                        grant,
                        fetch_answered(grant.plan, phase, answer),
                    );
                }
            },
            NextView::MakeDir(grant, job, _) => {
                lemma_cleared_later(state, caller, ask, grant, events);
                if let EventView::DirMade(made) = event {
                    lemma_fetching_accounted_for(
                        state,
                        request,
                        now,
                        events,
                        grant,
                        fetch_dir_made(grant.plan, job, made),
                    );
                }
            },
            NextView::LoadCatalog(wanted) => {
                if let EventView::CatalogLoaded(Ok(catalog)) = event {
                    if let Some(a) = wanted.ask {
                        if let Ok(grant) = grant_for(
                            state,
                            catalog.by_name(),
                            wanted.client,
                            wanted.client_id,
                            a,
                        ) {
                            assert(shows_grant(
                                state,
                                caller,
                                ask,
                                grant,
                                events[events.len() - 1],
                            ));
                            assert(was_granted(state, caller, ask, grant, events));
                            if !user_is_asked(
                                state.config,
                                wanted.client,
                                catalog.by_name()[a.secret_id],
                            ) {
                                assert(shows_no_question(
                                    state,
                                    caller,
                                    ask,
                                    events[events.len() - 1],
                                ));
                                lemma_fetching_accounted_for(
                                    state,
                                    request,
                                    now,
                                    events,
                                    grant,
                                    fetch_start(
                                        state.config,
                                        state.home@,
                                        opt_text(state.user_home),
                                        grant.plan,
                                    ),
                                );
                            }
                        }
                    }
                }
            },
            NextView::LoadNonces(c) => {
                if let EventView::NoncesLoaded(Ok(nonces), at) = event {
                    if !nonce_taken(
                        nonces,
                        nonce_key(c.client_id, c.nonce),
                        at as int,
                        state.nonces.ttl_seconds as int,
                    ) {
                        assert(shows_fresh_nonce(state, c, events[events.len() - 1]));
                    }
                }
            },
            NextView::SaveNonces(_, _) => {},
            NextView::Reply(answer) => {
                if answer.outcome is Ok {
                    match request.route {
                        Route::Catalog => {
                            let i = choose|i: int|
                                0 <= i < front.len() && (
                                #[trigger] front[i] matches EventView::CatalogLoaded(Ok(catalog))
                                    && answer.outcome == Ok::<JsonView, HttpErrorView>(
                                    catalog_shown(caller.client, catalog),
                                ));
                            assert(events[i] == front[i]);
                        },
                        Route::Secret => {
                            let grant = choose|grant: GrantView|
                                was_cleared(state, caller, ask, grant, front) && releases(
                                    grant,
                                    answer,
                                );
                            lemma_cleared_later(state, caller, ask, grant, events);
                        },
                    }
                }
            },
        }
    }
}

/// A secret is given out only to a client whose signature is good and whose
/// nonce is fresh, only as far as the catalog gives it to that client, and only
/// with the consent of the user where that is called for. What is given out is
/// the granted fields of one item, and it is logged.
pub proof fn law_secret_is_released_only_as_granted(
    state: AppState,
    request: RequestView,
    now: i64,
    events: Seq<EventView>,
)
    requires
        request.route == Route::Secret,
        exchange_reaches(state, request, now, events) matches NextView::Reply(answer)
            && answer.outcome is Ok,
    ensures
        sender(state, request, now) is Ok,
        nonce_was_fresh(state, sender(state, request, now)->Ok_0, events),
        ask_of(request.body) is Ok,
        request.body.len() <= state.config.server.max_body_bytes,
        exists|grant: GrantView|
            was_cleared(
                state,
                sender(state, request, now)->Ok_0,
                ask_of(request.body)->Ok_0,
                grant,
                events,
            ) && releases(grant, exchange_reaches(state, request, now, events)->Reply_0),
{
    lemma_accounted_for(state, request, now, events);
}

/// The catalog is shown only to a client whose signature is good and whose nonce
/// is fresh, and it sees of it what is meant for it.
pub proof fn law_catalog_is_shown_only_to_clients(
    state: AppState,
    request: RequestView,
    now: i64,
    events: Seq<EventView>,
)
    requires
        request.route == Route::Catalog,
        exchange_reaches(state, request, now, events) matches NextView::Reply(answer)
            && answer.outcome is Ok,
    ensures
        sender(state, request, now) is Ok,
        nonce_was_fresh(state, sender(state, request, now)->Ok_0, events),
        exists|i: int|
            0 <= i < events.len() && (#[trigger] events[i] matches EventView::CatalogLoaded(
                Ok(catalog),
            ) && exchange_reaches(state, request, now, events)->Reply_0.outcome == Ok::<
                JsonView,
                HttpErrorView,
            >(catalog_shown(sender(state, request, now)->Ok_0.client, catalog))),
{
    lemma_accounted_for(state, request, now, events);
}

/// The keychain and the vault are turned to only for a request that may have
/// what it asks for.
pub proof fn law_vault_is_opened_only_as_granted(
    state: AppState,
    request: RequestView,
    now: i64,
    events: Seq<EventView>,
    grant: GrantView,
)
    requires
        match exchange_reaches(state, request, now, events) {
            NextView::Run(PendingView::Fetching(g, _), _) => g == grant,
            NextView::MakeDir(g, _, _) => g == grant,
            _ => false,
        },
    ensures
        request.route == Route::Secret,
        sender(state, request, now) is Ok,
        nonce_was_fresh(state, sender(state, request, now)->Ok_0, events),
        ask_of(request.body) is Ok,
        was_cleared(
            state,
            sender(state, request, now)->Ok_0,
            ask_of(request.body)->Ok_0,
            grant,
            events,
        ),
{
    lemma_accounted_for(state, request, now, events);
}

/// The answers of calls, as events.
pub open spec fn answers(replies: Seq<ReplyView>) -> Seq<EventView> {
    replies.map_values(|r: ReplyView| EventView::Answered(r))
}

proof fn lemma_exchange_in_vault(
    state: AppState,
    request: RequestView,
    now: i64,
    before: Seq<EventView>,
    grant: GrantView,
    job: JobView,
    replies: Seq<ReplyView>,
)
    requires
        exchange_reaches(state, request, now, before) == exchange_fetching(
            grant,
            fetch_in_vault(grant.plan, job, vault_start(job)),
        ),
    ensures
        exchange_reaches(state, request, now, before + answers(replies)) == exchange_fetching(
            grant,
            fetch_in_vault(grant.plan, job, vault_reaches(job, vault_start(job), replies)),
        ),
    decreases replies.len(),
{
    let all = before + answers(replies);
    if replies.len() == 0 {
        assert(all =~= before);
    } else {
        let front = replies.drop_last();
        lemma_exchange_in_vault(state, request, now, before, grant, job, front);
        lemma_reaches_step(job, vault_start(job), replies);
        let event = EventView::Answered(replies.last());
        lemma_one_more(state, request, now, before + answers(front), event);
        assert(all =~= (before + answers(front)).push(event));
    }
}

/// The answer of the user, where there is one.
pub open spec fn consent_events(consent: Option<ReplyView>) -> Seq<EventView> {
    match consent {
        Some(answer) => seq![EventView::Answered(answer)],
        None => Seq::empty(),
    }
}

/// What happens outside up to the moment when a secret is fetched.
pub open spec fn events_before_fetch(
    nonces: Map<Seq<char>, i64>,
    at: i64,
    catalog: Catalog,
    consent: Option<ReplyView>,
) -> Seq<EventView> {
    seq![
        EventView::NoncesLoaded(Ok(nonces), at),
        EventView::NoncesSaved(Ok(())),
        EventView::CatalogLoaded(Ok(catalog)),
    ] + consent_events(consent)
}

/// What happens outside up to the moment when the vault program is first called.
pub open spec fn events_before_vault(
    nonces: Map<Seq<char>, i64>,
    at: i64,
    catalog: Catalog,
    consent: Option<ReplyView>,
    password: ReplyView,
) -> Seq<EventView> {
    events_before_fetch(nonces, at, catalog, consent) + seq![
        EventView::Answered(password),
        EventView::DirMade(Ok(())),
    ]
}

/// A client gets what it may have: where its signature is good and its nonce
/// fresh, the catalog gives it what it asks for, the user consents if asked, and
/// the keychain and the vault do their part, it is answered with the fields of
/// the item as the vault holds it.
pub proof fn law_granted_secret_is_released(
    state: AppState,
    request: RequestView,
    now: i64,
    nonces: Map<Seq<char>, i64>,
    at: i64,
    catalog: Catalog,
    consent: Option<ReplyView>,
    password: ReplyView,
    replies: Seq<ReplyView>,
    caller: CallerView,
    ask: AskView,
    grant: GrantView,
    item: JsonView,
)
    requires
        request.route == Route::Secret,
        request.body.len() <= state.config.server.max_body_bytes,
        sender(state, request, now) == Ok::<CallerView, HttpErrorView>(caller),
        !nonce_taken(
            nonces,
            nonce_key(caller.client_id, caller.nonce),
            at as int,
            state.nonces.ttl_seconds as int,
        ),
        ask_of(request.body) == Ok::<AskView, HttpErrorView>(ask),
        grant_for(state, catalog.by_name(), caller.client, caller.client_id, ask) == Ok::<
            GrantView,
            HttpErrorView,
        >(grant),
        match consent {
            Some(answer) => user_is_asked(
                state.config,
                caller.client,
                catalog.by_name()[ask.secret_id],
            ) && denial(answer) is None,
            None => !user_is_asked(
                state.config,
                caller.client,
                catalog.by_name()[ask.secret_id],
            ),
        },
        password_of(password) is Ok,
        vault_reaches(
            fetch_job(grant.plan, password_of(password)->Ok_0),
            vault_start(fetch_job(grant.plan, password_of(password)->Ok_0)),
            replies,
        ) == VaultNextView::Finished(Ok(DataView::Item(item))),
    ensures
        exchange_reaches(
            state,
            request,
            now,
            events_before_vault(nonces, at, catalog, consent, password) + answers(replies),
        ) == NextView::Reply(
            AnswerView {
                log: Some(grant_log("secret_released"@, grant, Some(grant.plan.fields))),
                outcome: Ok(released(grant, extracted(item, grant.plan.fields))),
            },
        ),
{
    let wanted = WantedView {
        client: caller.client,
        client_id: caller.client_id,
        ask: Some(ask),
    };
    let accepted = seq![EventView::NoncesLoaded(Ok(nonces), at), EventView::NoncesSaved(Ok(()))];
    lemma_accepted(state, request, now, nonces, at, caller, ask);
    let cleared = accepted.push(EventView::CatalogLoaded(Ok(catalog))) + consent_events(consent);
    lemma_cleared(state, request, now, accepted, wanted, catalog, consent, ask, grant);
    lemma_fetched(state, request, now, cleared, grant, password, replies, item);
    assert(cleared =~= events_before_fetch(nonces, at, catalog, consent));
}

proof fn lemma_fetched(
    state: AppState,
    request: RequestView,
    now: i64,
    cleared: Seq<EventView>,
    grant: GrantView,
    password: ReplyView,
    replies: Seq<ReplyView>,
    item: JsonView,
)
    requires
        exchange_reaches(state, request, now, cleared) == exchange_granted(state, grant),
        password_of(password) is Ok,
        vault_reaches(
            fetch_job(grant.plan, password_of(password)->Ok_0),
            vault_start(fetch_job(grant.plan, password_of(password)->Ok_0)),
            replies,
        ) == VaultNextView::Finished(Ok(DataView::Item(item))),
    ensures
        exchange_reaches(
            state,
            request,
            now,
            cleared + seq![EventView::Answered(password), EventView::DirMade(Ok(()))] + answers(
                replies,
            ),
        ) == NextView::Reply(
            AnswerView {
                log: Some(grant_log("secret_released"@, grant, Some(grant.plan.fields))),
                outcome: Ok(released(grant, extracted(item, grant.plan.fields))),
            },
        ),
{
    let unlocked = cleared.push(EventView::Answered(password));
    let ready = unlocked.push(EventView::DirMade(Ok(())));
    lemma_one_more(state, request, now, cleared, EventView::Answered(password));
    lemma_one_more(state, request, now, unlocked, EventView::DirMade(Ok(())));
    assert(ready =~= cleared + seq![EventView::Answered(password), EventView::DirMade(Ok(()))]);
    let job = fetch_job(grant.plan, password_of(password)->Ok_0);
    lemma_exchange_in_vault(state, request, now, ready, grant, job, replies);
}

proof fn lemma_cleared(
    state: AppState,
    request: RequestView,
    now: i64,
    accepted: Seq<EventView>,
    wanted: WantedView,
    catalog: Catalog,
    consent: Option<ReplyView>,
    ask: AskView,
    grant: GrantView,
)
    requires
        exchange_reaches(state, request, now, accepted) == NextView::LoadCatalog(wanted),
        wanted.ask == Some(ask),
        grant_for(state, catalog.by_name(), wanted.client, wanted.client_id, ask) == Ok::<
            GrantView,
            HttpErrorView,
        >(grant),
        match consent {
            Some(answer) => user_is_asked(
                state.config,
                wanted.client,
                catalog.by_name()[ask.secret_id],
            ) && denial(answer) is None,
            None => !user_is_asked(
                state.config,
                wanted.client,
                catalog.by_name()[ask.secret_id],
            ),
        },
    ensures
        exchange_reaches(
            state,
            request,
            now,
            accepted.push(EventView::CatalogLoaded(Ok(catalog))) + consent_events(consent),
        ) == exchange_granted(state, grant),
{
    let loaded = EventView::CatalogLoaded(Ok(catalog));
    let shown = accepted.push(loaded);
    lemma_one_more(state, request, now, accepted, loaded);
    assert(exchange_reaches(state, request, now, shown) == exchange_catalog(
        state,
        wanted,
        Ok(catalog),
    ));
    match consent {
        Some(answer) => {
            let event = EventView::Answered(answer);
            assert(exchange_reaches(state, request, now, shown) == NextView::Run(
                PendingView::Asking(grant),
                grant_dialog(state.config, grant),
            ));
            lemma_one_more(state, request, now, shown, event);
            assert(shown.push(event) =~= shown + consent_events(consent));
        },
        None => {
            assert(shown =~= shown + consent_events(consent));
        },
    }
}

proof fn lemma_one_more(
    state: AppState,
    request: RequestView,
    now: i64,
    events: Seq<EventView>,
    event: EventView,
)
    ensures
        exchange_reaches(state, request, now, events.push(event)) == exchange_step(
            state,
            request,
            exchange_reaches(state, request, now, events),
            event,
        ),
{
    reveal(exchange_reaches);
    assert(events.push(event).drop_last() =~= events);
}

proof fn lemma_accepted(
    state: AppState,
    request: RequestView,
    now: i64,
    nonces: Map<Seq<char>, i64>,
    at: i64,
    caller: CallerView,
    ask: AskView,
)
    requires
        request.route == Route::Secret,
        request.body.len() <= state.config.server.max_body_bytes,
        sender(state, request, now) == Ok::<CallerView, HttpErrorView>(caller),
        !nonce_taken(
            nonces,
            nonce_key(caller.client_id, caller.nonce),
            at as int,
            state.nonces.ttl_seconds as int,
        ),
        ask_of(request.body) == Ok::<AskView, HttpErrorView>(ask),
    ensures
        exchange_reaches(
            state,
            request,
            now,
            seq![EventView::NoncesLoaded(Ok(nonces), at), EventView::NoncesSaved(Ok(()))],
        ) == NextView::LoadCatalog(
            WantedView { client: caller.client, client_id: caller.client_id, ask: Some(ask) },
        ),
{
    lemma_two_steps(
        state,
        request,
        now,
        EventView::NoncesLoaded(Ok(nonces), at),
        EventView::NoncesSaved(Ok(())),
    );
}

/// A client with another degree of trust.
pub open spec fn with_trust(client: ClientView, approval: ClientApprovalMode) -> ClientView {
    ClientView { approval, ..client }
}

/// Trust spares the question to the user and nothing else: what a client may
/// have does not depend on it.
pub proof fn law_trust_spares_only_the_question(
    state: AppState,
    secrets: Map<Seq<char>, EntryView>,
    client: ClientView,
    client_id: Seq<char>,
    ask: AskView,
    approval: ClientApprovalMode,
)
    ensures
        grant_for(state, secrets, with_trust(client, approval), client_id, ask) == grant_for(
            state,
            secrets,
            client,
            client_id,
            ask,
        ),
        !user_is_asked(
            state.config,
            with_trust(client, ClientApprovalMode::Trusted),
            secrets[ask.secret_id],
        ),
        user_is_asked(
            state.config,
            with_trust(client, ClientApprovalMode::Prompt),
            secrets[ask.secret_id],
        ) == (secrets[ask.secret_id].approval_required && state.config.approval.confirm_dialog),
{
}

/// What is logged of a secret that was given out does not depend on what its
/// fields hold.
pub proof fn law_log_holds_no_secret_value(
    grant: GrantView,
    fields1: Map<Seq<char>, JsonView>,
    fields2: Map<Seq<char>, JsonView>,
)
    ensures
        exchange_fetching(grant, FetchNextView::Finished(Ok(fields1)))->Reply_0.log
            == exchange_fetching(grant, FetchNextView::Finished(Ok(fields2)))->Reply_0.log,
{
}

proof fn lemma_fields_on_offer(fields: Seq<JsonView>, allowed: Seq<Seq<char>>)
    requires
        fields_fault(fields, allowed) is None,
    ensures
        forall|i: int|
            0 <= i < fields.len() ==> allowed.contains(#[trigger] field_names(fields)[i]),
    decreases fields.len(),
{
    if fields.len() > 0 {
        let rest = fields.skip(1);
        lemma_fields_on_offer(rest, allowed);
        assert forall|i: int| 0 <= i < fields.len() implies allowed.contains(
            #[trigger] field_names(fields)[i],
        ) by {
            if i > 0 {
                assert(field_names(rest)[i - 1] == field_names(fields)[i]);
            }
        }
    }
}

/// A grant is for an entry that is open to the client and that the client may
/// ask for, and for no field that the entry does not offer.
pub proof fn law_grant_stays_within_permission(
    state: AppState,
    secrets: Map<Seq<char>, EntryView>,
    client: ClientView,
    client_id: Seq<char>,
    ask: AskView,
    grant: GrantView,
)
    requires
        grant_for(state, secrets, client, client_id, ask) == Ok::<GrantView, HttpErrorView>(grant),
    ensures
        secrets.contains_key(grant.secret_id),
        permitted(client, grant.secret_id, secrets[grant.secret_id]),
        grant.plan.item_id == secrets[grant.secret_id].item_id,
        forall|i: int|
            0 <= i < grant.plan.fields.len() ==> secrets[grant.secret_id].return_fields.contains(
                #[trigger] grant.plan.fields[i],
            ),
{
    let allowed = secrets[grant.secret_id].return_fields;
    if let Some(fields) = ask.fields {
        lemma_fields_on_offer(fields, allowed);
    } else {
        assert forall|i: int| 0 <= i < grant.plan.fields.len() implies allowed.contains(
            #[trigger] grant.plan.fields[i],
        ) by {
            assert(allowed[i] == grant.plan.fields[i]);
        }
    }
}

/// A request that is signed with the secret of a configured client and carries
/// the headers that signing gave comes from that client, as long as the clock is
/// within the allowed distance of the time of signing.
pub proof fn law_signed_request_has_its_sender(
    state: AppState,
    request: RequestView,
    client_id: Seq<char>,
    client: ClientConfig,
    nonce: Seq<char>,
    signed_at: i64,
    now: i64,
)
    requires
        client_named(state.config.signing.clients@, client_id) == Some(client),
        within_skew(
            now as int,
            signed_at as int,
            state.config.signing.max_skew_seconds as int,
        ),
        carries(
            request.lines,
            signed_headers_view(
                client_id,
                client.secret@,
                request.method(),
                request.target,
                request.signed_body(),
                nonce,
                signed_at as int,
            ),
        ),
    ensures
        sender(state, request, now) == Ok::<CallerView, HttpErrorView>(
            CallerView { client: client@, client_id, nonce },
        ),
{
    law_signed_request_is_accepted(
        client_id,
        client.secret@,
        request.method(),
        request.target,
        request.signed_body(),
        nonce,
        signed_at,
        request.lines,
        state.config.signing.max_skew_seconds,
        now,
    );
}

/// A request that was accepted is refused when it comes again, for as long as
/// its timestamp is good, where nonces live at least twice as long as clocks may
/// differ and no time passes between the check of a signature and that of its
/// nonce. Between the two any number of other nonces may have been presented.
pub proof fn law_replayed_request_is_refused(
    state: AppState,
    request: RequestView,
    first_at: i64,
    again_at: i64,
    nonces: Map<Seq<char>, i64>,
    between: Seq<(Seq<char>, i64)>,
    caller: CallerView,
)
    requires
        2 * state.config.signing.max_skew_seconds <= state.nonces.ttl_seconds,
        sender(state, request, first_at) == Ok::<CallerView, HttpErrorView>(caller),
        exchange_nonces(
            state.nonces.ttl_seconds as int,
            caller,
            Ok(nonces),
            first_at,
        ) is SaveNonces,
        forall|i: int| 0 <= i < between.len() ==> (#[trigger] between[i]).1 <= again_at,
    ensures
        match sender(state, request, again_at) {
            Err(_) => true,
            Ok(again) => exchange_nonces(
                state.nonces.ttl_seconds as int,
                again,
                Ok(
                    nonces_after_all(
                        exchange_nonces(
                            state.nonces.ttl_seconds as int,
                            caller,
                            Ok(nonces),
                            first_at,
                        )->SaveNonces_1,
                        between,
                        state.nonces.ttl_seconds as int,
                    ),
                ),
                again_at,
            ) == reply(Err(refusal(401, "replay detected for request nonce"@))),
        },
{
    if let Ok(again) = sender(state, request, again_at) {
        assert(again == caller);
        let timestamp = header_text(request.lines, HEADER_TIMESTAMP@)->Ok_0;
        law_signed_request_is_accepted_once(
            nonces,
            caller.client_id,
            caller.nonce,
            parsed_i64(timestamp)->0,
            first_at,
            between,
            again_at,
            state.config.signing.max_skew_seconds,
            state.nonces.ttl_seconds,
        );
    }
}

/// A request whose nonce was accepted is refused when it comes again while that
/// nonce lives, whenever its signature is checked. The clock is read anew for the
/// nonce of each request, and any number of other nonces may have been presented
/// between the two. If the signature is still good, it is the nonce that gives the
/// request away; if it is no longer, that is what the refusal says.
pub proof fn law_request_is_accepted_once(
    state: AppState,
    request: RequestView,
    first_checked_at: i64,
    first_nonce_at: i64,
    again_checked_at: i64,
    again_nonce_at: i64,
    nonces: Map<Seq<char>, i64>,
    between: Seq<(Seq<char>, i64)>,
)
    requires
        exchange_reaches(
            state,
            request,
            first_checked_at,
            seq![EventView::NoncesLoaded(Ok(nonces), first_nonce_at)],
        ) is SaveNonces,
        again_nonce_at <= first_nonce_at + state.nonces.ttl_seconds,
        forall|i: int|
            0 <= i < between.len() ==> (#[trigger] between[i]).1 <= first_nonce_at
                + state.nonces.ttl_seconds,
    ensures
        ({
            let first = exchange_reaches(
                state,
                request,
                first_checked_at,
                seq![EventView::NoncesLoaded(Ok(nonces), first_nonce_at)],
            );
            let later = nonces_after_all(
                first->SaveNonces_1,
                between,
                state.nonces.ttl_seconds as int,
            );
            let again = exchange_reaches(
                state,
                request,
                again_checked_at,
                seq![EventView::NoncesLoaded(Ok(later), again_nonce_at)],
            );
            match sender(state, request, again_checked_at) {
                Ok(_) => again == reply(Err(refusal(401, "replay detected for request nonce"@))),
                Err(e) => again == reply(Err(e)) && e.status == 401,
            }
        }),
{
    let ttl = state.nonces.ttl_seconds;
    lemma_one_step(
        state,
        request,
        first_checked_at,
        EventView::NoncesLoaded(Ok(nonces), first_nonce_at),
    );
    let caller = sender(state, request, first_checked_at)->Ok_0;
    let key = nonce_key(caller.client_id, caller.nonce);
    let later = nonces_after_all(
        nonces_after(nonces, key, first_nonce_at, ttl as int),
        between,
        ttl as int,
    );
    lemma_one_step(
        state,
        request,
        again_checked_at,
        EventView::NoncesLoaded(Ok(later), again_nonce_at),
    );
    law_nonce_is_accepted_once(nonces, key, first_nonce_at, between, again_nonce_at, ttl);
    if let Ok(again) = sender(state, request, again_checked_at) {
        assert(again == caller);
    }
}

proof fn lemma_one_step(state: AppState, request: RequestView, now: i64, event: EventView)
    ensures
        exchange_reaches(state, request, now, seq![event]) == exchange_step(
            state,
            request,
            exchange_start(state.config, request, now),
            event,
        ),
{
    let none = Seq::<EventView>::empty();
    lemma_reaches_start(state, request, now);
    lemma_one_more(state, request, now, none, event);
    assert(none.push(event) =~= seq![event]);
}

/// Whether an event is what is waited for.
pub open spec fn awaits(next: NextView, event: EventView) -> bool {
    match next {
        NextView::LoadNonces(_) => event is NoncesLoaded,
        NextView::SaveNonces(_, _) => event is NoncesSaved,
        NextView::LoadCatalog(_) => event is CatalogLoaded,
        NextView::Run(_, _) => event is Answered,
        NextView::MakeDir(_, _, _) => event is DirMade,
        NextView::Reply(_) => false,
    }
}

/// How many events answering a request may still take.
pub open spec fn events_left(next: NextView) -> nat {
    match next {
        NextView::Reply(_) => 0,
        NextView::Run(PendingView::Fetching(_, FetchPhaseView::Working { job, phase }), _) =>
        calls_left(vault_run(job, phase)),
        NextView::MakeDir(_, _, _) => 8,
        NextView::Run(PendingView::Fetching(_, FetchPhaseView::ReadingPassword), _) => 9,
        NextView::Run(PendingView::Asking(_), _) => 10,
        NextView::LoadCatalog(_) => 11,
        NextView::SaveNonces(_, _) => 12,
        NextView::LoadNonces(_) => 13,
    }
}

/// Every request is answered: each event that is waited for brings the answer
/// closer, whatever it is, and there are at most thirteen.
pub proof fn law_request_is_answered(
    state: AppState,
    request: RequestView,
    now: i64,
    next: NextView,
    event: EventView,
)
    requires
        awaits(next, event),
    ensures
        events_left(exchange_step(state, request, next, event)) < events_left(next),
        events_left(exchange_start(state.config, request, now)) <= 13,
{
}

/// Brokers that differ in how far they trust their clients at most.
pub open spec fn same_but_trust(a: AppState, b: AppState) -> bool {
    &&& a.home@ == b.home@
    &&& opt_text(a.user_home) == opt_text(b.user_home)
    &&& a.nonces.ttl_seconds == b.nonces.ttl_seconds
    &&& a.config.server == b.config.server
    &&& a.config.bitwarden == b.config.bitwarden
    &&& a.config.keychain == b.config.keychain
    &&& a.config.approval == b.config.approval
    &&& a.config.audit == b.config.audit
    &&& a.config.signing.max_skew_seconds == b.config.signing.max_skew_seconds
    &&& same_clients_but_trust(a.config.signing.clients@, b.config.signing.clients@)
}

/// Clients that differ in how far they are trusted at most.
pub open spec fn same_clients_but_trust(a: Seq<ClientConfig>, b: Seq<ClientConfig>) -> bool {
    &&& a.len() == b.len()
    &&& forall|i: int|
        0 <= i < a.len() ==> with_trust((#[trigger] a[i])@, b[i]@.approval) == b[i]@
}

/// The consent of the user, where it is what is waited for.
pub open spec fn consent_where_asked(next: NextView, answer: ReplyView) -> Seq<EventView> {
    if next is Run && next->Run_0 is Asking {
        seq![EventView::Answered(answer)]
    } else {
        Seq::empty()
    }
}

/// Stages of answering one request for a secret that differ in how far the
/// client is trusted at most.
spec fn stages_alike(a: NextView, b: NextView) -> bool {
    match (a, b) {
        (NextView::LoadNonces(x), NextView::LoadNonces(y)) => callers_alike(x, y),
        (NextView::SaveNonces(x, m), NextView::SaveNonces(y, n)) => callers_alike(x, y) && m == n,
        (NextView::LoadCatalog(x), NextView::LoadCatalog(y)) => {
            &&& with_trust(x.client, y.client.approval) == y.client
            &&& x.client_id == y.client_id
            &&& x.ask == y.ask
            &&& x.ask is Some
        },
        _ => a == b && a is Reply,
    }
}

spec fn callers_alike(a: CallerView, b: CallerView) -> bool {
    &&& with_trust(a.client, b.client.approval) == b.client
    &&& a.client_id == b.client_id
    &&& a.nonce == b.nonce
}

proof fn lemma_same_position(a: Seq<ClientConfig>, b: Seq<ClientConfig>, client_id: Seq<char>)
    requires
        same_clients_but_trust(a, b),
    ensures
        client_position(a, client_id) == client_position(b, client_id),
        0 <= client_position(a, client_id) <= a.len(),
    decreases a.len(),
{
    if a.len() > 0 {
        assert(with_trust(a[0]@, b[0]@.approval).id == a[0]@.id);
        let (x, y) = (a.drop_first(), b.drop_first());
        assert forall|i: int| 0 <= i < x.len() implies with_trust(
            (#[trigger] x[i])@,
            y[i]@.approval,
        ) == y[i]@ by {
            assert(x[i] == a[i + 1] && y[i] == b[i + 1]);
        }
        lemma_same_position(x, y, client_id);
    }
}

proof fn lemma_starts_alike(a: AppState, b: AppState, request: RequestView, now: i64)
    requires
        request.route == Route::Secret,
        same_but_trust(a, b),
    ensures
        stages_alike(
            exchange_start(a.config, request, now),
            exchange_start(b.config, request, now),
        ),
        exchange_start(a.config, request, now) is LoadNonces || exchange_start(
            a.config,
            request,
            now,
        ) is Reply,
{
    let clients = a.config.signing.clients@;
    let others = b.config.signing.clients@;
    if let Ok(client_id) = header_text(request.lines, HEADER_CLIENT@) {
        lemma_same_position(clients, others, client_id);
        let i = client_position(clients, client_id);
        if i < clients.len() {
            assert(with_trust(clients[i]@, others[i]@.approval) == others[i]@);
            assert(with_trust(clients[i]@, others[i]@.approval).secret == clients[i]@.secret);
        }
    }
}

proof fn lemma_step_ignores_trust(
    a: AppState,
    b: AppState,
    request: RequestView,
    next: NextView,
    event: EventView,
)
    requires
        same_but_trust(a, b),
    ensures
        exchange_step(a, request, next, event) == exchange_step(b, request, next, event),
{
}

proof fn lemma_rest_ignores_trust(
    a: AppState,
    b: AppState,
    request: RequestView,
    now: i64,
    before_a: Seq<EventView>,
    before_b: Seq<EventView>,
    rest: Seq<EventView>,
)
    requires
        same_but_trust(a, b),
        exchange_reaches(a, request, now, before_a) == exchange_reaches(b, request, now, before_b),
    ensures
        exchange_reaches(a, request, now, before_a + rest) == exchange_reaches(
            b,
            request,
            now,
            before_b + rest,
        ),
    decreases rest.len(),
{
    if rest.len() == 0 {
        assert(before_a + rest =~= before_a);
        assert(before_b + rest =~= before_b);
    } else {
        let front = rest.drop_last();
        lemma_rest_ignores_trust(a, b, request, now, before_a, before_b, front);
        lemma_one_more(a, request, now, before_a + front, rest.last());
        lemma_one_more(b, request, now, before_b + front, rest.last());
        assert(before_a + rest =~= (before_a + front).push(rest.last()));
        assert(before_b + rest =~= (before_b + front).push(rest.last()));
        let next = exchange_reaches(a, request, now, before_a + front);
        lemma_step_ignores_trust(a, b, request, next, rest.last());
    }
}

proof fn lemma_nonces_loaded_alike(
    a: AppState,
    b: AppState,
    request: RequestView,
    one: NextView,
    two: NextView,
    event: EventView,
)
    requires
        same_but_trust(a, b),
        stages_alike(one, two),
        one is LoadNonces || one is Reply,
        event is NoncesLoaded,
    ensures
        stages_alike(exchange_step(a, request, one, event), exchange_step(b, request, two, event)),
        exchange_step(a, request, one, event) is SaveNonces || exchange_step(
            a,
            request,
            one,
            event,
        ) is Reply,
{
}

proof fn lemma_nonces_saved_alike(
    a: AppState,
    b: AppState,
    request: RequestView,
    one: NextView,
    two: NextView,
    event: EventView,
)
    requires
        request.route == Route::Secret,
        stages_alike(one, two),
        one is SaveNonces || one is Reply,
        event is NoncesSaved,
    ensures
        stages_alike(exchange_step(a, request, one, event), exchange_step(b, request, two, event)),
        exchange_step(a, request, one, event) is LoadCatalog || exchange_step(
            a,
            request,
            one,
            event,
        ) is Reply,
{
}

proof fn lemma_reaches_start(state: AppState, request: RequestView, now: i64)
    ensures
        exchange_reaches(state, request, now, Seq::<EventView>::empty()) == exchange_start(
            state.config,
            request,
            now,
        ),
{
    reveal(exchange_reaches);
}

/// Where answering stands after two events.
proof fn lemma_two_steps(
    state: AppState,
    request: RequestView,
    now: i64,
    first: EventView,
    second: EventView,
)
    ensures
        exchange_reaches(state, request, now, seq![first, second]) == exchange_step(
            state,
            request,
            exchange_step(state, request, exchange_start(state.config, request, now), first),
            second,
        ),
{
    let none = Seq::<EventView>::empty();
    lemma_reaches_start(state, request, now);
    lemma_one_more(state, request, now, none, first);
    lemma_one_more(state, request, now, none.push(first), second);
    assert(none.push(first).push(second) =~= seq![first, second]);
}

#[verifier::spinoff_prover]
proof fn lemma_nonce_stages_alike(
    a: AppState,
    b: AppState,
    request: RequestView,
    now: i64,
    loaded: EventView,
    saved: EventView,
)
    requires
        request.route == Route::Secret,
        same_but_trust(a, b),
        loaded is NoncesLoaded,
        saved is NoncesSaved,
    ensures
        stages_alike(
            exchange_reaches(a, request, now, seq![loaded, saved]),
            exchange_reaches(b, request, now, seq![loaded, saved]),
        ),
        exchange_reaches(a, request, now, seq![loaded, saved]) is LoadCatalog || exchange_reaches(
            a,
            request,
            now,
            seq![loaded, saved],
        ) is Reply,
{
    let one = exchange_start(a.config, request, now);
    let two = exchange_start(b.config, request, now);
    lemma_starts_alike(a, b, request, now);
    lemma_nonces_loaded_alike(a, b, request, one, two, loaded);
    lemma_nonces_saved_alike(
        a,
        b,
        request,
        exchange_step(a, request, one, loaded),
        exchange_step(b, request, two, loaded),
        saved,
    );
    lemma_two_steps(a, request, now, loaded, saved);
    lemma_two_steps(b, request, now, loaded, saved);
}

/// The catalog leads two brokers that differ in trust to the same grant or the
/// same refusal, once the user consents where asked.
proof fn lemma_catalog_ignores_trust(
    a: AppState,
    b: AppState,
    request: RequestView,
    before_a: NextView,
    before_b: NextView,
    loaded: EventView,
    answer: ReplyView,
)
    requires
        same_but_trust(a, b),
        stages_alike(before_a, before_b),
        before_a is LoadCatalog || before_a is Reply,
        loaded is CatalogLoaded,
        denial(answer) is None,
    ensures
        ({
            let one = exchange_step(a, request, before_a, loaded);
            let two = exchange_step(b, request, before_b, loaded);
            let event = EventView::Answered(answer);
            let one_cleared = if one is Run && one->Run_0 is Asking {
                exchange_step(a, request, one, event)
            } else {
                one
            };
            let two_cleared = if two is Run && two->Run_0 is Asking {
                exchange_step(b, request, two, event)
            } else {
                two
            };
            one_cleared == two_cleared
        }),
{
    if let NextView::LoadCatalog(x) = before_a {
        let y = before_b->LoadCatalog_0;
        if let EventView::CatalogLoaded(Ok(catalog)) = loaded {
            law_trust_spares_only_the_question(
                a,
                catalog.by_name(),
                x.client,
                x.client_id,
                x.ask->0,
                y.client.approval,
            );
            assert(grant_for(a, catalog.by_name(), x.client, x.client_id, x.ask->0) == grant_for(
                b,
                catalog.by_name(),
                y.client,
                y.client_id,
                y.ask->0,
            ));
            if let Ok(grant) = grant_for(a, catalog.by_name(), x.client, x.client_id, x.ask->0) {
                assert(exchange_granted(a, grant) == exchange_granted(b, grant));
            }
        }
    }
}

/// How far a client is trusted makes no difference to the answer to its request
/// for a secret, nor to what is logged of it, but for the question to the user:
/// where the user consents when asked, everything else that happens being the
/// same, all is as it would be without the question.
pub proof fn law_trust_leaves_the_answer_alone(
    a: AppState,
    b: AppState,
    request: RequestView,
    now: i64,
    nonces: Result<Map<Seq<char>, i64>, Seq<char>>,
    at: i64,
    saved: Result<(), Seq<char>>,
    catalog: Result<Catalog, Seq<char>>,
    answer: ReplyView,
    rest: Seq<EventView>,
)
    requires
        request.route == Route::Secret,
        same_but_trust(a, b),
        denial(answer) is None,
    ensures
        ({
            let before = seq![
                EventView::NoncesLoaded(nonces, at),
                EventView::NoncesSaved(saved),
                EventView::CatalogLoaded(catalog),
            ];
            let one = exchange_reaches(a, request, now, before);
            let two = exchange_reaches(b, request, now, before);
            exchange_reaches(a, request, now, before + consent_where_asked(one, answer) + rest)
                == exchange_reaches(
                b,
                request,
                now,
                before + consent_where_asked(two, answer) + rest,
            )
        }),
{
    let (e1, e2, e3) = (
        EventView::NoncesLoaded(nonces, at),
        EventView::NoncesSaved(saved),
        EventView::CatalogLoaded(catalog),
    );
    let event = EventView::Answered(answer);
    let accepted = seq![e1, e2];
    let before = seq![e1, e2, e3];
    assert(before =~= accepted.push(e3));
    lemma_nonce_stages_alike(a, b, request, now, e1, e2);
    lemma_one_more(a, request, now, accepted, e3);
    lemma_one_more(b, request, now, accepted, e3);
    lemma_catalog_ignores_trust(
        a,
        b,
        request,
        exchange_reaches(a, request, now, accepted),
        exchange_reaches(b, request, now, accepted),
        e3,
        answer,
    );
    let one = exchange_reaches(a, request, now, before);
    let two = exchange_reaches(b, request, now, before);
    lemma_one_more(a, request, now, before, event);
    lemma_one_more(b, request, now, before, event);
    assert(before + seq![event] =~= before.push(event));
    assert(before + Seq::<EventView>::empty() =~= before);
    lemma_rest_ignores_trust(
        a,
        b,
        request,
        now,
        before + consent_where_asked(one, answer),
        before + consent_where_asked(two, answer),
        rest,
    );
}

/// What a grant is for is what was asked: same secret, same purpose, same run,
/// under the name of the sender, and the item of the entry. Where no fields were
/// named it covers every field of the entry; where some were, exactly these.
pub proof fn law_grant_covers_what_was_asked(
    state: AppState,
    secrets: Map<Seq<char>, EntryView>,
    client: ClientView,
    client_id: Seq<char>,
    ask: AskView,
)
    ensures
        ({
            let entry = secrets[ask.secret_id];
            match grant_for(state, secrets, client, client_id, ask) {
                Ok(grant) => {
                    &&& secrets.contains_key(ask.secret_id)
                    &&& grant.client_id == client_id
                    &&& grant.secret_id == ask.secret_id
                    &&& grant.purpose == ask.purpose
                    &&& grant.run_id == ask.run_id
                    &&& grant.ttl_seconds == entry.ttl_seconds
                    &&& grant.plan.item_id == entry.item_id
                    &&& grant.plan.sync == state.config.bitwarden.sync_before_read
                    &&& ask.fields is None ==> grant.plan.fields == entry.return_fields
                    &&& ask.fields is Some ==> grant.plan.fields.len() == ask.fields->0.len()
                        && forall|i: int|
                        0 <= i < ask.fields->0.len() ==> #[trigger] ask.fields->0[i]
                            == JsonView::Text(grant.plan.fields[i])
                },
                Err(e) => {
                    &&& e.status == 403 || e.status == 400
                    &&& entry_for(secrets, client, ask.secret_id) is Err ==> e == refusal(
                        403,
                        entry_for(secrets, client, ask.secret_id)->Err_0.message(),
                    )
                    &&& entry_for(secrets, client, ask.secret_id) is Ok ==> ask.fields is Some
                        && exists|i: int|
                        0 <= i < ask.fields->0.len() && first_fault(
                            ask.fields->0,
                            entry.return_fields,
                            i,
                        ) && fault_at(#[trigger] ask.fields->0[i], e)
                },
            }
        }),
        ask.fields is None && entry_for(secrets, client, ask.secret_id) is Ok ==> grant_for(
            state,
            secrets,
            client,
            client_id,
            ask,
        ) is Ok,
{
    law_fields_are_granted_as_asked(ask.fields, secrets[ask.secret_id].return_fields);
}

/// The reply to a granted request names the secret, says for how long its values
/// may be kept, and has the item's value for every field of the grant, and for
/// no other.
pub proof fn law_reply_holds_every_granted_field(
    grant: GrantView,
    item: JsonView,
    field: Seq<char>,
)
    ensures
        ({
            let sent = released(grant, extracted(item, grant.plan.fields));
            &&& sent.member("secret_id"@) == Some(JsonView::Text(grant.secret_id))
            &&& sent.member("ttl_seconds"@) == Some(number_view(grant.ttl_seconds))
            &&& sent.member("fields"@) is Some && sent.member("fields"@)->0 is Object
            &&& sent.member("fields"@)->0.member(field) == if grant.plan.fields.contains(field) {
                Some(field_value(item, field))
            } else {
                None
            }
        }),
{
    reveal_strlit("secret_id");
    reveal_strlit("fields");
    reveal_strlit("ttl_seconds");
    assert("secret_id"@.len() == 9 && "fields"@.len() == 6 && "ttl_seconds"@.len() == 11);
}

/// A client that asks for a secret without naming fields is sent every field
/// that its entry offers, with the item's value, and no other; one that names
/// fields is sent exactly these.
pub proof fn law_reply_has_what_was_asked(
    state: AppState,
    secrets: Map<Seq<char>, EntryView>,
    client: ClientView,
    client_id: Seq<char>,
    ask: AskView,
    item: JsonView,
    field: Seq<char>,
)
    requires
        grant_for(state, secrets, client, client_id, ask) is Ok,
    ensures
        ({
            let grant = grant_for(state, secrets, client, client_id, ask)->Ok_0;
            let sent = released(grant, extracted(item, grant.plan.fields)).member("fields"@)->0;
            let wanted = match ask.fields {
                None => exists|i: int|
                    0 <= i < secrets[ask.secret_id].return_fields.len() && #[trigger]
                        secrets[ask.secret_id].return_fields[i] == field,
                Some(list) => exists|i: int|
                    0 <= i < list.len() && #[trigger] list[i] == JsonView::Text(field),
            };
            &&& wanted ==> sent.member(field) == Some(field_value(item, field))
            &&& !wanted ==> sent.member(field) is None
        }),
{
    let grant = grant_for(state, secrets, client, client_id, ask)->Ok_0;
    law_grant_covers_what_was_asked(state, secrets, client, client_id, ask);
    law_reply_holds_every_granted_field(grant, item, field);
    if grant.plan.fields.contains(field) {
        let i = grant.plan.fields.index_of(field);
        assert(grant.plan.fields[i] == field);
        if let Some(list) = ask.fields {
            assert(list[i] == JsonView::Text(field));
        } else {
            assert(secrets[ask.secret_id].return_fields[i] == field);
        }
    }
    if let Some(list) = ask.fields {
        if exists|i: int| 0 <= i < list.len() && #[trigger] list[i] == JsonView::Text(field) {
            let i = choose|i: int|
                0 <= i < list.len() && #[trigger] list[i] == JsonView::Text(field);
            assert(list[i] == JsonView::Text(grant.plan.fields[i]));
            assert(grant.plan.fields[i] == field);
        }
    }
}

/// The user is asked exactly where the entry needs a confirmation, the client is
/// not trusted and the dialog is switched on. The dialog then shows the grant;
/// otherwise the password is read at once.
pub proof fn law_user_is_asked_where_owed(
    state: AppState,
    wanted: WantedView,
    ask: AskView,
    catalog: Catalog,
    grant: GrantView,
)
    requires
        wanted.ask == Some(ask),
        grant_for(state, catalog.by_name(), wanted.client, wanted.client_id, ask) == Ok::<
            GrantView,
            HttpErrorView,
        >(grant),
    ensures
        ({
            let next = exchange_catalog(state, wanted, Ok(catalog));
            let entry = catalog.by_name()[ask.secret_id];
            let owed = entry.approval_required && wanted.client.approval
                == ClientApprovalMode::Prompt && state.config.approval.confirm_dialog;
            &&& owed ==> (next matches NextView::Run(pending, call) && {
                &&& pending == PendingView::Asking(grant)
                &&& call.program == "osascript"@
                &&& call.args == seq![
                    "-e"@,
                    dialog_script(
                        dialog_message(wanted.client_id, ask.secret_id, ask.purpose, ask.run_id),
                        state.config.approval.dialog_timeout_seconds as nat,
                    ),
                ]
                &&& call.envs.len() == 0 && call.stdin is None
            })
            &&& !owed ==> (next matches NextView::Run(pending, call) && pending
                == PendingView::Fetching(grant, FetchPhaseView::ReadingPassword) && call
                == configured_process(
                state.config,
                state.home@,
                opt_text(state.user_home),
                "read"@,
                Some(grant.plan.reason),
                None,
            ))
        }),
{
}

/// Where the user denies, the request is refused as forbidden and logged as
/// denied; where the user allows, the password is read next.
pub proof fn law_denied_request_is_logged(state: AppState, grant: GrantView, answer: ReplyView)
    ensures
        ({
            let next = exchange_answered(state, PendingView::Asking(grant), answer);
            match denial(answer) {
                Some(e) => next matches NextView::Reply(r) && {
                    &&& r.outcome == Err::<JsonView, HttpErrorView>(
                        HttpErrorView { status: 403, message: e.message() },
                    )
                    &&& r.log is Some && r.log->0.event == "secret_denied"@
                    &&& r.log->0.fields == event_fields(
                        grant.client_id,
                        grant.secret_id,
                        grant.purpose,
                        grant.run_id,
                        None,
                    )
                },
                None => next matches NextView::Run(pending, _) && pending == PendingView::Fetching(
                    grant,
                    FetchPhaseView::ReadingPassword,
                ),
            }
        }),
{
}

/// A secret that was fetched is sent and logged with the names of its fields;
/// one that could not be fetched is refused in the words of the failure, and
/// nothing is logged.
pub proof fn law_fetched_secret_is_logged(
    grant: GrantView,
    fields: Map<Seq<char>, JsonView>,
    e: FetchErrorView,
)
    ensures
        exchange_fetching(grant, FetchNextView::Finished(Ok(fields))) matches NextView::Reply(r) && {
            &&& r.outcome == Ok::<JsonView, HttpErrorView>(released(grant, fields))
            &&& r.log is Some && r.log->0.event == "secret_released"@
            &&& r.log->0.fields == event_fields(
                grant.client_id,
                grant.secret_id,
                grant.purpose,
                grant.run_id,
                Some(grant.plan.fields),
            )
        },
        exchange_fetching(grant, FetchNextView::Finished(Err(e))) matches NextView::Reply(r) && {
            &&& r.outcome == Err::<JsonView, HttpErrorView>(
                HttpErrorView { status: 400, message: e.message() },
            )
            &&& r.log is None
        },
{
}

/// A request for a secret whose body is too long is refused before anything is
/// made of it. Of any other the sender is made out first, and then the nonces
/// are read; one without a sender is refused.
pub proof fn law_request_begins_with_its_sender(state: AppState, request: RequestView, now: i64)
    ensures
        ({
            let next = exchange_start(state.config, request, now);
            let too_long = request.route == Route::Secret && request.body.len()
                > state.config.server.max_body_bytes;
            &&& too_long ==> (next matches NextView::Reply(r) && r.log is None && r.outcome
                == Err::<JsonView, HttpErrorView>(
                HttpErrorView { status: 413, message: "request body too large"@ },
            ))
            &&& !too_long ==> match sender(state, request, now) {
                Ok(caller) => next == NextView::LoadNonces(caller),
                Err(e) => next matches NextView::Reply(r) && r.log is None && r.outcome == Err::<
                    JsonView,
                    HttpErrorView,
                >(e),
            }
        }),
{
}

/// A nonce that the sender has used is refused. One that it has not is written
/// down with the time, beside all that are still kept.
pub proof fn law_nonce_is_written_down(
    ttl_seconds: int,
    caller: CallerView,
    nonces: Map<Seq<char>, i64>,
    now: i64,
    text: Seq<char>,
    other: Seq<char>,
)
    ensures
        ({
            let key = caller.client_id + ":"@ + caller.nonce;
            let used = nonces.contains_key(key) && nonces[key] >= now - ttl_seconds;
            let next = exchange_nonces(ttl_seconds, caller, Ok(nonces), now);
            &&& used ==> (next matches NextView::Reply(r) && r.log is None && r.outcome == Err::<
                JsonView,
                HttpErrorView,
            >(HttpErrorView { status: 401, message: "replay detected for request nonce"@ }))
            &&& !used ==> (next matches NextView::SaveNonces(c, after) && {
                &&& c == caller
                &&& after.contains_key(key) && after[key] == now
                &&& other != key ==> (after.contains_key(other) <==> nonces.contains_key(other)
                    && nonces[other] >= now - ttl_seconds)
                &&& other != key && after.contains_key(other) ==> after[other] == nonces[other]
            })
            &&& exchange_nonces(ttl_seconds, caller, Err(text), now) matches NextView::Reply(r)
                && r.log is None && r.outcome == Err::<JsonView, HttpErrorView>(
                HttpErrorView { status: 401, message: text },
            )
        }),
{
}

/// Once its nonce is written down, a request leads to the catalog: with what it
/// asks for, where it is for a secret, and as its sender's in any case. One that
/// cannot be read is refused as it stands.
pub proof fn law_accepted_request_leads_to_the_catalog(
    request: RequestView,
    caller: CallerView,
    text: Seq<char>,
)
    ensures
        ({
            let next = exchange_saved(request, caller, Ok(()));
            &&& request.route == Route::Catalog ==> (next matches NextView::LoadCatalog(w)
                && w.client == caller.client && w.client_id == caller.client_id && w.ask is None)
            &&& request.route == Route::Secret ==> match ask_of(request.body) {
                Ok(ask) => next matches NextView::LoadCatalog(w) && w.client == caller.client
                    && w.client_id == caller.client_id && w.ask == Some(ask),
                Err(e) => next matches NextView::Reply(r) && r.log is None && r.outcome == Err::<
                    JsonView,
                    HttpErrorView,
                >(e),
            }
            &&& exchange_saved(request, caller, Err(text)) matches NextView::Reply(r) && r.log is None
                && r.outcome == Err::<JsonView, HttpErrorView>(
                HttpErrorView { status: 401, message: text },
            )
        }),
{
}

/// A request for the catalog is answered with what its sender may see of it; a
/// catalog that cannot be read is reported; a secret that is not granted is
/// refused as the grant was.
pub proof fn law_catalog_is_answered(
    state: AppState,
    wanted: WantedView,
    catalog: Catalog,
    text: Seq<char>,
)
    ensures
        wanted.ask is None ==> (exchange_catalog(state, wanted, Ok(catalog)) matches NextView::Reply(
            r,
        ) && r.log is None && r.outcome == Ok::<JsonView, HttpErrorView>(
            catalog_shown(wanted.client, catalog),
        )),
        exchange_catalog(state, wanted, Err(text)) matches NextView::Reply(r) && r.log is None
            && r.outcome == Err::<JsonView, HttpErrorView>(
            HttpErrorView { status: 400, message: text },
        ),
        wanted.ask is Some && grant_for(
            state,
            catalog.by_name(),
            wanted.client,
            wanted.client_id,
            wanted.ask->0,
        ) is Err ==> (exchange_catalog(state, wanted, Ok(catalog)) matches NextView::Reply(r)
            && r.log is None && r.outcome == Err::<JsonView, HttpErrorView>(
            grant_for(
                state,
                catalog.by_name(),
                wanted.client,
                wanted.client_id,
                wanted.ask->0,
            )->Err_0,
        )),
{
}

} // verus!
