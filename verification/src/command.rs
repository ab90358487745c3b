//! The commands that open the vault: logging in, and building the catalog.
use vstd::prelude::*;

use crate::bw::{
    cli_of, options_fault, BitwardenCli, BwErrorView, LoginOptions, OptionsView,
};
use crate::catalog::{build_catalog, catalog_of, Catalog, EntryView};
use crate::cli::{names_or_everything, or_everything};
use crate::config::{expanded_path, Config};
use crate::fetch::{FetchError, FetchErrorView};
use crate::json::{list_view, Json, JsonView};
use crate::keychain::{
    configured_process, has_master_password, password_of, read_exists, read_master_password,
    read_password,
};
use crate::process::{done_view, ProcessReply, ProcessSpec, ProcessView, ReplyView};
use crate::text::{clone_list, clone_option, opt_str, opt_text, texts};
use crate::vault::{
    law_listing_call_carries_each_id, vault_after, vault_process, vault_start, DataView, JobView,
    TaskView, VaultData, VaultJob, VaultNext, VaultNextView, VaultPhase, VaultPhaseView, VaultTask,
};

verus! {

/// How a login is asked for.
#[derive(Debug)]
pub struct LoginCommandOptions {
    pub ask_master_password: bool,
    pub login_options: LoginOptions,
}

/// How a catalog is asked for.
#[derive(Debug)]
pub struct BuildCatalogOptions {
    pub ask_master_password: bool,
    pub login_options: LoginOptions,
    pub allowed_client: Vec<String>,
    pub redact_names: bool,
    pub sync: bool,
    pub ttl_seconds: u64,
    pub collection_id: Option<String>,
    pub organization_id: Option<String>,
}

/// A command that opens the vault.
#[derive(Debug)]
pub enum VaultCommand {
    Login(LoginCommandOptions),
    BuildCatalog(BuildCatalogOptions),
}

/// A command that opens the vault, as mathematics.
pub enum CommandView {
    Login { ask: bool, options: OptionsView },
    BuildCatalog {
        ask: bool,
        options: OptionsView,
        allowed_clients: Seq<Seq<char>>,
        redact_names: bool,
        sync: bool,
        ttl_seconds: u64,
        collection_id: Option<Seq<char>>,
        organization_id: Option<Seq<char>>,
    },
}

impl View for VaultCommand {
    type V = CommandView;

    open spec fn view(&self) -> CommandView {
        match self {
            VaultCommand::Login(o) => CommandView::Login {
                ask: o.ask_master_password,
                options: o.login_options@,
            },
            VaultCommand::BuildCatalog(o) => CommandView::BuildCatalog {
                ask: o.ask_master_password,
                options: o.login_options@,
                allowed_clients: texts(o.allowed_client@),
                redact_names: o.redact_names,
                sync: o.sync,
                ttl_seconds: o.ttl_seconds,
                collection_id: opt_text(o.collection_id),
                organization_id: opt_text(o.organization_id),
            },
        }
    }
}

impl CommandView {
    /// Whether the master password is asked for at the terminal in any case.
    pub open spec fn asks(self) -> bool {
        match self {
            CommandView::Login { ask, .. } => ask,
            CommandView::BuildCatalog { ask, .. } => ask,
        }
    }

    pub open spec fn options(self) -> OptionsView {
        match self {
            CommandView::Login { options, .. } => options,
            CommandView::BuildCatalog { options, .. } => options,
        }
    }

    /// What the user is told when the master password is read.
    pub open spec fn reason(self) -> Seq<char> {
        match self {
            CommandView::Login { .. } =>
            "Unlock Vaultwarden agent account for first bw broker login"@,
            CommandView::BuildCatalog { .. } =>
            "Unlock Vaultwarden agent account to build bw broker catalog"@,
        }
    }

    /// What is wrong with the options, if anything, in the words of the command.
    pub open spec fn fault(self) -> Option<BwErrorView> {
        match self {
            CommandView::Login { options, .. } => options_fault(options, "--method"@, "--code"@),
            CommandView::BuildCatalog { options, .. } => options_fault(
                options,
                "--login-method"@,
                "--login-code"@,
            ),
        }
    }

    pub open spec fn syncs(self) -> bool {
        match self {
            CommandView::Login { .. } => false,
            CommandView::BuildCatalog { sync, .. } => sync,
        }
    }

    pub open spec fn task(self) -> TaskView {
        match self {
            CommandView::Login { .. } => TaskView::Login,
            CommandView::BuildCatalog { collection_id, organization_id, .. } => TaskView::List {
                collection_id,
                organization_id,
            },
        }
    }
}

/// What comes next in a command.
#[derive(Debug)]
pub enum CommandNext {
    /// Ask the keychain whether it has the master password.
    Check(ProcessSpec),
    /// Read the master password from the keychain.
    ReadPassword(ProcessSpec),
    /// Ask for the master password at the terminal.
    Prompt,
    /// See that the directory is there, and go on with the job.
    MakeDir(VaultJob, String),
    /// Make the call, and come back with what became of it.
    Run(VaultJob, VaultPhase, ProcessSpec),
    LoggedIn,
    /// Write the catalog.
    Built(Catalog),
    Failed(FetchError),
}

/// What comes next in a command, as mathematics.
pub enum CommandNextView {
    Check(ProcessView),
    ReadPassword(ProcessView),
    Prompt,
    MakeDir(JobView, Seq<char>),
    Run(JobView, VaultPhaseView, ProcessView),
    LoggedIn,
    Built(Map<Seq<char>, EntryView>),
    Failed(FetchErrorView),
}

impl View for CommandNext {
    type V = CommandNextView;

    open spec fn view(&self) -> CommandNextView {
        match self {
            CommandNext::Check(process) => CommandNextView::Check(process@),
            CommandNext::ReadPassword(process) => CommandNextView::ReadPassword(process@),
            CommandNext::Prompt => CommandNextView::Prompt,
            CommandNext::MakeDir(job, dir) => CommandNextView::MakeDir(job@, dir@),
            CommandNext::Run(job, phase, process) => CommandNextView::Run(
                job@,
                phase@,
                process@,
            ),
            CommandNext::LoggedIn => CommandNextView::LoggedIn,
            CommandNext::Built(catalog) => CommandNextView::Built(catalog.by_name()),
            CommandNext::Failed(e) => CommandNextView::Failed(e@),
        }
    }
}

/// How a command begins: nothing is run with options that do not fit together.
pub open spec fn command_start(
    config: Config,
    home: Seq<char>,
    user_home: Option<Seq<char>>,
    command: CommandView,
) -> CommandNextView {
    match command.fault() {
        Some(e) => CommandNextView::Failed(FetchErrorView::Vault(e)),
        None => if command.asks() {
            CommandNextView::Prompt
        } else {
            CommandNextView::Check(
                configured_process(config, home, user_home, "exists"@, None, None),
            )
        },
    }
}

/// How a command goes on once it is known whether the keychain has the master
/// password.
pub open spec fn command_checked(
    config: Config,
    home: Seq<char>,
    user_home: Option<Seq<char>>,
    command: CommandView,
    reply: ReplyView,
) -> CommandNextView {
    if reply matches ReplyView::Finished(output) && output.success {
        CommandNextView::ReadPassword(
            configured_process(config, home, user_home, "read"@, Some(command.reason()), None),
        )
    } else {
        CommandNextView::Prompt
    }
}

/// How a command goes on with the master password.
pub open spec fn command_unlocks(
    config: Config,
    home: Seq<char>,
    user_home: Option<Seq<char>>,
    command: CommandView,
    password: Seq<char>,
) -> CommandNextView {
    let cli = cli_of(config, home, user_home);
    CommandNextView::MakeDir(
        JobView {
            cli,
            password,
            options: command.options(),
            sync: command.syncs(),
            task: command.task(),
        },
        cli.appdata_dir,
    )
}

/// How a command goes on after the keychain was read.
pub open spec fn command_password(
    config: Config,
    home: Seq<char>,
    user_home: Option<Seq<char>>,
    command: CommandView,
    reply: ReplyView,
) -> CommandNextView {
    match password_of(reply) {
        Err(e) => CommandNextView::Failed(FetchErrorView::Keychain(e)),
        Ok(password) => command_unlocks(config, home, user_home, command, password),
    }
}

/// The items that a job brought home. A job that was not for items brings none.
pub open spec fn items_of(data: DataView) -> Seq<JsonView> {
    match data {
        DataView::Items(items) => items,
        _ => Seq::empty(),
    }
}

/// A command after a step in the vault.
pub open spec fn command_in_vault(
    command: CommandView,
    job: JobView,
    next: VaultNextView,
) -> CommandNextView {
    match next {
        VaultNextView::Run(phase, process) => CommandNextView::Run(job, phase, process),
        VaultNextView::Finished(Err(e)) => CommandNextView::Failed(FetchErrorView::Vault(e)),
        VaultNextView::Finished(Ok(data)) => match command {
            CommandView::Login { .. } => CommandNextView::LoggedIn,
            CommandView::BuildCatalog { allowed_clients, redact_names, ttl_seconds, .. } =>
            CommandNextView::Built(
                catalog_of(
                    items_of(data),
                    or_everything(allowed_clients),
                    redact_names,
                    ttl_seconds,
                ),
            ),
        },
    }
}

/// How a command goes on after the directory was to be made.
pub open spec fn command_dir_made(
    command: CommandView,
    job: JobView,
    made: Result<(), Seq<char>>,
) -> CommandNextView {
    match made {
        Err(text) => CommandNextView::Failed(FetchErrorView::NoProfile(text)),
        Ok(()) => command_in_vault(command, job, vault_start(job)),
    }
}

impl VaultCommand {
    fn login_options(&self) -> (r: &LoginOptions)
        ensures
            r@ == self@.options(),
    {
        match self {
            VaultCommand::Login(o) => &o.login_options,
            VaultCommand::BuildCatalog(o) => &o.login_options,
        }
    }

    /// Begins the command.
    pub fn start(&self, config: &Config, home: &str, user_home: Option<&str>) -> (r: CommandNext)
        ensures
            r@ == command_start(*config, home@, opt_str(user_home), self@),
    {
        let (valid, ask) = match self {
            VaultCommand::Login(o) => (
                o.login_options.validate_with_names("--method", "--code"),
                o.ask_master_password,
            ),
            VaultCommand::BuildCatalog(o) => (
                o.login_options.validate_with_names("--login-method", "--login-code"),
                o.ask_master_password,
            ),
        };
        match valid {
            Err(e) => CommandNext::Failed(FetchError::Vault(e)),
            Ok(()) => if ask {
                CommandNext::Prompt
            } else {
                CommandNext::Check(has_master_password(config, home, user_home))
            },
        }
    }

    /// Goes on after the keychain was asked whether it has the master password.
    pub fn read_or_prompt_master_password(
        &self,
        config: &Config,
        home: &str,
        user_home: Option<&str>,
        reply: ProcessReply,
    ) -> (r: CommandNext)
        ensures
            r@ == command_checked(*config, home@, opt_str(user_home), self@, reply@),
    {
        if read_exists(&reply) {
            let reason = match self {
                VaultCommand::Login(_) =>
                "Unlock Vaultwarden agent account for first bw broker login",
                VaultCommand::BuildCatalog(_) =>
                "Unlock Vaultwarden agent account to build bw broker catalog",
            };
            CommandNext::ReadPassword(read_master_password(config, home, user_home, reason))
        } else {
            CommandNext::Prompt
        }
    }

    /// Goes on with the master password as it was typed.
    pub fn password_typed(
        &self,
        config: &Config,
        home: &str,
        user_home: Option<&str>,
        master_password: String,
    ) -> (r: CommandNext)
        ensures
            r@ == command_unlocks(
                *config,
                home@,
                opt_str(user_home),
                self@,
                master_password@,
            ),
    {
        let cli = BitwardenCli::new(config, home, user_home);
        let dir = cli.appdata_dir.clone();
        let (sync, task) = match self {
            VaultCommand::Login(_) => (false, VaultTask::Login),
            VaultCommand::BuildCatalog(o) => (
                o.sync,
                VaultTask::List {
                    collection_id: clone_option(&o.collection_id),
                    organization_id: clone_option(&o.organization_id),
                },
            ),
        };
        let login_options = self.login_options().clone();
        CommandNext::MakeDir(VaultJob { cli, master_password, login_options, sync, task }, dir)
    }

    /// Goes on after the keychain was read.
    pub fn password_read(
        &self,
        config: &Config,
        home: &str,
        user_home: Option<&str>,
        reply: ProcessReply,
    ) -> (r: CommandNext)
        ensures
            r@ == command_password(*config, home@, opt_str(user_home), self@, reply@),
    {
        match read_password(reply) {
            Err(e) => CommandNext::Failed(FetchError::Keychain(e)),
            Ok(password) => self.password_typed(config, home, user_home, password),
        }
    }

    fn in_vault(&self, job: VaultJob, next: VaultNext) -> (r: CommandNext)
        ensures
            r@ == command_in_vault(self@, job@, next@),
            r matches CommandNext::Built(catalog) ==> catalog.version == 1
                && catalog.secrets.sorted(),
    {
        match next {
            VaultNext::Run(phase, process) => CommandNext::Run(job, phase, process),
            VaultNext::Finished(Err(e)) => CommandNext::Failed(FetchError::Vault(e)),
            VaultNext::Finished(Ok(data)) => match self {
                VaultCommand::Login(_) => CommandNext::LoggedIn,
                VaultCommand::BuildCatalog(o) => {
                    let items: Vec<Json> = match data {
                        VaultData::Items(items) => items,
                        _ => Vec::new(),
                    };
                    assert(list_view(items@) =~= items_of(data@));
                    let clients = names_or_everything(clone_list(&o.allowed_client));
                    CommandNext::Built(
                        build_catalog(&items, clients, o.redact_names, o.ttl_seconds),
                    )
                },
            },
        }
    }

    /// Goes on after the directory was to be made.
    pub fn dir_made(&self, job: VaultJob, made: Result<(), String>) -> (r: CommandNext)
        ensures
            r@ == command_dir_made(self@, job@, done_view(made)),
            r matches CommandNext::Built(catalog) ==> catalog.version == 1
                && catalog.secrets.sorted(),
    {
        match made {
            Err(text) => CommandNext::Failed(FetchError::NoProfile(text)),
            Ok(()) => {
                let next = job.start();
                self.in_vault(job, next)
            },
        }
    }

    /// Goes on after a call.
    pub fn answered(&self, job: VaultJob, phase: VaultPhase, reply: ProcessReply) -> (r: CommandNext)
        ensures
            r@ == command_in_vault(self@, job@, vault_after(job@, phase@, reply@)),
            r matches CommandNext::Built(catalog) ==> catalog.version == 1
                && catalog.secrets.sorted(),
    {
        let next = job.step(phase, reply);
        self.in_vault(job, next)
    }
}

/// A command with half of a second step runs nothing at all.
pub proof fn law_half_a_second_step_is_refused(
    config: Config,
    home: Seq<char>,
    user_home: Option<Seq<char>>,
    command: CommandView,
)
    ensures
        command_start(config, home, user_home, command) is Failed <==> (command.options().method
            is Some) != (command.options().code is Some),
{
}

/// A login opens the vault and does no more. Building a catalog lists the items
/// under each id that was given, after a synchronisation where one was asked
/// for. Both hand over the second step that was given, and nothing else.
pub proof fn law_command_opens_the_vault_as_asked(
    config: Config,
    home: Seq<char>,
    user_home: Option<Seq<char>>,
    command: CommandView,
    password: Seq<char>,
)
    ensures
        command_unlocks(config, home, user_home, command, password) matches CommandNextView::MakeDir(
            job,
            dir,
        ) && {
            &&& job.password == password
            &&& job.cli == cli_of(config, home, user_home)
            &&& dir == expanded_path(config.bitwarden.appdata_dir@, home, user_home)
            &&& command matches CommandView::Login { options, .. } ==> job.options == options
                && !job.sync && job.task is Login
            &&& command matches CommandView::BuildCatalog {
                options,
                sync,
                collection_id,
                organization_id,
                ..
            } ==> job.options == options && job.sync == sync && job.task == (TaskView::List {
                collection_id,
                organization_id,
            })
        },
{
}

/// The call with which a catalog's items are listed names each id that the
/// command was given directly behind its switch, whether it was given the other
/// or not.
pub proof fn law_catalog_is_built_from_what_was_asked(
    config: Config,
    home: Seq<char>,
    user_home: Option<Seq<char>>,
    command: CommandView,
    password: Seq<char>,
    session: Seq<char>,
)
    requires
        command is BuildCatalog,
    ensures
        ({
            let job = command_unlocks(
                config,
                home,
                user_home,
                command,
                password,
            )->MakeDir_0;
            let words = vault_process(job, VaultPhaseView::Working { session }).args;
            &&& command->collection_id is Some ==> exists|i: int|
                5 <= i < words.len() - 1 && #[trigger] words[i] == "--collectionid"@ && words[i + 1]
                    == command->collection_id->0
            &&& command->organization_id is Some ==> exists|i: int|
                5 <= i < words.len() - 1 && #[trigger] words[i] == "--organizationid"@ && words[i
                    + 1] == command->organization_id->0
        }),
{
    let job = command_unlocks(config, home, user_home, command, password)->MakeDir_0;
    law_listing_call_carries_each_id(job, session);
}

/// The password is asked for at the terminal where the user wants that, or where
/// the keychain has none; else it is read from the keychain, and the user is
/// told what for.
pub proof fn law_password_is_asked_or_read(
    config: Config,
    home: Seq<char>,
    user_home: Option<Seq<char>>,
    command: CommandView,
    answer: ReplyView,
)
    ensures
        ({
            let start = command_start(config, home, user_home, command);
            let checked = command_checked(config, home, user_home, command, answer);
            let options = match command {
                CommandView::Login { options, .. } => options,
                CommandView::BuildCatalog { options, .. } => options,
            };
            let whole = options.method is Some <==> options.code is Some;
            let ask = match command {
                CommandView::Login { ask, .. } => ask,
                CommandView::BuildCatalog { ask, .. } => ask,
            };
            let reason = match command {
                CommandView::Login { .. } =>
                "Unlock Vaultwarden agent account for first bw broker login"@,
                CommandView::BuildCatalog { .. } =>
                "Unlock Vaultwarden agent account to build bw broker catalog"@,
            };
            let (method_arg, code_arg) = match command {
                CommandView::Login { .. } => ("--method"@, "--code"@),
                CommandView::BuildCatalog { .. } => ("--login-method"@, "--login-code"@),
            };
            &&& !whole && options.method is Some ==> (start matches CommandNextView::Failed(e)
                && e.message() == method_arg + " requires "@ + code_arg)
            &&& !whole && options.method is None ==> (start matches CommandNextView::Failed(e)
                && e.message() == code_arg + " requires "@ + method_arg)
            &&& whole && ask ==> start == CommandNextView::Prompt
            &&& whole && !ask ==> start == CommandNextView::Check(
                configured_process(config, home, user_home, "exists"@, None, None),
            )
            &&& answer is Finished && answer->Finished_0.success ==> checked
                == CommandNextView::ReadPassword(
                configured_process(config, home, user_home, "read"@, Some(reason), None),
            )
            &&& !(answer is Finished && answer->Finished_0.success) ==> checked
                == CommandNextView::Prompt
        }),
{
}

/// A password that was read opens the vault just as one that was typed does; one
/// that could not be read ends the command in the words of the failure.
pub proof fn law_read_password_opens_like_a_typed_one(
    config: Config,
    home: Seq<char>,
    user_home: Option<Seq<char>>,
    command: CommandView,
    answer: ReplyView,
)
    ensures
        match password_of(answer) {
            Ok(password) => command_password(config, home, user_home, command, answer)
                == command_unlocks(config, home, user_home, command, password),
            Err(e) => command_password(config, home, user_home, command, answer) matches
                CommandNextView::Failed(f) && f.message() == e.message() && f.full_message()
                == e.full_message(),
        },
{
}

/// A command ends as its job does: with a login, with the catalog of the items
/// that were listed, for the clients that were named or else for all, or with
/// the failure.
pub proof fn law_command_ends_as_its_job(
    command: CommandView,
    job: JobView,
    items: Seq<JsonView>,
    e: BwErrorView,
    text: Seq<char>,
)
    ensures
        command is Login ==> command_in_vault(
            command,
            job,
            VaultNextView::Finished(Ok(DataView::LoggedIn)),
        ) == CommandNextView::LoggedIn,
        command matches CommandView::BuildCatalog {
            allowed_clients,
            redact_names,
            ttl_seconds,
            ..
        } ==> command_in_vault(command, job, VaultNextView::Finished(Ok(DataView::Items(items))))
            == CommandNextView::Built(
            catalog_of(
                items,
                if allowed_clients.len() == 0 {
                    seq!["*"@]
                } else {
                    allowed_clients
                },
                redact_names,
                ttl_seconds,
            ),
        ),
        command_in_vault(command, job, VaultNextView::Finished(Err(e))) matches
            CommandNextView::Failed(f) && f.message() == e.message() && f.full_message()
            == e.full_message(),
        command_dir_made(command, job, Err(text)) matches CommandNextView::Failed(f) && f.message()
            == text,
        command_dir_made(command, job, Ok(())) == command_in_vault(command, job, vault_start(job)),
        forall|phase: VaultPhaseView, call: ProcessView| #[trigger]
            command_in_vault(command, job, VaultNextView::Run(phase, call))
                == CommandNextView::Run(job, phase, call),
{
}

} // verus!
