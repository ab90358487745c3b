//! The broker's configuration.
use vstd::prelude::*;

use crate::primitives::{base64_text, random_token};
use crate::text::{
    clone_list, decimal, decimal_text, has_prefix, opt_str, opt_text, strip_prefix, texts,
};

verus! {

#[derive(Debug)]
pub struct Config {
    pub server: ServerConfig,
    pub bitwarden: BitwardenConfig,
    pub keychain: KeychainConfig,
    pub approval: ApprovalConfig,
    pub audit: AuditConfig,
    pub signing: SigningConfig,
}

#[derive(Debug)]
pub struct ServerConfig {
    pub host: String,
    pub port: u16,
    pub public_url: String,
    pub tls_cert: String,
    pub tls_key: String,
    pub max_body_bytes: usize,
}

#[derive(Debug)]
pub struct BitwardenConfig {
    pub bw_path: String,
    pub server_url: String,
    pub email: String,
    pub appdata_dir: String,
    pub sync_before_read: bool,
}

#[derive(Debug)]
pub struct KeychainConfig {
    pub service: String,
    pub account: String,
    pub helper_path: String,
}

#[derive(Debug)]
pub struct ApprovalConfig {
    pub confirm_dialog: bool,
    pub dialog_timeout_seconds: u64,
}

#[derive(Debug)]
pub struct AuditConfig {
    pub enabled: bool,
    pub path: String,
}

#[derive(Debug)]
pub struct SigningConfig {
    pub max_skew_seconds: i64,
    pub nonce_ttl_seconds: i64,
    pub clients: Vec<ClientConfig>,
}

/// A remote agent: its id, its signing secret, whether its requests are
/// confirmed one by one, and the secrets that it may ask for.
#[derive(Debug)]
pub struct ClientConfig {
    pub id: String,
    pub secret: String,
    pub approval: ClientApprovalMode,
    pub allowed_secrets: Vec<String>,
}

/// A remote agent, as mathematics.
pub struct ClientView {
    pub id: Seq<char>,
    pub secret: Seq<char>,
    pub approval: ClientApprovalMode,
    pub allowed_secrets: Seq<Seq<char>>,
}

impl View for ClientConfig {
    type V = ClientView;

    open spec fn view(&self) -> ClientView {
        ClientView {
            id: self.id@,
            secret: self.secret@,
            approval: self.approval,
            allowed_secrets: texts(self.allowed_secrets@),
        }
    }
}

impl Clone for ClientConfig {
    fn clone(&self) -> (r: ClientConfig)
        ensures
            r@ == self@,
    {
        ClientConfig {
            id: self.id.clone(),
            secret: self.secret.clone(),
            approval: self.approval,
            allowed_secrets: clone_list(&self.allowed_secrets),
        }
    }
}

/// Whether the requests of a client are confirmed one by one.
#[derive(Clone, Copy, Debug, PartialEq, Eq, Structural)]
pub enum ClientApprovalMode {
    Prompt,
    Trusted,
}

impl Default for ClientApprovalMode {
    fn default() -> (r: ClientApprovalMode)
        ensures
            r == ClientApprovalMode::Prompt,
    {
        ClientApprovalMode::Prompt
    }
}

impl ClientApprovalMode {
    pub fn is_trusted(&self) -> (r: bool)
        ensures
            r == (*self == ClientApprovalMode::Trusted),
    {
        matches!(self, ClientApprovalMode::Trusted)
    }
}

/// What a switch is set to that a configuration file leaves out.
pub fn default_true() -> (r: bool)
    ensures
        r,
{
    true
}

pub fn default_dialog_timeout() -> (r: u64)
    ensures
        r == 120,
{
    120
}

pub fn default_max_skew() -> (r: i64)
    ensures
        r == 300,
{
    300
}

/// Long enough for nonces to outlive every timestamp that is still good.
pub fn default_nonce_ttl() -> (r: i64)
    ensures
        r == 600,
{
    600
}

pub fn default_max_body_bytes() -> (r: usize)
    ensures
        r == 65_536,
{
    65_536
}

/// A path below a directory: a path that starts at the root stands for itself,
/// and a separator is put between the two where the directory does not end in
/// one.
pub open spec fn path_below(dir: Seq<char>, path: Seq<char>) -> Seq<char> {
    if path.len() > 0 && path[0] == '/' {
        path
    } else if dir.len() == 0 || dir.last() == '/' {
        dir + path
    } else {
        dir + seq!['/'] + path
    }
}

/// Puts a path below a directory.
pub fn join_path(dir: &str, path: &str) -> (r: String)
    ensures
        r@ == path_below(dir@, path@),
{
    let dir_chars = crate::text::chars_of(dir);
    let path_chars = crate::text::chars_of(path);
    if path_chars.len() > 0 && path_chars[0] == '/' {
        return path.to_string();
    }
    let mut out = dir.to_string();
    if dir_chars.len() > 0 && dir_chars[dir_chars.len() - 1] != '/' {
        out.push('/');
        assert(out@ =~= dir@ + seq!['/']);
    }
    out.append(path);
    out
}

/// A configured path: `$BW_BROKER_HOME` in front stands for the broker's
/// directory, and `~` for the user's where that is known.
pub open spec fn expanded_path(
    value: Seq<char>,
    home: Seq<char>,
    user_home: Option<Seq<char>>,
) -> Seq<char> {
    if has_prefix(value, "$BW_BROKER_HOME/"@) {
        path_below(home, value.skip("$BW_BROKER_HOME/"@.len() as int))
    } else if value == "$BW_BROKER_HOME"@ {
        home
    } else if has_prefix(value, "~/"@) && user_home is Some {
        path_below(user_home->0, value.skip("~/"@.len() as int))
    } else {
        value
    }
}

/// Resolves a configured path.
pub fn expand_path(value: &str, home: &str, user_home: Option<&str>) -> (r: String)
    ensures
        r@ == expanded_path(value@, home@, opt_str(user_home)),
{
    if let Some(rest) = strip_prefix(value, "$BW_BROKER_HOME/") {
        return join_path(home, rest.as_str());
    }
    if *value == *"$BW_BROKER_HOME" {
        return home.to_string();
    }
    if let Some(rest) = strip_prefix(value, "~/") {
        if let Some(user_home) = user_home {
            return join_path(user_home, rest.as_str());
        }
    }
    value.to_string()
}

/// The broker's directory where none is given: what the environment says it is,
/// or one in the user's.
pub open spec fn home_of(broker_home: Option<Seq<char>>, user_home: Option<Seq<char>>) -> Option<
    Seq<char>,
> {
    match (broker_home, user_home) {
        (Some(home), _) => Some(home),
        (None, Some(user)) => Some(path_below(user, ".bw-broker"@)),
        (None, None) => None,
    }
}

/// The broker's directory where none is given, from `BW_BROKER_HOME` and `HOME`.
pub fn default_home(broker_home: Option<&str>, user_home: Option<&str>) -> (r: Option<String>)
    ensures
        opt_text(r) == home_of(opt_str(broker_home), opt_str(user_home)),
{
    match (broker_home, user_home) {
        (Some(home), _) => Some(home.to_string()),
        (None, Some(user)) => Some(join_path(user, ".bw-broker")),
        (None, None) => None,
    }
}

pub fn config_path(home: &str) -> (r: String)
    ensures
        r@ == path_below(home@, "config.json"@),
{
    join_path(home, "config.json")
}

pub fn catalog_path(home: &str) -> (r: String)
    ensures
        r@ == path_below(home@, "catalog.json"@),
{
    join_path(home, "catalog.json")
}

pub fn nonce_path(home: &str) -> (r: String)
    ensures
        r@ == path_below(home@, "nonces.json"@),
{
    join_path(home, "nonces.json")
}

/// Random text for a client to sign with: 32 random bytes.
pub fn generate_client_secret() -> (r: String)
    ensures
        r@.len() == 43,
        exists|raw: Seq<u8>| raw.len() == 32 && r@ == #[trigger] base64_text(raw),
{
    random_token(32)
}

/// The list with the one text `*`, which stands for everything.
pub fn everything() -> (r: Vec<String>)
    ensures
        texts(r@) == seq!["*"@],
{
    let mut list: Vec<String> = Vec::new();
    list.push("*".to_string());
    assert(texts(list@) =~= seq!["*"@]);
    list
}

/// The address that is made of a host and a port.
pub open spec fn https_url(host: Seq<char>, port: u16) -> Seq<char> {
    "https://"@ + host + ":"@ + decimal(port as nat)
}

/// Whether a configuration is the initial one for the given answers.
pub open spec fn is_default_config(
    config: Config,
    email: Seq<char>,
    server_url: Seq<char>,
    client_id: Seq<char>,
    client_secret: Seq<char>,
    host: Seq<char>,
    port: u16,
    public_url: Option<Seq<char>>,
) -> bool {
    &&& config.server.host@ == host
    &&& config.server.port == port
    &&& config.server.public_url@ == match public_url {
        Some(url) => url,
        None => https_url(host, port),
    }
    &&& config.server.tls_cert@ == "$BW_BROKER_HOME/tls/server.crt"@
    &&& config.server.tls_key@ == "$BW_BROKER_HOME/tls/server.key"@
    &&& config.server.max_body_bytes == 65_536
    &&& config.bitwarden.bw_path@ == "bw"@
    &&& config.bitwarden.server_url@ == server_url
    &&& config.bitwarden.email@ == email
    &&& config.bitwarden.appdata_dir@ == "$BW_BROKER_HOME/bw-cli"@
    &&& !config.bitwarden.sync_before_read
    &&& config.keychain.service@ == "bw-touchid-broker.master-password"@
    &&& config.keychain.account@ == if email.len() == 0 {
        "ai-agent@example.com"@
    } else {
        email
    }
    &&& config.keychain.helper_path@ == "$BW_BROKER_HOME/bin/bw-broker-keychain"@
    &&& config.approval.confirm_dialog
    &&& config.approval.dialog_timeout_seconds == 120
    &&& config.audit.enabled
    &&& config.audit.path@ == "$BW_BROKER_HOME/audit.log"@
    &&& config.signing.max_skew_seconds == 300
    &&& config.signing.nonce_ttl_seconds == 600
    &&& config.signing.clients@.len() == 1
    &&& config.signing.clients@[0]@ == ClientView {
        id: client_id,
        secret: client_secret,
        approval: ClientApprovalMode::Prompt,
        allowed_secrets: seq!["*"@],
    }
}

/// The initial configuration, with a given secret for its one client.
pub fn default_config_with_secret(
    email: String,
    server_url: String,
    client_id: String,
    client_secret: String,
    host: String,
    port: u16,
    public_url: Option<String>,
) -> (r: Config)
    ensures
        is_default_config(
            r,
            email@,
            server_url@,
            client_id@,
            client_secret@,
            host@,
            port,
            crate::text::opt_text(public_url),
        ),
{
    let account = if email.as_str().is_empty() {
        "ai-agent@example.com".to_string()
    } else {
        email.clone()
    };
    let public_url = match public_url {
        Some(url) => url,
        None => {
            let mut url = "https://".to_string();
            url.append(host.as_str());
            url.append(":");
            url.append(decimal_text(port as u64).as_str());
            url
        },
    };
    let mut clients: Vec<ClientConfig> = Vec::new();
    clients.push(
        ClientConfig {
            id: client_id,
            secret: client_secret,
            approval: ClientApprovalMode::Prompt,
            allowed_secrets: everything(),
        },
    );
    Config {
        server: ServerConfig {
            host,
            port,
            public_url,
            tls_cert: "$BW_BROKER_HOME/tls/server.crt".to_string(),
            tls_key: "$BW_BROKER_HOME/tls/server.key".to_string(),
            max_body_bytes: default_max_body_bytes(),
        },
        bitwarden: BitwardenConfig {
            bw_path: "bw".to_string(),
            server_url,
            email,
            appdata_dir: "$BW_BROKER_HOME/bw-cli".to_string(),
            sync_before_read: false,
        },
        keychain: KeychainConfig {
            service: "bw-touchid-broker.master-password".to_string(),
            account,
            helper_path: "$BW_BROKER_HOME/bin/bw-broker-keychain".to_string(),
        },
        approval: ApprovalConfig {
            confirm_dialog: true,
            dialog_timeout_seconds: default_dialog_timeout(),
        },
        audit: AuditConfig {
            enabled: true,
            path: "$BW_BROKER_HOME/audit.log".to_string(),
        },
        signing: SigningConfig {
            max_skew_seconds: default_max_skew(),
            nonce_ttl_seconds: default_nonce_ttl(),
            clients,
        },
    }
}

/// The initial configuration, with a new secret for its one client. Its paths
/// are given relative to the broker's directory, wherever that is.
pub fn default_config(
    _home: &str,
    email: String,
    server_url: String,
    client_id: String,
    host: String,
    port: u16,
    public_url: Option<String>,
) -> (r: Config)
    ensures
        exists|raw: Seq<u8>|
            raw.len() == 32 && is_default_config(
                r,
                email@,
                server_url@,
                client_id@,
                #[trigger] base64_text(raw),
                host@,
                port,
                crate::text::opt_text(public_url),
            ),
{
    let client_secret = generate_client_secret();
    default_config_with_secret(
        email,
        server_url,
        client_id,
        client_secret,
        host,
        port,
        public_url,
    )
}

/// The initial configuration remembers nonces long enough: twice the allowed
/// clock skew, which is as long as one timestamp can be good.
pub proof fn law_default_config_outlives_timestamps(
    config: Config,
    email: Seq<char>,
    server_url: Seq<char>,
    client_id: Seq<char>,
    client_secret: Seq<char>,
    host: Seq<char>,
    port: u16,
    public_url: Option<Seq<char>>,
)
    requires
        is_default_config(
            config,
            email,
            server_url,
            client_id,
            client_secret,
            host,
            port,
            public_url,
        ),
    ensures
        2 * config.signing.max_skew_seconds <= config.signing.nonce_ttl_seconds,
{
}

/// The place of the first client with a given id; the number of clients where
/// there is none.
pub open spec fn client_position(clients: Seq<ClientConfig>, client_id: Seq<char>) -> int
    decreases clients.len(),
{
    if clients.len() == 0 || clients[0].id@ == client_id {
        0
    } else {
        1 + client_position(clients.drop_first(), client_id)
    }
}

/// The client with a given id.
pub open spec fn client_named(clients: Seq<ClientConfig>, client_id: Seq<char>) -> Option<
    ClientConfig,
> {
    let i = client_position(clients, client_id);
    if i < clients.len() {
        Some(clients[i])
    } else {
        None
    }
}

/// The position is that of the first client with the id.
pub proof fn lemma_client_position(clients: Seq<ClientConfig>, client_id: Seq<char>, i: int)
    requires
        0 <= i <= clients.len(),
        forall|j: int| 0 <= j < i ==> (#[trigger] clients[j]).id@ != client_id,
        i < clients.len() ==> clients[i].id@ == client_id,
    ensures
        client_position(clients, client_id) == i,
    decreases clients.len(),
{
    if i > 0 {
        let rest = clients.drop_first();
        assert(clients[0].id@ != client_id);
        assert forall|j: int| 0 <= j < i - 1 implies (#[trigger] rest[j]).id@ != client_id by {
            assert(rest[j] == clients[j + 1]);
        }
        lemma_client_position(rest, client_id, i - 1);
    }
}

/// What the position says of the clients.
pub proof fn lemma_client_position_bounds(clients: Seq<ClientConfig>, client_id: Seq<char>)
    ensures
        0 <= client_position(clients, client_id) <= clients.len(),
        forall|j: int|
            0 <= j < client_position(clients, client_id) ==> (#[trigger] clients[j]).id@
                != client_id,
        client_position(clients, client_id) < clients.len() ==> clients[client_position(
            clients,
            client_id,
        )].id@ == client_id,
    decreases clients.len(),
{
    if clients.len() > 0 && clients[0].id@ != client_id {
        let rest = clients.drop_first();
        lemma_client_position_bounds(rest, client_id);
        assert forall|j: int| 0 <= j < client_position(clients, client_id) implies (
        #[trigger] clients[j]).id@ != client_id by {
            if j > 0 {
                assert(clients[j] == rest[j - 1]);
            }
        }
    }
}

fn position_of(clients: &[ClientConfig], client_id: &str) -> (r: usize)
    ensures
        r == client_position(clients@, client_id@),
        r <= clients@.len(),
{
    let mut i: usize = 0;
    while i < clients.len() && *clients[i].id.as_str() != *client_id
        invariant
            i <= clients@.len(),
            forall|j: int| 0 <= j < i ==> (#[trigger] clients@[j]).id@ != client_id@,
        decreases clients@.len() - i,
    {
        i += 1;
    }
    proof {
        lemma_client_position(clients@, client_id@, i as int);
    }
    i
}

/// Finds the client with a given id.
pub fn find_client<'a>(config: &'a Config, client_id: &str) -> (r: Option<&'a ClientConfig>)
    ensures
        match r {
            Some(client) => client_named(config.signing.clients@, client_id@) == Some(*client),
            None => client_named(config.signing.clients@, client_id@) is None,
        },
        r matches Some(client) ==> client.id@ == client_id@,
{
    let i = position_of(&config.signing.clients, client_id);
    if i < config.signing.clients.len() {
        proof {
            lemma_client_position_bounds(config.signing.clients@, client_id@);
        }
        Some(&config.signing.clients[i])
    } else {
        None
    }
}

/// Why the configuration cannot be changed as asked.
#[derive(Debug)]
pub enum ConfigError {
    ConfigExists(String),
    UnknownClient(String),
    ClientExists(String),
}

/// A reason not to change the configuration, as mathematics.
pub enum ConfigErrorView {
    ConfigExists(Seq<char>),
    UnknownClient(Seq<char>),
    ClientExists(Seq<char>),
}

impl View for ConfigError {
    type V = ConfigErrorView;

    open spec fn view(&self) -> ConfigErrorView {
        match self {
            ConfigError::ConfigExists(path) => ConfigErrorView::ConfigExists(path@),
            ConfigError::UnknownClient(id) => ConfigErrorView::UnknownClient(id@),
            ConfigError::ClientExists(id) => ConfigErrorView::ClientExists(id@),
        }
    }
}

impl ConfigErrorView {
    /// The message that is shown.
    pub open spec fn message(self) -> Seq<char> {
        match self {
            ConfigErrorView::ConfigExists(path) => "config already exists: "@ + path
                + "; use --force to replace it"@,
            ConfigErrorView::UnknownClient(id) => "unknown client id: "@ + id,
            ConfigErrorView::ClientExists(id) => "client already exists: "@ + id,
        }
    }
}

impl ConfigError {
    /// The message that is shown.
    pub fn message(&self) -> (r: String)
        ensures
            r@ == self@.message(),
    {
        match self {
            ConfigError::ConfigExists(path) => "config already exists: ".to_string().concat(
                path.as_str(),
            ).concat("; use --force to replace it"),
            ConfigError::UnknownClient(id) => "unknown client id: ".to_string().concat(
                id.as_str(),
            ),
            ConfigError::ClientExists(id) => "client already exists: ".to_string().concat(
                id.as_str(),
            ),
        }
    }
}

/// The clients after the approval mode of one was set.
pub open spec fn with_approval(
    clients: Seq<ClientConfig>,
    client_id: Seq<char>,
    approval: ClientApprovalMode,
) -> Seq<ClientConfig> {
    let i = client_position(clients, client_id);
    if i < clients.len() {
        clients.update(i, ClientConfig { approval, ..clients[i] })
    } else {
        clients
    }
}

/// Sets the approval mode of a client; nothing else changes.
pub fn set_client_approval(
    config: &mut Config,
    client_id: &str,
    approval: ClientApprovalMode,
) -> (r: Result<(), ConfigError>)
    ensures
        match r {
            Ok(()) => client_named(old(config).signing.clients@, client_id@) is Some,
            Err(e) => client_named(old(config).signing.clients@, client_id@) is None && e@
                == ConfigErrorView::UnknownClient(client_id@),
        },
        final(config).signing.clients@ == with_approval(
            old(config).signing.clients@,
            client_id@,
            approval,
        ),
        final(config).signing.max_skew_seconds == old(config).signing.max_skew_seconds,
        final(config).signing.nonce_ttl_seconds == old(config).signing.nonce_ttl_seconds,
        final(config).server == old(config).server,
        final(config).bitwarden == old(config).bitwarden,
        final(config).keychain == old(config).keychain,
        final(config).approval == old(config).approval,
        final(config).audit == old(config).audit,
{
    let i = position_of(&config.signing.clients, client_id);
    if i < config.signing.clients.len() {
        config.signing.clients[i].approval = approval;
        Ok(())
    } else {
        Err(ConfigError::UnknownClient(client_id.to_string()))
    }
}

/// Setting the approval mode of a client sets it, leaves the client as it was
/// otherwise and all others alone, and setting it back undoes the change.
pub proof fn law_approval_is_set_and_undone(
    clients: Seq<ClientConfig>,
    client_id: Seq<char>,
    approval: ClientApprovalMode,
    other: Seq<char>,
)
    requires
        client_named(clients, client_id) is Some,
        other != client_id,
    ensures
        client_named(with_approval(clients, client_id, approval), client_id) == Some(
            ClientConfig { approval, ..client_named(clients, client_id)->0 },
        ),
        client_named(with_approval(clients, client_id, approval), other) == client_named(
            clients,
            other,
        ),
        with_approval(
            with_approval(clients, client_id, approval),
            client_id,
            client_named(clients, client_id)->0.approval,
        ) == clients,
{
    let changed = with_approval(clients, client_id, approval);
    let i = client_position(clients, client_id);
    lemma_client_position_bounds(clients, client_id);
    lemma_client_position_bounds(clients, other);
    assert forall|j: int| 0 <= j < clients.len() implies (#[trigger] changed[j]).id
        == clients[j].id by {}
    lemma_client_position(changed, client_id, i);
    lemma_client_position(changed, other, client_position(clients, other));
    assert(with_approval(changed, client_id, clients[i].approval) =~= clients);
}

/// A path that starts at the root stays as it is. Any other goes below the
/// directory, with one slash between them, whether the directory ends in one or
/// not.
pub proof fn law_path_goes_below(dir: Seq<char>, path: Seq<char>)
    ensures
        path.len() > 0 && path[0] == '/' ==> path_below(dir, path) == path,
        !(path.len() > 0 && path[0] == '/') && dir.len() > 0 && dir.last() != '/' ==> path_below(
            dir,
            path,
        ) == dir + seq!['/'] + path && path_below(dir.push('/'), path) == path_below(dir, path),
        path_below(Seq::empty(), path) == path,
{
    assert(dir.push('/') + path =~= dir + seq!['/'] + path);
    assert(Seq::<char>::empty() + path =~= path);
}

/// A path below the broker's home, or below the user's where that is known, is
/// expanded; every other path stays as it is.
pub proof fn law_home_is_expanded(
    value: Seq<char>,
    rest: Seq<char>,
    home: Seq<char>,
    user_home: Option<Seq<char>>,
)
    ensures
        expanded_path("$BW_BROKER_HOME/"@ + rest, home, user_home) == path_below(home, rest),
        expanded_path("$BW_BROKER_HOME"@, home, user_home) == home,
        user_home is Some ==> expanded_path("~/"@ + rest, home, user_home) == path_below(
            user_home->0,
            rest,
        ),
        user_home is None ==> expanded_path("~/"@ + rest, home, user_home) == "~/"@ + rest,
        value.len() == 0 || (value[0] != '$' && value[0] != '~') ==> expanded_path(
            value,
            home,
            user_home,
        ) == value,
        value != "$BW_BROKER_HOME"@ && !has_prefix(value, "$BW_BROKER_HOME/"@) && !has_prefix(
            value,
            "~/"@,
        ) ==> expanded_path(value, home, user_home) == value,
{
    reveal_strlit("$BW_BROKER_HOME/");
    reveal_strlit("$BW_BROKER_HOME");
    reveal_strlit("~/");
    let a = "$BW_BROKER_HOME/"@;
    let b = "~/"@;
    assert(a.len() == 16 && a[0] == '$');
    assert("$BW_BROKER_HOME"@.len() == 15 && "$BW_BROKER_HOME"@[0] == '$');
    assert(b.len() == 2 && b[0] == '~');
    assert((a + rest).take(a.len() as int) =~= a);
    assert((a + rest).skip(a.len() as int) =~= rest);
    assert((b + rest).take(b.len() as int) =~= b);
    assert((b + rest).skip(b.len() as int) =~= rest);
    assert((b + rest)[0] == '~');
    if has_prefix(b + rest, a) {
        assert((b + rest).take(a.len() as int)[0] == '~');
    }
    if value.len() > 0 && has_prefix(value, a) {
        assert(value.take(a.len() as int)[0] == value[0]);
    }
    if value.len() > 0 && has_prefix(value, b) {
        assert(value.take(b.len() as int)[0] == value[0]);
    }
}

/// The broker's home is the one that is given; else it is a directory of a fixed
/// name below the user's; and there is none only where neither is known.
pub proof fn law_home_is_found(broker_home: Option<Seq<char>>, user_home: Option<Seq<char>>)
    ensures
        broker_home is Some ==> home_of(broker_home, user_home) == broker_home,
        broker_home is None && user_home is Some ==> home_of(broker_home, user_home) == Some(
            path_below(user_home->0, ".bw-broker"@),
        ),
        home_of(broker_home, user_home) is None <==> broker_home is None && user_home is None,
{
}

/// A client is found by its id: the first in the list that has it, and none
/// exactly where no client has it.
pub proof fn law_client_is_found_by_id(clients: Seq<ClientConfig>, client_id: Seq<char>)
    ensures
        match client_named(clients, client_id) {
            Some(client) => exists|i: int|
                0 <= i < clients.len() && #[trigger] clients[i] == client && client.id@
                    == client_id && forall|j: int|
                    0 <= j < i ==> (#[trigger] clients[j]).id@ != client_id,
            None => forall|j: int|
                0 <= j < clients.len() ==> (#[trigger] clients[j]).id@ != client_id,
        },
{
    lemma_client_position_bounds(clients, client_id);
}

/// Setting the approval of a client changes the approval of the first client
/// with that id, and nothing else of it or of any other.
pub proof fn law_approval_changes_one_client(
    clients: Seq<ClientConfig>,
    client_id: Seq<char>,
    approval: ClientApprovalMode,
    i: int,
)
    requires
        0 <= i < clients.len(),
    ensures
        ({
            let after = with_approval(clients, client_id, approval);
            let first = clients[i].id@ == client_id && forall|j: int|
                0 <= j < i ==> (#[trigger] clients[j]).id@ != client_id;
            &&& after.len() == clients.len()
            &&& first ==> after[i]@.approval == approval
            &&& !first ==> after[i]@.approval == clients[i]@.approval
            &&& after[i]@.id == clients[i]@.id
            &&& after[i]@.secret == clients[i]@.secret
            &&& after[i]@.allowed_secrets == clients[i]@.allowed_secrets
        }),
{
    lemma_client_position_bounds(clients, client_id);
    let p = client_position(clients, client_id);
    if p < i {
        assert(clients[p].id@ == client_id);
    }
}

/// A first configuration has what it was given, in its place, and leaves the
/// rest to be careful: the user is asked, the log is kept, requests are short,
/// and the vault is not synchronised before each reading. Its one client may ask
/// for everything, and is not trusted.
pub proof fn law_default_config_has_what_was_given(
    config: Config,
    email: Seq<char>,
    server_url: Seq<char>,
    client_id: Seq<char>,
    client_secret: Seq<char>,
    host: Seq<char>,
    port: u16,
    public_url: Option<Seq<char>>,
)
    requires
        is_default_config(
            config,
            email,
            server_url,
            client_id,
            client_secret,
            host,
            port,
            public_url,
        ),
    ensures
        config.server.host@ == host && config.server.port == port,
        public_url is Some ==> config.server.public_url@ == public_url->0,
        public_url is None ==> config.server.public_url@ == "https://"@ + host + ":"@ + decimal(
            port as nat,
        ),
        config.server.max_body_bytes == 65_536,
        config.server.tls_cert@ == "$BW_BROKER_HOME/tls/server.crt"@,
        config.server.tls_key@ == "$BW_BROKER_HOME/tls/server.key"@,
        config.bitwarden.bw_path@ == "bw"@,
        config.bitwarden.server_url@ == server_url && config.bitwarden.email@ == email,
        config.bitwarden.appdata_dir@ == "$BW_BROKER_HOME/bw-cli"@,
        !config.bitwarden.sync_before_read,
        config.keychain.service@ == "bw-touchid-broker.master-password"@,
        email.len() > 0 ==> config.keychain.account@ == email,
        email.len() == 0 ==> config.keychain.account@ == "ai-agent@example.com"@,
        config.keychain.helper_path@ == "$BW_BROKER_HOME/bin/bw-broker-keychain"@,
        config.approval.confirm_dialog && config.approval.dialog_timeout_seconds == 120,
        config.audit.enabled && config.audit.path@ == "$BW_BROKER_HOME/audit.log"@,
        config.signing.max_skew_seconds == 300 && config.signing.nonce_ttl_seconds == 600,
        config.signing.clients@.len() == 1,
        config.signing.clients@[0]@.id == client_id,
        config.signing.clients@[0]@.secret == client_secret,
        config.signing.clients@[0]@.approval == ClientApprovalMode::Prompt,
        config.signing.clients@[0]@.allowed_secrets == seq!["*"@],
{
}

/// What a change of the configuration is refused for names the file or client.
pub proof fn law_refused_change_names_its_reason(text: Seq<char>)
    ensures
        ConfigErrorView::UnknownClient(text).message() == "unknown client id: "@ + text,
        ConfigErrorView::ClientExists(text).message() == "client already exists: "@ + text,
        ConfigErrorView::ConfigExists(text).message() == "config already exists: "@ + text
            + "; use --force to replace it"@,
{
}

} // verus!
