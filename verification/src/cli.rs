//! The commands of the broker, as far as they decide or compute something.
use vstd::prelude::*;

use crate::config::{
    client_named, client_position, config_path, default_config, everything, find_client,
    generate_client_secret, is_default_config, lemma_client_position,
    lemma_client_position_bounds, path_below, ClientApprovalMode, ClientConfig, ClientView,
    Config, ConfigError, ConfigErrorView,
};
use crate::json::{list_view, put, text_list_view, Json, JsonView};
use crate::primitives::{base64_text, random_token};
use crate::signing::{signed_headers_json, signed_headers_view, SigningError};
use crate::text::{clone_option, opt_text, texts};
use crate::textmap::TextMap;

verus! {

/// How an approval mode is written.
pub open spec fn approval_name(approval: ClientApprovalMode) -> Seq<char> {
    match approval {
        ClientApprovalMode::Prompt => "prompt"@,
        ClientApprovalMode::Trusted => "trusted"@,
    }
}

/// How an approval mode is written.
pub fn approval_text(approval: ClientApprovalMode) -> (r: &'static str)
    ensures
        r@ == approval_name(approval),
{
    match approval {
        ClientApprovalMode::Prompt => "prompt",
        ClientApprovalMode::Trusted => "trusted",
    }
}

/// How a configuration is asked for. What is left out of the account and the
/// server is asked for at the terminal.
#[derive(Debug)]
pub struct InitOptions {
    pub email: Option<String>,
    pub server_url: Option<String>,
    pub client_id: String,
    pub host: String,
    pub port: u16,
    pub public_url: Option<String>,
    pub force: bool,
}

/// What comes next in making a configuration.
#[derive(Debug)]
pub enum InitNext {
    AskEmail,
    AskServerUrl,
    /// Write the configuration, with an empty catalog.
    Write(Config),
    Failed(ConfigError),
}

impl InitOptions {
    /// What comes next in making a configuration: one that is there is replaced
    /// only on demand.
    pub fn init(&self, home: &str, config_exists: bool) -> (r: InitNext)
        ensures
            match r {
                InitNext::Failed(e) => config_exists && !self.force && e@
                    == ConfigErrorView::ConfigExists(path_below(home@, "config.json"@)),
                InitNext::AskEmail => (!config_exists || self.force) && self.email is None,
                InitNext::AskServerUrl => (!config_exists || self.force) && self.email is Some
                    && self.server_url is None,
                InitNext::Write(config) => {
                    &&& !config_exists || self.force
                    &&& self.email is Some
                    &&& self.server_url is Some
                    &&& exists|raw: Seq<u8>|
                        raw.len() == 32 && is_default_config(
                            config,
                            self.email->0@,
                            self.server_url->0@,
                            self.client_id@,
                            #[trigger] base64_text(raw),
                            self.host@,
                            self.port,
                            opt_text(self.public_url),
                        )
                },
            },
    {
        if config_exists && !self.force {
            return InitNext::Failed(ConfigError::ConfigExists(config_path(home)));
        }
        match (&self.email, &self.server_url) {
            (None, _) => InitNext::AskEmail,
            (Some(_), None) => InitNext::AskServerUrl,
            (Some(email), Some(server_url)) => InitNext::Write(
                default_config(
                    home,
                    email.clone(),
                    server_url.clone(),
                    self.client_id.clone(),
                    self.host.clone(),
                    self.port,
                    clone_option(&self.public_url),
                ),
            ),
        }
    }
}

/// What the first client needs to reach the broker, where there is one.
pub fn first_client_settings(config: &Config) -> (r: Option<Json>)
    ensures
        match r {
            None => config.signing.clients@.len() == 0,
            Some(j) => config.signing.clients@.len() > 0 && j@ == JsonView::Object(
                map![
                    "broker_url"@ => JsonView::Text(config.server.public_url@),
                    "client_id"@ => JsonView::Text(config.signing.clients@[0].id@),
                    "client_secret"@ => JsonView::Text(config.signing.clients@[0].secret@),
                ],
            ),
        },
{
    if config.signing.clients.len() == 0 {
        return None;
    }
    let client = &config.signing.clients[0];
    let mut object: TextMap<Json> = TextMap::new();
    put(&mut object, "broker_url", Json::text(config.server.public_url.as_str()));
    put(&mut object, "client_id", Json::text(client.id.as_str()));
    put(&mut object, "client_secret", Json::text(client.secret.as_str()));
    Some(Json::Object(object))
}

/// All that a client needs to reach the broker, and what it may do there.
pub open spec fn client_settings(broker_url: Seq<char>, client: ClientView) -> JsonView {
    JsonView::Object(
        map![
            "broker_url"@ => JsonView::Text(broker_url),
            "client_id"@ => JsonView::Text(client.id),
            "client_secret"@ => JsonView::Text(client.secret),
            "approval"@ => JsonView::Text(approval_name(client.approval)),
            "allowed_secrets"@ => text_list_view(client.allowed_secrets),
        ],
    )
}

fn settings_of(broker_url: &str, client: &ClientConfig) -> (r: Json)
    ensures
        r@ == client_settings(broker_url@, client@),
{
    let mut object: TextMap<Json> = TextMap::new();
    put(&mut object, "broker_url", Json::text(broker_url));
    put(&mut object, "client_id", Json::text(client.id.as_str()));
    put(&mut object, "client_secret", Json::text(client.secret.as_str()));
    put(&mut object, "approval", Json::text(approval_text(client.approval)));
    put(&mut object, "allowed_secrets", Json::text_list(&client.allowed_secrets));
    Json::Object(object)
}

/// Shows a client with its secret.
pub fn show_client(config: &Config, client_id: &str) -> (r: Result<Json, ConfigError>)
    ensures
        match (r, client_named(config.signing.clients@, client_id@)) {
            (Ok(j), Some(client)) => j@ == client_settings(config.server.public_url@, client@),
            (Err(e), None) => e@ == ConfigErrorView::UnknownClient(client_id@),
            _ => false,
        },
{
    match find_client(config, client_id) {
        Some(client) => Ok(settings_of(config.server.public_url.as_str(), client)),
        None => Err(ConfigError::UnknownClient(client_id.to_string())),
    }
}

/// A client in a listing: without its secret.
pub open spec fn client_listed(client: ClientView) -> JsonView {
    JsonView::Object(
        map![
            "id"@ => JsonView::Text(client.id),
            "secret"@ => JsonView::Text("<redacted>"@),
            "approval"@ => JsonView::Text(approval_name(client.approval)),
            "allowed_secrets"@ => text_list_view(client.allowed_secrets),
        ],
    )
}

/// A listing of clients.
pub open spec fn clients_listed(broker_url: Seq<char>, clients: Seq<ClientConfig>) -> JsonView {
    JsonView::Object(
        map![
            "broker_url"@ => JsonView::Text(broker_url),
            "clients"@ => JsonView::List(clients.map_values(|c: ClientConfig| client_listed(c@))),
        ],
    )
}

/// Lists the clients.
pub fn list_clients(config: &Config) -> (r: Json)
    ensures
        r@ == clients_listed(config.server.public_url@, config.signing.clients@),
{
    let clients = &config.signing.clients;
    let mut listed: Vec<Json> = Vec::new();
    for i in 0..clients.len()
        invariant
            *clients == config.signing.clients,
            listed@.len() == i,
            forall|k: int|
                0 <= k < i ==> (#[trigger] listed@[k])@ == client_listed(clients@[k]@),
    {
        let client = &clients[i];
        let mut object: TextMap<Json> = TextMap::new();
        put(&mut object, "id", Json::text(client.id.as_str()));
        put(&mut object, "secret", Json::text("<redacted>"));
        put(&mut object, "approval", Json::text(approval_text(client.approval)));
        put(&mut object, "allowed_secrets", Json::text_list(&client.allowed_secrets));
        listed.push(Json::Object(object));
    }
    proof {
        crate::json::lemma_list_view(listed@);
        assert(list_view(listed@) =~= clients@.map_values(
            |c: ClientConfig| client_listed(c@),
        ));
    }
    let mut object: TextMap<Json> = TextMap::new();
    put(&mut object, "broker_url", Json::text(config.server.public_url.as_str()));
    put(&mut object, "clients", Json::List(listed));
    Json::Object(object)
}

/// Clients that differ in their secrets at most.
pub open spec fn same_but_secrets(a: Seq<ClientConfig>, b: Seq<ClientConfig>) -> bool {
    &&& a.len() == b.len()
    &&& forall|i: int|
        0 <= i < a.len() ==> (ClientView { secret: Seq::empty(), ..(#[trigger] a[i])@ }) == (
        ClientView { secret: Seq::empty(), ..b[i]@ })
}

/// A listing of clients says nothing about their secrets.
pub proof fn law_listing_hides_secrets(
    broker_url: Seq<char>,
    a: Seq<ClientConfig>,
    b: Seq<ClientConfig>,
)
    requires
        same_but_secrets(a, b),
    ensures
        clients_listed(broker_url, a) == clients_listed(broker_url, b),
{
    let listed = |c: ClientConfig| client_listed(c@);
    assert forall|i: int| 0 <= i < a.len() implies client_listed((#[trigger] a[i])@)
        == client_listed(b[i]@) by {
        let x = a[i]@;
        let y = b[i]@;
        assert((ClientView { secret: Seq::empty(), ..x }).id == x.id);
        assert((ClientView { secret: Seq::empty(), ..y }).id == y.id);
    }
    assert(a.map_values(listed) =~= b.map_values(listed));
}

/// The names that a new client or a new catalog is open to: all where none is
/// given.
pub open spec fn or_everything(names: Seq<Seq<char>>) -> Seq<Seq<char>> {
    if names.len() == 0 {
        seq!["*"@]
    } else {
        names
    }
}

/// The names given, or all where there are none.
pub fn names_or_everything(names: Vec<String>) -> (r: Vec<String>)
    ensures
        texts(r@) == or_everything(texts(names@)),
{
    if names.len() == 0 {
        everything()
    } else {
        names
    }
}

/// A new client.
pub open spec fn new_client(
    client_id: Seq<char>,
    secret: Seq<char>,
    allowed_secrets: Seq<Seq<char>>,
    trusted: bool,
) -> ClientView {
    ClientView {
        id: client_id,
        secret,
        approval: if trusted {
            ClientApprovalMode::Trusted
        } else {
            ClientApprovalMode::Prompt
        },
        allowed_secrets: or_everything(allowed_secrets),
    }
}

/// Whether a configuration has one more client than another, and differs in
/// nothing else.
pub open spec fn has_one_more_client(after: Config, before: Config, client: ClientView) -> bool {
    &&& after.signing.clients@.len() == before.signing.clients@.len() + 1
    &&& after.signing.clients@.drop_last() == before.signing.clients@
    &&& after.signing.clients@.last()@ == client
    &&& after.signing.max_skew_seconds == before.signing.max_skew_seconds
    &&& after.signing.nonce_ttl_seconds == before.signing.nonce_ttl_seconds
    &&& after.server == before.server
    &&& after.bitwarden == before.bitwarden
    &&& after.keychain == before.keychain
    &&& after.approval == before.approval
    &&& after.audit == before.audit
}

/// Adds a client with a given secret, and tells what it needs to reach the
/// broker.
pub fn add_client_with_secret(
    config: &mut Config,
    client_id: &str,
    allowed_secret: Vec<String>,
    trusted: bool,
    secret: String,
) -> (r: Result<Json, ConfigError>)
    ensures
        match r {
            Err(e) => {
                &&& client_named(old(config).signing.clients@, client_id@) is Some
                &&& e@ == ConfigErrorView::ClientExists(client_id@)
                &&& *final(config) == *old(config)
            },
            Ok(j) => {
                let client = new_client(client_id@, secret@, texts(allowed_secret@), trusted);
                &&& client_named(old(config).signing.clients@, client_id@) is None
                &&& has_one_more_client(*final(config), *old(config), client)
                &&& j@ == client_settings(old(config).server.public_url@, client)
            },
        },
{
    if find_client(config, client_id).is_some() {
        return Err(ConfigError::ClientExists(client_id.to_string()));
    }
    let client = ClientConfig {
        id: client_id.to_string(),
        secret,
        approval: if trusted {
            ClientApprovalMode::Trusted
        } else {
            ClientApprovalMode::Prompt
        },
        allowed_secrets: names_or_everything(allowed_secret),
    };
    let settings = settings_of(config.server.public_url.as_str(), &client);
    config.signing.clients.push(client);
    assert(config.signing.clients@.drop_last() =~= old(config).signing.clients@);
    Ok(settings)
}

/// Adds a client with a secret of its own, and tells what it needs to reach the
/// broker.
pub fn add_client(
    config: &mut Config,
    client_id: &str,
    allowed_secret: Vec<String>,
    trusted: bool,
) -> (r: Result<Json, ConfigError>)
    ensures
        match r {
            Err(e) => {
                &&& client_named(old(config).signing.clients@, client_id@) is Some
                &&& e@ == ConfigErrorView::ClientExists(client_id@)
                &&& *final(config) == *old(config)
            },
            Ok(j) => {
                &&& client_named(old(config).signing.clients@, client_id@) is None
                &&& exists|raw: Seq<u8>|
                    {
                        let client = new_client(
                            client_id@,
                            #[trigger] base64_text(raw),
                            texts(allowed_secret@),
                            trusted,
                        );
                        &&& raw.len() == 32
                        &&& has_one_more_client(*final(config), *old(config), client)
                        &&& j@ == client_settings(old(config).server.public_url@, client)
                    }
            },
        },
{
    let secret = generate_client_secret();
    add_client_with_secret(config, client_id, allowed_secret, trusted, secret)
}

/// A client that was added is found under its id, and every other client is
/// found as before.
pub proof fn law_added_client_is_found(
    before: Config,
    after: Config,
    client: ClientView,
    other: Seq<char>,
)
    requires
        client_named(before.signing.clients@, client.id) is None,
        has_one_more_client(after, before, client),
        other != client.id,
    ensures
        client_named(after.signing.clients@, client.id) is Some,
        client_named(after.signing.clients@, client.id)->0@ == client,
        client_named(after.signing.clients@, other) == client_named(
            before.signing.clients@,
            other,
        ),
{
    let old_clients = before.signing.clients@;
    let clients = after.signing.clients@;
    lemma_client_position_bounds(old_clients, client.id);
    lemma_client_position_bounds(old_clients, other);
    assert forall|j: int| 0 <= j < old_clients.len() implies #[trigger] clients[j]
        == old_clients[j] by {
        assert(clients.drop_last()[j] == clients[j]);
    }
    lemma_client_position(clients, client.id, old_clients.len() as int);
    let at = client_position(old_clients, other);
    if at < old_clients.len() {
        lemma_client_position(clients, other, at);
    } else {
        lemma_client_position(clients, other, clients.len() as int);
    }
}

/// Whether a password that was typed twice was typed alike.
pub fn passwords_match(password: &str, repeated: &str) -> (r: Result<(), String>)
    ensures
        match r {
            Ok(()) => password@ == repeated@,
            Err(text) => password@ != repeated@ && text@ == "passwords did not match"@,
        },
{
    if *password == *repeated {
        Ok(())
    } else {
        Err("passwords did not match".to_string())
    }
}

/// Signs a request now, with a nonce of its own where none is given.
pub fn sign_request(
    client_id: &str,
    client_secret: &str,
    method: &str,
    path: &str,
    body: &[u8],
    nonce: Option<String>,
) -> (r: Result<Json, SigningError>)
    ensures
        r is Ok,
        exists|now: i64, used: Seq<char>|
            r->Ok_0@ == #[trigger] signed_headers_view(
                client_id@,
                client_secret@,
                method@,
                path@,
                body@,
                used,
                now as int,
            ) && match nonce {
                Some(given) => used == given@,
                None => exists|raw: Seq<u8>| raw.len() == 18 && used == base64_text(raw),
            },
{
    let nonce = match nonce {
        Some(nonce) => nonce,
        None => random_token(18),
    };
    signed_headers_json(client_id, client_secret, method, path, body, nonce.as_str())
}

/// What a client needs, member by member: where the broker is, the client's own
/// id and secret, whether it is trusted, and what it may ask for.
pub proof fn law_settings_member_by_member(broker_url: Seq<char>, client: ClientView)
    ensures
        ({
            let settings = client_settings(broker_url, client);
            &&& settings.member("broker_url"@) == Some(JsonView::Text(broker_url))
            &&& settings.member("client_id"@) == Some(JsonView::Text(client.id))
            &&& settings.member("client_secret"@) == Some(JsonView::Text(client.secret))
            &&& client.approval == ClientApprovalMode::Prompt ==> settings.member("approval"@)
                == Some(JsonView::Text("prompt"@))
            &&& client.approval == ClientApprovalMode::Trusted ==> settings.member("approval"@)
                == Some(JsonView::Text("trusted"@))
            &&& settings.list_at("allowed_secrets"@) is Some
            &&& settings.list_at("allowed_secrets"@)->0.len() == client.allowed_secrets.len()
            &&& forall|i: int|
                0 <= i < client.allowed_secrets.len() ==> #[trigger] settings.list_at(
                    "allowed_secrets"@,
                )->0[i] == JsonView::Text(client.allowed_secrets[i])
        }),
{
    reveal_strlit("broker_url");
    reveal_strlit("client_id");
    reveal_strlit("client_secret");
    reveal_strlit("approval");
    reveal_strlit("allowed_secrets");
    assert("broker_url"@.len() == 10 && "client_id"@.len() == 9 && "client_secret"@.len() == 13);
    assert("approval"@.len() == 8 && "allowed_secrets"@.len() == 15);
}

/// A listing has every client, in order, and says of each who it is, whether it
/// is trusted and what it may ask for; the place of its secret is filled.
pub proof fn law_listing_member_by_member(
    broker_url: Seq<char>,
    clients: Seq<ClientConfig>,
    i: int,
)
    requires
        0 <= i < clients.len(),
    ensures
        ({
            let listing = clients_listed(broker_url, clients);
            let shown = listing.list_at("clients"@)->0[i];
            let client = clients[i]@;
            &&& listing.member("broker_url"@) == Some(JsonView::Text(broker_url))
            &&& listing.list_at("clients"@) is Some
            &&& listing.list_at("clients"@)->0.len() == clients.len()
            &&& shown.member("id"@) == Some(JsonView::Text(client.id))
            &&& shown.member("secret"@) == Some(JsonView::Text("<redacted>"@))
            &&& client.approval == ClientApprovalMode::Prompt ==> shown.member("approval"@) == Some(
                JsonView::Text("prompt"@),
            )
            &&& client.approval == ClientApprovalMode::Trusted ==> shown.member("approval"@)
                == Some(JsonView::Text("trusted"@))
            &&& shown.list_at("allowed_secrets"@) is Some
            &&& shown.list_at("allowed_secrets"@)->0.len() == client.allowed_secrets.len()
            &&& forall|k: int|
                0 <= k < client.allowed_secrets.len() ==> #[trigger] shown.list_at(
                    "allowed_secrets"@,
                )->0[k] == JsonView::Text(client.allowed_secrets[k])
        }),
{
    reveal_strlit("broker_url");
    reveal_strlit("clients");
    reveal_strlit("id");
    reveal_strlit("secret");
    reveal_strlit("approval");
    reveal_strlit("allowed_secrets");
    assert("broker_url"@.len() == 10 && "clients"@.len() == 7);
    assert("id"@.len() == 2 && "secret"@.len() == 6);
    assert("approval"@.len() == 8 && "allowed_secrets"@.len() == 15);
    let listing = clients_listed(broker_url, clients);
    assert(listing.list_at("clients"@)->0[i] == client_listed(clients[i]@));
}

/// A new client has the id and the secret that it was given, is trusted exactly
/// where it was said to be, and may ask for what was named, or for everything
/// where nothing was.
pub proof fn law_new_client_is_as_given(
    client_id: Seq<char>,
    secret: Seq<char>,
    allowed_secrets: Seq<Seq<char>>,
    trusted: bool,
)
    ensures
        ({
            let client = new_client(client_id, secret, allowed_secrets, trusted);
            &&& client.id == client_id
            &&& client.secret == secret
            &&& client.approval == ClientApprovalMode::Trusted <==> trusted
            &&& allowed_secrets.len() > 0 ==> client.allowed_secrets == allowed_secrets
            &&& allowed_secrets.len() == 0 ==> client.allowed_secrets == seq!["*"@]
        }),
{
}

/// Adding a client adds it behind the others, and leaves them and the rest of
/// the configuration as they were.
pub proof fn law_added_client_leaves_the_others(
    after: Config,
    before: Config,
    client: ClientView,
    i: int,
)
    requires
        has_one_more_client(after, before, client),
        0 <= i < before.signing.clients@.len(),
    ensures
        after.signing.clients@.len() == before.signing.clients@.len() + 1,
        after.signing.clients@[i] == before.signing.clients@[i],
        after.signing.clients@[before.signing.clients@.len() as int]@ == client,
        after.server == before.server,
        after.bitwarden == before.bitwarden,
        after.keychain == before.keychain,
        after.approval == before.approval,
        after.audit == before.audit,
        after.signing.max_skew_seconds == before.signing.max_skew_seconds,
        after.signing.nonce_ttl_seconds == before.signing.nonce_ttl_seconds,
{
    assert(after.signing.clients@.drop_last()[i] == after.signing.clients@[i]);
}

} // verus!
