//! Requests to the broker: who sends them, what they ask for, and how they are
//! refused.
use http::{HeaderMap, HeaderValue, Uri};
use vstd::prelude::*;

use crate::config::{
    client_named, find_client, nonce_path, path_below, ClientConfig, ClientView, Config,
};
use crate::json::{json_text, list_view, parse_json, put, Json, JsonView};
use crate::nonce::NonceStore;
use crate::signing::{
    header_lines, header_str, header_text, verification, verify_signature_at, SigningErrorView,
    HEADER_CLIENT,
};
use crate::text::{clone_list, decimal, decimal_text, list_contains, opt_str, texts};
use crate::textmap::TextMap;

verus! {

/// A refusal: an HTTP status and what is said with it.
#[derive(Debug)]
pub struct HttpError {
    pub status: u16,
    pub message: String,
}

/// A refusal, as mathematics.
pub struct HttpErrorView {
    pub status: u16,
    pub message: Seq<char>,
}

impl View for HttpError {
    type V = HttpErrorView;

    open spec fn view(&self) -> HttpErrorView {
        HttpErrorView { status: self.status, message: self.message@ }
    }
}

/// A refusal with a status and a message.
pub open spec fn refusal(status: u16, message: Seq<char>) -> HttpErrorView {
    HttpErrorView { status, message }
}

impl HttpError {
    pub fn new(status: u16, message: String) -> (r: HttpError)
        ensures
            r@ == refusal(status, message@),
    {
        HttpError { status, message }
    }

    /// The body of the response.
    pub fn body(&self) -> (r: Json)
        ensures
            r@ == JsonView::Object(map!["error"@ => JsonView::Text(self.message@)]),
    {
        let mut object: TextMap<Json> = TextMap::new();
        put(&mut object, "error", Json::text(self.message.as_str()));
        Json::Object(object)
    }
}

/// What is answered where fetching a secret broke down altogether.
pub fn fetch_crashed(text: String) -> (r: HttpError)
    ensures
        r@ == refusal(500, text@),
{
    HttpError::new(500, text)
}

/// What is answered to the question whether the broker is up.
pub fn health() -> (r: Json)
    ensures
        r@ == JsonView::Object(map!["ok"@ => JsonView::Bool(true)]),
{
    let mut object: TextMap<Json> = TextMap::new();
    put(&mut object, "ok", Json::Bool(true));
    Json::Object(object)
}

/// Where the broker listens.
pub fn listen_address(config: &Config) -> (r: String)
    ensures
        r@ == config.server.host@ + ":"@ + decimal(config.server.port as nat),
{
    config.server.host.clone().concat(":").concat(
        decimal_text(config.server.port as u64).as_str(),
    )
}

/// Whether the broker can serve: it needs a certificate and its key.
pub fn tls_ready(cert_exists: bool, key_exists: bool) -> (r: Result<(), String>)
    ensures
        match r {
            Ok(()) => cert_exists && key_exists,
            Err(text) => !(cert_exists && key_exists) && text@
                == "missing TLS certificate/key; run `bw-broker bootstrap`"@,
        },
{
    if !cert_exists || !key_exists {
        Err("missing TLS certificate/key; run `bw-broker bootstrap`".to_string())
    } else {
        Ok(())
    }
}

/// The address of a request in the http crate.
#[verifier::external_type_specification]
#[verifier::external_body]
pub struct ExUri(http::Uri);

/// The path of an address with its query, where it has a path.
pub uninterp spec fn uri_path_and_query(uri: Uri) -> Option<Seq<char>>;

/// The path of an address, without its query.
pub uninterp spec fn uri_path(uri: Uri) -> Seq<char>;

/// `http::Uri::path_and_query` and the text of what it gives: the path with the
/// query, as the address has it.
#[verifier::external_body]
fn path_and_query(uri: &Uri) -> (r: Option<&str>)
    ensures
        opt_str(r) == uri_path_and_query(*uri),
{
    match uri.path_and_query() {
        Some(path_and_query) => Some(path_and_query.as_str()),
        None => None,
    }
}

/// `http::Uri::path`: the path, as the address has it.
pub assume_specification[ http::Uri::path ](uri: &Uri) -> (r: &str)
    ensures
        r@ == uri_path(*uri),
;

/// The target that a request is signed with: the exact path, with the query
/// where there is one.
pub open spec fn target_of(path_and_query: Option<Seq<char>>, path: Seq<char>) -> Seq<char> {
    match path_and_query {
        Some(target) => target,
        None => path,
    }
}

/// The target that a request is signed with, from the parts of its address.
pub fn exact_target(path_and_query: Option<&str>, path: &str) -> (r: String)
    ensures
        r@ == target_of(opt_str(path_and_query), path@),
{
    match path_and_query {
        Some(target) => target.to_string(),
        None => path.to_string(),
    }
}

/// The target that a request is signed with, from its address.
pub fn target(uri: &Uri) -> (r: String)
    ensures
        r@ == target_of(uri_path_and_query(*uri), uri_path(*uri)),
{
    exact_target(path_and_query(uri), uri.path())
}

/// What is asked of the broker.
#[derive(Debug, Clone, Copy, PartialEq, Eq, Structural)]
pub enum Route {
    /// `GET /v1/catalog`
    Catalog,
    /// `POST /v1/secret-requests`
    Secret,
}

/// A request as it came in.
#[derive(Debug)]
pub struct Request {
    pub route: Route,
    /// The path, with the query where there is one.
    pub target: String,
    pub headers: HeaderMap<HeaderValue>,
    pub body: Vec<u8>,
}

/// A request, as mathematics.
pub struct RequestView {
    pub route: Route,
    pub target: Seq<char>,
    pub lines: Map<Seq<char>, Seq<u8>>,
    pub body: Seq<u8>,
}

impl View for Request {
    type V = RequestView;

    open spec fn view(&self) -> RequestView {
        RequestView {
            route: self.route,
            target: self.target@,
            lines: header_lines(self.headers),
            body: self.body@,
        }
    }
}

impl RequestView {
    /// The method that the request was signed with.
    pub open spec fn method(self) -> Seq<char> {
        match self.route {
            Route::Catalog => "GET"@,
            Route::Secret => "POST"@,
        }
    }

    /// The body that the request was signed with: none for a `GET`.
    pub open spec fn signed_body(self) -> Seq<u8> {
        match self.route {
            Route::Catalog => Seq::empty(),
            Route::Secret => self.body,
        }
    }
}

/// The broker: its configuration, its directory, and that of its user where it
/// is known.
#[derive(Debug)]
pub struct AppState {
    pub config: Config,
    pub home: String,
    pub user_home: Option<String>,
    pub nonces: NonceStore,
}

impl AppState {
    /// The broker of a configuration.
    pub fn new(config: Config, home: String, user_home: Option<String>) -> (r: AppState)
        ensures
            r.config == config,
            r.home == home,
            r.user_home == user_home,
            r.nonces.path@ == path_below(home@, "nonces.json"@),
            r.nonces.ttl_seconds == config.signing.nonce_ttl_seconds,
    {
        let nonces = NonceStore::new(nonce_path(home.as_str()), config.signing.nonce_ttl_seconds);
        AppState { config, home, user_home, nonces }
    }
}

/// Who sent a request, and the nonce that it carries.
#[derive(Debug)]
pub struct Caller {
    pub client: ClientConfig,
    pub client_id: String,
    pub nonce: String,
}

/// Who sent a request, as mathematics.
pub struct CallerView {
    pub client: ClientView,
    pub client_id: Seq<char>,
    pub nonce: Seq<char>,
}

impl View for Caller {
    type V = CallerView;

    open spec fn view(&self) -> CallerView {
        CallerView { client: self.client@, client_id: self.client_id@, nonce: self.nonce@ }
    }
}

/// The outcome of authenticating a request.
pub open spec fn caller_view(r: Result<Caller, HttpError>) -> Result<CallerView, HttpErrorView> {
    match r {
        Ok(caller) => Ok(caller@),
        Err(e) => Err(e@),
    }
}

/// Who sent a request: the client that it names, if its signature is good.
pub open spec fn caller_of(
    config: Config,
    method: Seq<char>,
    target: Seq<char>,
    lines: Map<Seq<char>, Seq<u8>>,
    body: Seq<u8>,
    now: int,
) -> Result<CallerView, HttpErrorView> {
    match header_text(lines, HEADER_CLIENT@) {
        Err(_) => Err(refusal(401, "missing client id"@)),
        Ok(client_id) => match client_named(config.signing.clients@, client_id) {
            None => Err(refusal(401, "unknown client id"@)),
            Some(client) => match verification(
                client.secret@,
                method,
                target,
                lines,
                body,
                config.signing.max_skew_seconds as int,
                now,
            ) {
                Err(e) => Err(refusal(401, e.message())),
                Ok((_, nonce)) => Ok(CallerView { client: client@, client_id, nonce }),
            },
        },
    }
}

/// Finds out who sent a request that came at a given time.
pub fn verify_request(
    config: &Config,
    method: &str,
    target: &str,
    headers: &HeaderMap<HeaderValue>,
    body: &[u8],
    now: i64,
) -> (r: Result<Caller, HttpError>)
    ensures
        caller_view(r) == caller_of(
            *config,
            method@,
            target@,
            header_lines(*headers),
            body@,
            now as int,
        ),
{
    let client_id = match header_str(headers, HEADER_CLIENT) {
        Ok(s) => s,
        Err(_) => return Err(HttpError::new(401, "missing client id".to_string())),
    };
    let client = match find_client(config, client_id) {
        Some(client) => client.clone(),
        None => return Err(HttpError::new(401, "unknown client id".to_string())),
    };
    match verify_signature_at(
        client.secret.as_str(),
        method,
        target,
        headers,
        body,
        config.signing.max_skew_seconds,
        now,
    ) {
        Err(e) => Err(HttpError::new(401, e.message())),
        Ok((_, nonce)) => Ok(Caller { client, client_id: client_id.to_string(), nonce }),
    }
}

/// What a client asks for.
#[derive(Debug)]
pub struct Ask {
    pub secret_id: String,
    pub purpose: String,
    pub run_id: String,
    pub payload: Json,
}

/// What a client asks for, as mathematics. Without a list of fields it asks for
/// all that there are.
pub struct AskView {
    pub secret_id: Seq<char>,
    pub purpose: Seq<char>,
    pub run_id: Seq<char>,
    pub fields: Option<Seq<JsonView>>,
}

impl View for Ask {
    type V = AskView;

    open spec fn view(&self) -> AskView {
        AskView {
            secret_id: self.secret_id@,
            purpose: self.purpose@,
            run_id: self.run_id@,
            fields: self.payload@.list_at("fields"@),
        }
    }
}

/// A text, or the empty one where there is none.
pub open spec fn or_empty(s: Option<Seq<char>>) -> Seq<char> {
    match s {
        Some(s) => s,
        None => Seq::empty(),
    }
}

/// What a payload asks for, or what is wrong with it.
pub open spec fn ask_in(payload: JsonView) -> Result<AskView, HttpErrorView> {
    let secret_id = or_empty(payload.text_at("secret_id"@));
    let purpose = or_empty(payload.text_at("purpose"@));
    let run_id = or_empty(payload.text_at("run_id"@));
    if secret_id.len() == 0 {
        Err(refusal(400, "missing secret_id"@))
    } else if purpose.len() == 0 {
        Err(refusal(400, "missing purpose"@))
    } else {
        Ok(AskView { secret_id, purpose, run_id, fields: payload.list_at("fields"@) })
    }
}

/// What the body of a request asks for, or what is wrong with it.
pub open spec fn ask_of(body: Seq<u8>) -> Result<AskView, HttpErrorView> {
    match json_text(body) {
        Err(_) => Err(refusal(400, "invalid JSON request body"@)),
        Ok(payload) => ask_in(payload),
    }
}

fn text_or_empty(payload: &Json, key: &str) -> (r: String)
    ensures
        r@ == or_empty(payload@.text_at(key@)),
{
    match payload.text_at(key) {
        Some(s) => s.clone(),
        None => String::new(),
    }
}

/// Reads what a payload asks for.
pub fn read_payload(payload: Json) -> (r: Result<Ask, HttpError>)
    ensures
        match r {
            Ok(ask) => ask_in(payload@) == Ok::<AskView, HttpErrorView>(ask@),
            Err(e) => ask_in(payload@) == Err::<AskView, HttpErrorView>(e@),
        },
{
    let secret_id = text_or_empty(&payload, "secret_id");
    let purpose = text_or_empty(&payload, "purpose");
    let run_id = text_or_empty(&payload, "run_id");
    if secret_id.as_str().is_empty() {
        return Err(HttpError::new(400, "missing secret_id".to_string()));
    }
    if purpose.as_str().is_empty() {
        return Err(HttpError::new(400, "missing purpose".to_string()));
    }
    Ok(Ask { secret_id, purpose, run_id, payload })
}

/// Reads what the body of a request asks for.
pub fn read_ask(body: &[u8]) -> (r: Result<Ask, HttpError>)
    ensures
        match r {
            Ok(ask) => ask_of(body@) == Ok::<AskView, HttpErrorView>(ask@),
            Err(e) => ask_of(body@) == Err::<AskView, HttpErrorView>(e@),
        },
{
    match parse_json(body) {
        Ok(payload) => read_payload(payload),
        Err(_) => Err(HttpError::new(400, "invalid JSON request body".to_string())),
    }
}

/// What is wrong with a list of fields, if anything: the first one that is no
/// text or is not on offer.
pub open spec fn fields_fault(fields: Seq<JsonView>, allowed: Seq<Seq<char>>) -> Option<
    HttpErrorView,
>
    decreases fields.len(),
{
    if fields.len() == 0 {
        None
    } else {
        match fields[0].as_text() {
            None => Some(refusal(400, "fields must be strings"@)),
            Some(field) => if !allowed.contains(field) {
                Some(refusal(403, "field is not allowed for this secret: "@ + field))
            } else {
                fields_fault(fields.skip(1), allowed)
            },
        }
    }
}

/// The names in a list of fields.
pub open spec fn field_names(fields: Seq<JsonView>) -> Seq<Seq<char>> {
    fields.map_values(|f: JsonView| or_empty(f.as_text()))
}

/// The fields that a client gets, or why it gets none: those that it asks for,
/// or all that are on offer.
pub open spec fn fields_for(fields: Option<Seq<JsonView>>, allowed: Seq<Seq<char>>) -> Result<
    Seq<Seq<char>>,
    HttpErrorView,
> {
    match fields {
        None => Ok(allowed),
        Some(fields) => match fields_fault(fields, allowed) {
            Some(e) => Err(e),
            None => Ok(field_names(fields)),
        },
    }
}

/// The names of a list of fields, or why they are refused.
pub open spec fn names_view(r: Result<Vec<String>, HttpError>) -> Result<
    Seq<Seq<char>>,
    HttpErrorView,
> {
    match r {
        Ok(names) => Ok(texts(names@)),
        Err(e) => Err(e@),
    }
}

/// Works out the fields that a client gets.
pub fn requested_fields(payload: &Json, allowed: &[String]) -> (r: Result<Vec<String>, HttpError>)
    ensures
        names_view(r) == fields_for(payload@.list_at("fields"@), texts(allowed@)),
{
    let fields = match payload.list_at("fields") {
        Some(fields) => fields,
        None => return Ok(clone_list(allowed)),
    };
    let ghost all = list_view(fields@);
    let ghost on_offer = texts(allowed@);
    let mut out: Vec<String> = Vec::new();
    proof {
        crate::json::lemma_list_view(fields@);
        assert(all.skip(0) =~= all);
    }
    for i in 0..fields.len()
        invariant
            all == list_view(fields@),
            all.len() == fields@.len(),
            on_offer == texts(allowed@),
            forall|k: int| 0 <= k < all.len() ==> #[trigger] all[k] == fields@[k]@,
            fields_fault(all, on_offer) == fields_fault(all.skip(i as int), on_offer),
            texts(out@) == field_names(all).take(i as int),
            payload@.list_at("fields"@) == Some(all),
    {
        let ghost before = texts(out@);
        assert(all.skip(i as int)[0] == all[i as int]);
        let field = match fields[i].as_text() {
            Some(field) => field,
            None => return Err(HttpError::new(400, "fields must be strings".to_string())),
        };
        if !list_contains(allowed, field.as_str()) {
            return Err(
                HttpError::new(
                    403,
                    "field is not allowed for this secret: ".to_string().concat(field.as_str()),
                ),
            );
        }
        out.push(field.clone());
        assert(all.skip(i as int).skip(1) =~= all.skip(i + 1));
        assert(texts(out@) =~= before.push(field@));
        assert(field_names(all).take(i + 1) =~= field_names(all).take(i as int).push(field@));
    }
    assert(field_names(all).take(all.len() as int) =~= field_names(all));
    Ok(out)
}

proof fn lemma_fields_fault(fields: Seq<JsonView>, allowed: Seq<Seq<char>>)
    ensures
        match fields_fault(fields, allowed) {
            None => forall|i: int|
                0 <= i < fields.len() ==> #[trigger] fields[i] is Text && allowed.contains(
                    fields[i]->Text_0,
                ),
            Some(e) => exists|i: int|
                0 <= i < fields.len() && first_fault(fields, allowed, i) && fault_at(
                    #[trigger] fields[i],
                    e,
                ),
        },
    decreases fields.len(),
{
    if fields.len() > 0 {
        let rest = fields.skip(1);
        lemma_fields_fault(rest, allowed);
        if fields[0] is Text && allowed.contains(fields[0]->Text_0) {
            match fields_fault(fields, allowed) {
                None => {
                    assert forall|i: int| 0 <= i < fields.len() implies #[trigger] fields[i] is Text
                        && allowed.contains(fields[i]->Text_0) by {
                        if i > 0 {
                            assert(fields[i] == rest[i - 1]);
                        }
                    }
                },
                Some(e) => {
                    let i = choose|i: int|
                        0 <= i < rest.len() && first_fault(rest, allowed, i) && fault_at(
                            #[trigger] rest[i],
                            e,
                        );
                    assert(fields[i + 1] == rest[i]);
                    assert forall|j: int| 0 <= j < i + 1 implies #[trigger] fields[j] is Text
                        && allowed.contains(fields[j]->Text_0) by {
                        if j > 0 {
                            assert(fields[j] == rest[j - 1]);
                        }
                    }
                },
            }
        } else {
            assert(first_fault(fields, allowed, 0));
            assert(fault_at(fields[0], fields_fault(fields, allowed)->0));
        }
    }
}

/// Whether a place in a list of fields is the first at which no text stands, or
/// one that is not on offer.
pub open spec fn first_fault(fields: Seq<JsonView>, allowed: Seq<Seq<char>>, i: int) -> bool {
    &&& !(fields[i] is Text && allowed.contains(fields[i]->Text_0))
    &&& forall|j: int|
        0 <= j < i ==> #[trigger] fields[j] is Text && allowed.contains(fields[j]->Text_0)
}

/// Whether a refusal is the one for a field that is no text, or is not on offer.
pub open spec fn fault_at(field: JsonView, e: HttpErrorView) -> bool {
    match field {
        JsonView::Text(name) => e.status == 403 && e.message
            == "field is not allowed for this secret: "@ + name,
        _ => e.status == 400 && e.message == "fields must be strings"@,
    }
}

/// A request that names no fields gets all that are on offer. One that names
/// fields gets these, in the order named, where each is a text and on offer;
/// else it is refused for the first that is not.
pub proof fn law_fields_are_granted_as_asked(
    fields: Option<Seq<JsonView>>,
    allowed: Seq<Seq<char>>,
)
    ensures
        match fields_for(fields, allowed) {
            Ok(names) => match fields {
                None => names == allowed,
                Some(list) => names.len() == list.len() && forall|i: int|
                    0 <= i < list.len() ==> #[trigger] list[i] == JsonView::Text(names[i])
                        && allowed.contains(names[i]),
            },
            Err(e) => fields is Some && exists|i: int|
                0 <= i < fields->0.len() && first_fault(fields->0, allowed, i) && fault_at(
                    #[trigger] fields->0[i],
                    e,
                ),
        },
        fields is None ==> fields_for(fields, allowed) is Ok,
        fields is Some && (forall|i: int|
            0 <= i < fields->0.len() ==> #[trigger] fields->0[i] is Text && allowed.contains(
                fields->0[i]->Text_0,
            )) ==> fields_for(fields, allowed) is Ok,
{
    if let Some(list) = fields {
        lemma_fields_fault(list, allowed);
        if fields_for(fields, allowed) is Ok {
            let names = fields_for(fields, allowed)->Ok_0;
            assert forall|i: int| 0 <= i < list.len() implies #[trigger] list[i] == JsonView::Text(
                names[i],
            ) && allowed.contains(names[i]) by {
                assert(list[i] is Text);
                assert(names[i] == list[i]->Text_0);
            }
        }
    }
}

/// A request says which secret it is about and for what purpose, in texts that
/// are not empty; it may name a run and fields. It is taken to say just that.
pub proof fn law_ask_is_what_was_sent(payload: JsonView)
    ensures
        ({
            let secret_id = payload.text_at("secret_id"@);
            let purpose = payload.text_at("purpose"@);
            let run_id = payload.text_at("run_id"@);
            match ask_in(payload) {
                Ok(ask) => {
                    &&& secret_id == Some(ask.secret_id) && ask.secret_id.len() > 0
                    &&& purpose == Some(ask.purpose) && ask.purpose.len() > 0
                    &&& run_id == Some(ask.run_id) || run_id is None && ask.run_id.len() == 0
                    &&& ask.fields == payload.list_at("fields"@)
                },
                Err(e) => {
                    &&& e.status == 400
                    &&& secret_id is None || secret_id->0.len() == 0 <==> e.message
                        == "missing secret_id"@
                    &&& secret_id is Some && secret_id->0.len() > 0 ==> e.message
                        == "missing purpose"@ && (purpose is None || purpose->0.len() == 0)
                },
            }
        }),
        payload.text_at("secret_id"@) is Some && payload.text_at("secret_id"@)->0.len() > 0
            && payload.text_at("purpose"@) is Some && payload.text_at("purpose"@)->0.len() > 0
            ==> ask_in(payload) is Ok,
{
    reveal_strlit("missing secret_id");
    reveal_strlit("missing purpose");
    assert("missing secret_id"@.len() == 17 && "missing purpose"@.len() == 15);
}

/// The body of a request is read as JSON; one that is none is refused as such.
pub proof fn law_body_is_read_as_json(body: Seq<u8>)
    ensures
        match json_text(body) {
            Ok(payload) => ask_of(body) == ask_in(payload),
            Err(_) => ask_of(body) is Err && ask_of(body)->Err_0.status == 400 && ask_of(
                body,
            )->Err_0.message == "invalid JSON request body"@,
        },
{
}

/// A request has a sender exactly where it names a client that is known and its
/// signature under that client's secret holds; otherwise it is refused as not
/// authorised, and told why.
pub proof fn law_sender_is_who_signed(
    config: Config,
    method: Seq<char>,
    target: Seq<char>,
    lines: Map<Seq<char>, Seq<u8>>,
    body: Seq<u8>,
    now: int,
)
    ensures
        ({
            let named = header_text(lines, HEADER_CLIENT@);
            let client = client_named(config.signing.clients@, named->Ok_0);
            let verified = verification(
                client->0.secret@,
                method,
                target,
                lines,
                body,
                config.signing.max_skew_seconds as int,
                now,
            );
            match caller_of(config, method, target, lines, body, now) {
                Ok(caller) => {
                    &&& named == Ok::<Seq<char>, SigningErrorView>(caller.client_id)
                    &&& client is Some && caller.client == client->0@
                    &&& verified is Ok && caller.nonce == verified->Ok_0.1
                },
                Err(e) => {
                    &&& e.status == 401
                    &&& named is Err ==> e.message == "missing client id"@
                    &&& named is Ok && client is None ==> e.message == "unknown client id"@
                    &&& named is Ok && client is Some ==> verified is Err && e.message
                        == verified->Err_0.message()
                },
            }
        }),
{
}

/// A request for the catalog is signed as a `GET` without a body, one for a
/// secret as a `POST` with its body. What is signed for is the path with its
/// query, where the address has one.
pub proof fn law_what_is_signed(request: RequestView, query: Option<Seq<char>>, path: Seq<char>)
    ensures
        request.route == Route::Catalog ==> request.method() == "GET"@
            && request.signed_body().len() == 0,
        request.route == Route::Secret ==> request.method() == "POST"@ && request.signed_body()
            == request.body,
        query is Some ==> target_of(query, path) == query->0,
        query is None ==> target_of(query, path) == path,
{
}

} // verus!
