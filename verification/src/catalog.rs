//! The catalog: which vault items agents may ask for, under which names, and
//! what they are told of them.
use vstd::prelude::*;

use crate::config::{ClientApprovalMode, ClientConfig, ClientView};
use crate::json::{
    lemma_list_view, list_view, number_view, object_view, put, text_list_view, Json, JsonView,
};
use crate::text::{
    ascii_lower, chars_of, clone_list, has_prefix, joined, law_joined_in_parts, list_contains,
    lower_char, string_of, strip_prefix, texts, to_lower,
};
use crate::textmap::{
    entries_map, has_key, lemma_entries_keys, lemma_entries_value, lemma_text_lt_irreflexive,
    TextMap,
};

verus! {

/// What the broker offers: entries by name.
#[derive(Debug)]
pub struct Catalog {
    pub version: u8,
    pub secrets: TextMap<CatalogEntry>,
}

/// One vault item on offer. It holds no secret value.
#[derive(Debug)]
pub struct CatalogEntry {
    pub item_id: String,
    pub kind: String,
    pub description: String,
    pub return_fields: Vec<String>,
    pub approval_required: bool,
    pub ttl_seconds: u64,
    pub allowed_clients: Vec<String>,
    pub metadata: Json,
}

/// A catalog entry, as mathematics.
pub struct EntryView {
    pub item_id: Seq<char>,
    pub kind: Seq<char>,
    pub description: Seq<char>,
    pub return_fields: Seq<Seq<char>>,
    pub approval_required: bool,
    pub ttl_seconds: u64,
    pub allowed_clients: Seq<Seq<char>>,
    pub metadata: JsonView,
}

impl View for CatalogEntry {
    type V = EntryView;

    open spec fn view(&self) -> EntryView {
        EntryView {
            item_id: self.item_id@,
            kind: self.kind@,
            description: self.description@,
            return_fields: texts(self.return_fields@),
            approval_required: self.approval_required,
            ttl_seconds: self.ttl_seconds,
            allowed_clients: texts(self.allowed_clients@),
            metadata: self.metadata@,
        }
    }
}

impl Clone for CatalogEntry {
    fn clone(&self) -> (r: CatalogEntry)
        ensures
            r@ == self@,
    {
        CatalogEntry {
            item_id: self.item_id.clone(),
            kind: self.kind.clone(),
            description: self.description.clone(),
            return_fields: clone_list(&self.return_fields),
            approval_required: self.approval_required,
            ttl_seconds: self.ttl_seconds,
            allowed_clients: clone_list(&self.allowed_clients),
            metadata: self.metadata.clone(),
        }
    }
}

/// The entries of a catalog by name.
pub open spec fn secrets_view(entries: Seq<(String, CatalogEntry)>) -> Map<Seq<char>, EntryView> {
    entries_map(entries).map_values(|e: CatalogEntry| e@)
}

impl Catalog {
    /// The entries by name.
    pub open spec fn by_name(self) -> Map<Seq<char>, EntryView> {
        secrets_view(self.secrets.pairs())
    }
}

/// How many seconds a released value may be used, where nothing else is said.
pub fn default_ttl() -> (r: u64)
    ensures
        r == 60,
{
    60
}

/// A catalog without entries.
pub fn empty_catalog() -> (r: Catalog)
    ensures
        r.version == 1,
        r.by_name() == Map::<Seq<char>, EntryView>::empty(),
        r.secrets.sorted(),
{
    let r = Catalog { version: 1, secrets: TextMap::new() };
    assert(r.by_name() =~= Map::<Seq<char>, EntryView>::empty());
    r
}

/// An ASCII letter or digit.
pub open spec fn is_alnum(c: char) -> bool {
    'a' <= c <= 'z' || 'A' <= c <= 'Z' || '0' <= c <= '9'
}

/// The maximal runs of ASCII letters and digits in a text, in lower case.
pub open spec fn words(s: Seq<char>) -> Seq<Seq<char>>
    decreases s.len(),
{
    if s.len() == 0 {
        Seq::empty()
    } else {
        let front = s.drop_last();
        let c = s.last();
        if !is_alnum(c) {
            words(front)
        } else if front.len() > 0 && is_alnum(front.last()) {
            words(front).drop_last().push(words(front).last().push(lower_char(c)))
        } else {
            words(front).push(seq![lower_char(c)])
        }
    }
}

/// A name made of the words of a text, with underscores between them; `secret`
/// for a text without words.
pub open spec fn slug(s: Seq<char>) -> Seq<char> {
    if words(s).len() == 0 {
        "secret"@
    } else {
        joined(words(s), seq!['_'])
    }
}

proof fn lemma_words(s: Seq<char>)
    ensures
        s.len() > 0 && is_alnum(s.last()) ==> words(s).len() > 0,
        forall|i: int| 0 <= i < words(s).len() ==> (#[trigger] words(s)[i]).len() > 0,
        words(s).len() == 0 <==> joined(words(s), seq!['_']).len() == 0,
    decreases s.len(),
{
    if s.len() > 0 {
        lemma_words(s.drop_last());
    }
    if words(s).len() > 1 {
        assert(joined(words(s), seq!['_']).len() >= 1);
    }
}

proof fn lemma_joined_push(pieces: Seq<Seq<char>>, sep: Seq<char>, piece: Seq<char>)
    ensures
        pieces.len() == 0 ==> joined(pieces.push(piece), sep) == piece,
        pieces.len() > 0 ==> joined(pieces.push(piece), sep) == joined(pieces, sep) + sep + piece,
{
    assert(pieces.push(piece).drop_last() =~= pieces);
}

proof fn lemma_joined_grow(pieces: Seq<Seq<char>>, sep: Seq<char>, c: char)
    requires
        pieces.len() > 0,
    ensures
        joined(pieces.drop_last().push(pieces.last().push(c)), sep) == joined(pieces, sep).push(c),
{
    let grown = pieces.drop_last().push(pieces.last().push(c));
    assert(grown.drop_last() =~= pieces.drop_last());
    if pieces.len() == 1 {
        assert(joined(grown, sep) =~= joined(pieces, sep).push(c));
    } else {
        assert(joined(grown, sep) =~= joined(pieces, sep).push(c));
    }
}

/// Makes a name of a text.
pub fn slugify(value: &str) -> (r: String)
    ensures
        r@ == slug(value@),
{
    let mut out = String::new();
    let mut in_word = false;
    for c in it: value.chars()
        invariant
            it.seq() == value@,
            out@ == joined(words(value@.take(it.index() as int)), seq!['_']),
            in_word == (it.index() > 0 && is_alnum(value@[it.index() - 1])),
    {
        let ghost k = it.index() as int;
        let ghost done = value@.take(k);
        proof {
            lemma_words(done);
            assert(value@.take(k + 1).drop_last() =~= done);
            assert(value@.take(k + 1).last() == c);
            if k > 0 {
                assert(done.last() == value@[k - 1]);
            }
        }
        if ('a' <= c && c <= 'z') || ('A' <= c && c <= 'Z') || ('0' <= c && c <= '9') {
            let low = to_lower(c);
            proof {
                if in_word {
                    lemma_joined_grow(words(done), seq!['_'], low);
                } else {
                    lemma_joined_push(words(done), seq!['_'], seq![low]);
                }
            }
            if !in_word && !out.as_str().is_empty() {
                out.push('_');
            }
            out.push(low);
            assert(out@ =~= joined(words(value@.take(k + 1)), seq!['_']));
            in_word = true;
        } else {
            in_word = false;
        }
    }
    proof {
        assert(value@.take(value@.len() as int) =~= value@);
        lemma_words(value@);
    }
    if out.as_str().is_empty() {
        "secret".to_string()
    } else {
        out
    }
}

/// What kind of item a type number of the vault stands for.
pub open spec fn kind_name(value: i64) -> Seq<char> {
    if value == 1 {
        "login"@
    } else if value == 2 {
        "secure_note"@
    } else if value == 3 {
        "card"@
    } else if value == 4 {
        "identity"@
    } else {
        "item"@
    }
}

/// The kind of item that a type number of the vault stands for.
pub fn item_kind(value: i64) -> (r: &'static str)
    ensures
        r@ == kind_name(value),
{
    match value {
        1 => "login",
        2 => "secure_note",
        3 => "card",
        4 => "identity",
        _ => "item",
    }
}

/// The addresses in a list of login addresses that are texts and not empty.
pub open spec fn url_texts(uris: Seq<JsonView>) -> Seq<Seq<char>>
    decreases uris.len(),
{
    if uris.len() == 0 {
        Seq::empty()
    } else {
        let front = url_texts(uris.drop_last());
        match uris.last().text_at("uri"@) {
            Some(url) => if url.len() > 0 {
                front.push(url)
            } else {
                front
            },
            None => front,
        }
    }
}

/// The login addresses of an item.
pub open spec fn item_urls(item: JsonView) -> Seq<Seq<char>> {
    match item.member_or_null("login"@).list_at("uris"@) {
        Some(uris) => url_texts(uris),
        None => Seq::empty(),
    }
}

/// Collects the login addresses of an item.
pub fn login_urls(item: &Json) -> (r: Vec<String>)
    ensures
        texts(r@) == item_urls(item@),
{
    let mut out: Vec<String> = Vec::new();
    let uris = match item.get("login") {
        Some(login) => login.list_at("uris"),
        None => None,
    };
    if let Some(uris) = uris {
        for i in 0..uris.len()
            invariant
                texts(out@) == url_texts(list_view(uris@).take(i as int)),
        {
            proof {
                lemma_list_view(uris@);
                assert(list_view(uris@).take(i + 1).drop_last() =~= list_view(uris@).take(
                    i as int,
                ));
            }
            let ghost before = out@;
            if let Some(url) = uris[i].text_at("uri") {
                if !url.as_str().is_empty() {
                    out.push(url.clone());
                    assert(texts(out@) =~= texts(before).push(url@));
                }
            }
        }
        proof {
            lemma_list_view(uris@);
            assert(list_view(uris@).take(uris@.len() as int) =~= list_view(uris@));
        }
    }
    assert(texts(out@) =~= item_urls(item@));
    out
}

/// The field names for the custom fields of an item that have a name.
pub open spec fn custom_names(fields: Seq<JsonView>) -> Seq<Seq<char>>
    decreases fields.len(),
{
    if fields.len() == 0 {
        Seq::empty()
    } else {
        let front = custom_names(fields.drop_last());
        match fields.last().text_at("name"@) {
            Some(name) => front.push("custom."@ + name),
            None => front,
        }
    }
}

/// A list with one text or none.
pub open spec fn text_if(condition: bool, s: Seq<char>) -> Seq<Seq<char>> {
    if condition {
        seq![s]
    } else {
        Seq::empty()
    }
}

/// The fields of an item that hold something, custom ones last.
pub open spec fn present_fields(item: JsonView) -> Seq<Seq<char>> {
    let login = item.member_or_null("login"@);
    text_if(login.member_or_null("username"@) !is Null, "username"@) + text_if(
        login.member_or_null("password"@) !is Null,
        "password"@,
    ) + text_if(login.list_at("uris"@) is Some && login.list_at("uris"@)->0.len() > 0, "uris"@)
        + text_if(login.member_or_null("totp"@) !is Null, "totp"@) + text_if(
        item.member_or_null("notes"@) !is Null,
        "notes"@,
    ) + match item.list_at("fields"@) {
        Some(fields) => custom_names(fields),
        None => Seq::empty(),
    }
}

/// The fields that are offered of an item: those that hold something, or its
/// name where none does.
pub open spec fn offered_fields(item: JsonView) -> Seq<Seq<char>> {
    if present_fields(item).len() == 0 {
        seq!["name"@]
    } else {
        present_fields(item)
    }
}

fn push_if(list: &mut Vec<String>, condition: bool, s: &str)
    ensures
        texts(final(list)@) == texts(old(list)@) + text_if(condition, s@),
{
    if condition {
        list.push(s.to_string());
    }
    assert(texts(list@) =~= texts(old(list)@) + text_if(condition, s@));
}

/// Collects the fields that are offered of an item.
pub fn infer_return_fields(item: &Json) -> (r: Vec<String>)
    ensures
        texts(r@) == offered_fields(item@),
{
    let null = Json::Null;
    let login = match item.get("login") {
        Some(login) => login,
        None => &null,
    };
    let mut fields: Vec<String> = Vec::new();
    push_if(&mut fields, !login.null_at("username"), "username");
    push_if(&mut fields, !login.null_at("password"), "password");
    let has_uris = match login.list_at("uris") {
        Some(uris) => {
            proof {
                lemma_list_view(uris@);
            }
            uris.len() > 0
        },
        None => false,
    };
    push_if(&mut fields, has_uris, "uris");
    push_if(&mut fields, !login.null_at("totp"), "totp");
    push_if(&mut fields, !item.null_at("notes"), "notes");
    let ghost fixed = texts(fields@);
    if let Some(custom) = item.list_at("fields") {
        for i in 0..custom.len()
            invariant
                texts(fields@) == fixed + custom_names(list_view(custom@).take(i as int)),
        {
            proof {
                lemma_list_view(custom@);
                assert(list_view(custom@).take(i + 1).drop_last() =~= list_view(custom@).take(
                    i as int,
                ));
            }
            let ghost before = fields@;
            if let Some(name) = custom[i].text_at("name") {
                fields.push("custom.".to_string().concat(name.as_str()));
                assert(texts(fields@) =~= texts(before).push("custom."@ + name@));
                assert(texts(fields@) =~= fixed + custom_names(
                    list_view(custom@).take(i + 1),
                ));
            }
        }
        proof {
            lemma_list_view(custom@);
            assert(list_view(custom@).take(custom@.len() as int) =~= list_view(custom@));
        }
    }
    assert(texts(fields@) =~= present_fields(item@));
    if fields.len() == 0 {
        fields.push("name".to_string());
        assert(texts(fields@) =~= seq!["name"@]);
    }
    fields
}

/// The id of a vault item; empty where it has none.
pub open spec fn item_id_text(item: JsonView) -> Seq<char> {
    match item.text_at("id"@) {
        Some(id) => id,
        None => Seq::empty(),
    }
}

/// The name of a vault item; `secret` where it has none.
pub open spec fn item_name_text(item: JsonView) -> Seq<char> {
    match item.text_at("name"@) {
        Some(name) => name,
        None => "secret"@,
    }
}

/// The kind of a vault item.
pub open spec fn item_kind_text(item: JsonView) -> Seq<char> {
    kind_name(
        match item.member_or_null("type"@).as_int() {
            Some(n) => n,
            None => 0,
        },
    )
}

/// Whether a vault item gets into the catalog: it is not deleted and has an id.
pub open spec fn on_offer(item: JsonView) -> bool {
    item.member_or_null("deletedDate"@) is Null && item_id_text(item).len() > 0
}

/// Whether an item on offer has a name that makes a given catalog name.
pub open spec fn name_taken(items: Seq<JsonView>, name: Seq<char>) -> bool {
    exists|i: int|
        0 <= i < items.len() && on_offer(#[trigger] items[i]) && slug(item_name_text(items[i]))
            == name
}

/// The start of a text: its first eight characters, or all of them.
pub open spec fn first_eight(s: Seq<char>) -> Seq<char> {
    if s.len() <= 8 {
        s
    } else {
        s.take(8)
    }
}

/// The catalog name of an item: made of its own name, with the start of its id
/// behind it where an earlier item took that name.
pub open spec fn alias(earlier: Seq<JsonView>, item: JsonView) -> Seq<char> {
    let name = slug(item_name_text(item));
    if name_taken(earlier, name) {
        name + seq!['_'] + first_eight(item_id_text(item))
    } else {
        name
    }
}

/// What the catalog notes of an item besides.
pub open spec fn item_metadata(item: JsonView) -> JsonView {
    JsonView::Object(
        map![
            "organization_id"@ => item.member_or_null("organizationId"@),
            "collection_ids"@ => match item.member("collectionIds"@) {
                Some(ids) => ids,
                None => JsonView::List(Seq::empty()),
            },
            "login_urls"@ => text_list_view(item_urls(item)),
        ],
    )
}

/// The catalog entry of an item.
pub open spec fn entry_of(
    item: JsonView,
    allowed_clients: Seq<Seq<char>>,
    redact_names: bool,
    ttl_seconds: u64,
) -> EntryView {
    EntryView {
        item_id: item_id_text(item),
        kind: item_kind_text(item),
        description: if redact_names {
            item_kind_text(item) + " item"@
        } else {
            item_name_text(item)
        },
        return_fields: offered_fields(item),
        approval_required: true,
        ttl_seconds,
        allowed_clients,
        metadata: item_metadata(item),
    }
}

/// The catalog of a list of items: each item on offer under its name, a later
/// one in place of an earlier one with the same name.
pub open spec fn catalog_of(
    items: Seq<JsonView>,
    allowed_clients: Seq<Seq<char>>,
    redact_names: bool,
    ttl_seconds: u64,
) -> Map<Seq<char>, EntryView>
    decreases items.len(),
{
    if items.len() == 0 {
        Map::empty()
    } else {
        let front = items.drop_last();
        let item = items.last();
        let before = catalog_of(front, allowed_clients, redact_names, ttl_seconds);
        if on_offer(item) {
            before.insert(
                alias(front, item),
                entry_of(item, allowed_clients, redact_names, ttl_seconds),
            )
        } else {
            before
        }
    }
}

fn text_or(item: &Json, key: &str, fallback: &str) -> (r: String)
    ensures
        r@ == match item@.text_at(key@) {
            Some(s) => s,
            None => fallback@,
        },
{
    match item.text_at(key) {
        Some(s) => s.clone(),
        None => fallback.to_string(),
    }
}

fn build_metadata(item: &Json) -> (r: Json)
    ensures
        r@ == item_metadata(item@),
{
    let mut metadata: TextMap<Json> = TextMap::new();
    put(&mut metadata, "organization_id", item.copy_at("organizationId"));
    let collection_ids = match item.get("collectionIds") {
        Some(ids) => ids.clone(),
        None => Json::List(Vec::new()),
    };
    put(&mut metadata, "collection_ids", collection_ids);
    put(&mut metadata, "login_urls", Json::text_list(&login_urls(item)));
    Json::Object(metadata)
}

fn build_entry(
    item: &Json,
    allowed_clients: &[String],
    redact_names: bool,
    ttl_seconds: u64,
) -> (r: CatalogEntry)
    ensures
        r@ == entry_of(item@, texts(allowed_clients@), redact_names, ttl_seconds),
{
    proof {
        reveal_strlit("");
        assert(""@ =~= Seq::<char>::empty());
    }
    let number: i64 = match item.get("type") {
        Some(value) => match value.as_int() {
            Some(n) => n,
            None => 0,
        },
        None => 0,
    };
    let kind = item_kind(number).to_string();
    let description = if redact_names {
        kind.clone().concat(" item")
    } else {
        text_or(item, "name", "secret")
    };
    CatalogEntry {
        item_id: text_or(item, "id", ""),
        kind,
        description,
        return_fields: infer_return_fields(item),
        approval_required: true,
        ttl_seconds,
        allowed_clients: clone_list(allowed_clients),
        metadata: build_metadata(item),
    }
}

/// Builds the catalog of a list of vault items.
pub fn build_catalog(
    items: &[Json],
    allowed_clients: Vec<String>,
    redact_names: bool,
    default_ttl_seconds: u64,
) -> (r: Catalog)
    ensures
        r.version == 1,
        r.by_name() == catalog_of(
            list_view(items@),
            texts(allowed_clients@),
            redact_names,
            default_ttl_seconds,
        ),
        r.secrets.sorted(),
{
    let ghost all = list_view(items@);
    proof {
        reveal_strlit("");
        assert(""@ =~= Seq::<char>::empty());
        lemma_list_view(items@);
    }
    let mut taken: Vec<String> = Vec::new();
    let mut secrets: TextMap<CatalogEntry> = TextMap::new();
    assert(secrets_view(secrets.pairs()) =~= catalog_of(
        all.take(0),
        texts(allowed_clients@),
        redact_names,
        default_ttl_seconds,
    ));
    for i in 0..items.len()
        invariant
            all == list_view(items@),
            all.len() == items@.len(),
            secrets.sorted(),
            forall|name: Seq<char>|
                #[trigger] texts(taken@).contains(name) == name_taken(all.take(i as int), name),
            secrets_view(secrets.pairs()) == catalog_of(
                all.take(i as int),
                texts(allowed_clients@),
                redact_names,
                default_ttl_seconds,
            ),
    {
        let item = &items[i];
        let ghost front = all.take(i as int);
        let ghost next = all.take(i + 1);
        proof {
            reveal_strlit("");
            assert(""@ =~= Seq::<char>::empty());
            lemma_list_view(items@);
            assert(next.drop_last() =~= front);
            assert(next.last() == item@);
            lemma_name_taken(front, item@);
            assert(front.push(item@) =~= next);
        }
        let item_id = text_or(item, "id", "");
        if item.null_at("deletedDate") && !item_id.as_str().is_empty() {
            assert(on_offer(item@));
            let name = text_or(item, "name", "secret");
            let base = slugify(name.as_str());
            let mut alias_name = base.clone();
            if list_contains(&taken, base.as_str()) {
                let id_chars = chars_of(item_id.as_str());
                let cut: usize = if id_chars.len() <= 8 {
                    id_chars.len()
                } else {
                    8
                };
                alias_name.push('_');
                alias_name.append(string_of(&id_chars, 0, cut).as_str());
                assert(alias_name@ =~= base@ + seq!['_'] + first_eight(item_id@));
            }
            assert(alias_name@ == alias(front, item@));
            let ghost taken_before = taken@;
            taken.push(base);
            proof {
                assert(texts(taken@) =~= texts(taken_before).push(base@));
                assert forall|n: Seq<char>| #[trigger]
                    texts(taken@).contains(n) == name_taken(next, n) by {
                    lemma_push_contains(texts(taken_before), base@, n);
                    assert(texts(taken_before).contains(n) == name_taken(front, n));
                }
            }
            let entry = build_entry(item, &allowed_clients, redact_names, default_ttl_seconds);
            let ghost entries_before = secrets.pairs();
            let ghost entry_view = entry@;
            secrets.insert(alias_name, entry);
            assert(secrets_view(secrets.pairs()) =~= secrets_view(entries_before).insert(
                alias(front, item@),
                entry_view,
            ));
        } else {
            assert(!on_offer(item@));
            assert forall|n: Seq<char>| #[trigger]
                texts(taken@).contains(n) == name_taken(next, n) by {
                assert(texts(taken@).contains(n) == name_taken(front, n));
            }
        }
    }
    assert(all.take(all.len() as int) =~= all);
    Catalog { version: 1, secrets }
}

proof fn lemma_push_contains(list: Seq<Seq<char>>, x: Seq<char>, y: Seq<char>)
    ensures
        list.push(x).contains(y) == (list.contains(y) || x == y),
{
    if list.contains(y) {
        let i = choose|i: int| 0 <= i < list.len() && list[i] == y;
        assert(list.push(x)[i] == y);
    }
    if x == y {
        assert(list.push(x)[list.len() as int] == y);
    }
    if list.push(x).contains(y) && x != y {
        let i = choose|i: int| 0 <= i < list.push(x).len() && list.push(x)[i] == y;
        assert(list[i] == y);
    }
}

proof fn lemma_name_taken(items: Seq<JsonView>, item: JsonView)
    ensures
        forall|n: Seq<char>| #[trigger]
            name_taken(items.push(item), n) == (name_taken(items, n) || (on_offer(item) && slug(
                item_name_text(item),
            ) == n)),
{
    assert forall|n: Seq<char>| #[trigger]
        name_taken(items.push(item), n) == (name_taken(items, n) || (on_offer(item) && slug(
            item_name_text(item),
        ) == n)) by {
        let more = items.push(item);
        if name_taken(items, n) {
            let i = choose|i: int|
                0 <= i < items.len() && on_offer(#[trigger] items[i]) && slug(
                    item_name_text(items[i]),
                ) == n;
            assert(more[i] == items[i]);
        }
        if on_offer(item) && slug(item_name_text(item)) == n {
            assert(more[items.len() as int] == item);
        }
        if name_taken(more, n) && !(on_offer(item) && slug(item_name_text(item)) == n) {
            let i = choose|i: int|
                0 <= i < more.len() && on_offer(#[trigger] more[i]) && slug(
                    item_name_text(more[i]),
                ) == n;
            assert(items[i] == more[i]);
        }
    }
}

/// The values of the login addresses of an item.
pub open spec fn uri_values(uris: Seq<JsonView>) -> Seq<JsonView>
    decreases uris.len(),
{
    if uris.len() == 0 {
        Seq::empty()
    } else {
        let front = uri_values(uris.drop_last());
        match uris.last().member("uri"@) {
            Some(uri) => front.push(uri),
            None => front,
        }
    }
}

/// The values of the login addresses of an item; none where it has no list of
/// them.
pub open spec fn item_uris(item: JsonView) -> Seq<JsonView> {
    match item.member_or_null("login"@).list_at("uris"@) {
        Some(uris) => uri_values(uris),
        None => Seq::empty(),
    }
}

/// The value of the first custom field that has a given name and a value.
pub open spec fn custom_value(fields: Seq<JsonView>, name: Seq<char>) -> JsonView
    decreases fields.len(),
{
    if fields.len() == 0 {
        JsonView::Null
    } else if fields[0].text_at("name"@) == Some(name) && fields[0].member("value"@) is Some {
        fields[0].member("value"@)->0
    } else {
        custom_value(fields.drop_first(), name)
    }
}

/// The value of a field of an item; null where the item has nothing there, and
/// for a name that no field has.
pub open spec fn field_value(item: JsonView, field: Seq<char>) -> JsonView {
    let login = item.member_or_null("login"@);
    if field == "name"@ {
        item.member_or_null("name"@)
    } else if field == "username"@ {
        login.member_or_null("username"@)
    } else if field == "password"@ {
        login.member_or_null("password"@)
    } else if field == "uris"@ {
        JsonView::List(item_uris(item))
    } else if field == "uri"@ {
        if item_uris(item).len() > 0 {
            item_uris(item)[0]
        } else {
            JsonView::Null
        }
    } else if field == "totp"@ {
        login.member_or_null("totp"@)
    } else if field == "notes"@ {
        item.member_or_null("notes"@)
    } else if has_prefix(field, "custom."@) {
        match item.list_at("fields"@) {
            Some(fields) => custom_value(fields, field.skip("custom."@.len() as int)),
            None => JsonView::Null,
        }
    } else {
        JsonView::Null
    }
}

/// The requested fields of an item with their values.
pub open spec fn extracted(item: JsonView, fields: Seq<Seq<char>>) -> Map<Seq<char>, JsonView> {
    Map::new(|k: Seq<char>| fields.contains(k), |k: Seq<char>| field_value(item, k))
}

fn collect_uris(login: &Json) -> (r: Vec<Json>)
    ensures
        list_view(r@) == match login@.list_at("uris"@) {
            Some(uris) => uri_values(uris),
            None => Seq::empty(),
        },
{
    let mut out: Vec<Json> = Vec::new();
    if let Some(uris) = login.list_at("uris") {
        for i in 0..uris.len()
            invariant
                list_view(out@) == uri_values(list_view(uris@).take(i as int)),
        {
            proof {
                lemma_list_view(uris@);
                assert(list_view(uris@).take(i + 1).drop_last() =~= list_view(uris@).take(
                    i as int,
                ));
            }
            if let Some(uri) = uris[i].get("uri") {
                let ghost before = out@;
                out.push(uri.clone());
                assert(out@.drop_last() =~= before);
            }
        }
        proof {
            lemma_list_view(uris@);
            assert(list_view(uris@).take(uris@.len() as int) =~= list_view(uris@));
        }
    }
    out
}

/// The value of a custom field of an item.
pub fn custom_field_value(item: &Json, name: &str) -> (r: Json)
    ensures
        r@ == match item@.list_at("fields"@) {
            Some(fields) => custom_value(fields, name@),
            None => JsonView::Null,
        },
{
    let fields = match item.list_at("fields") {
        Some(fields) => fields,
        None => return Json::Null,
    };
    let ghost all = list_view(fields@);
    assert(all.skip(0) =~= all);
    for i in 0..fields.len()
        invariant
            all == list_view(fields@),
            item@.list_at("fields"@) == Some(all),
            custom_value(all, name@) == custom_value(all.skip(i as int), name@),
    {
        proof {
            lemma_list_view(fields@);
            assert(all.skip(i as int)[0] == all[i as int]);
            assert(all.skip(i as int).drop_first() =~= all.skip(i + 1));
        }
        if let Some(text) = fields[i].text_at("name") {
            if *text.as_str() == *name {
                if let Some(value) = fields[i].get("value") {
                    return value.clone();
                }
            }
        }
    }
    proof {
        lemma_list_view(fields@);
    }
    Json::Null
}

/// Reads one field of an item.
fn field_of(item: &Json, field: &str) -> (r: Json)
    ensures
        r@ == field_value(item@, field@),
{
    let null = Json::Null;
    let login = match item.get("login") {
        Some(login) => login,
        None => &null,
    };
    if *field == *"name" {
        item.copy_at("name")
    } else if *field == *"username" {
        login.copy_at("username")
    } else if *field == *"password" {
        login.copy_at("password")
    } else if *field == *"uris" {
        Json::List(collect_uris(login))
    } else if *field == *"uri" {
        let uris = collect_uris(login);
        proof {
            lemma_list_view(uris@);
        }
        if uris.len() > 0 {
            uris[0].clone()
        } else {
            Json::Null
        }
    } else if *field == *"totp" {
        login.copy_at("totp")
    } else if *field == *"notes" {
        item.copy_at("notes")
    } else {
        match strip_prefix(field, "custom.") {
            Some(name) => custom_field_value(item, name.as_str()),
            None => Json::Null,
        }
    }
}

/// Reads the requested fields of an item.
pub fn extract_fields(item: &Json, requested_fields: &[String]) -> (r: TextMap<Json>)
    ensures
        object_view(r) == extracted(item@, texts(requested_fields@)),
        r.sorted(),
{
    let ghost fields = texts(requested_fields@);
    let mut out: TextMap<Json> = TextMap::new();
    assert(object_view(out) =~= extracted(item@, fields.take(0)));
    for i in 0..requested_fields.len()
        invariant
            fields == texts(requested_fields@),
            out.sorted(),
            object_view(out) == extracted(item@, fields.take(i as int)),
    {
        let value = field_of(item, requested_fields[i].as_str());
        put(&mut out, requested_fields[i].as_str(), value);
        proof {
            let field = fields[i as int];
            assert(fields.take(i + 1) =~= fields.take(i as int).push(field));
            assert forall|k: Seq<char>| #[trigger]
                fields.take(i + 1).contains(k) == (fields.take(i as int).contains(k) || k
                    == field) by {
                lemma_push_contains(fields.take(i as int), field, k);
            }
            assert(object_view(out) =~= extracted(item@, fields.take(i + 1)));
        }
    }
    assert(fields.take(fields.len() as int) =~= fields);
    out
}

/// Whether a list of names admits a name: by itself, or by `*`.
pub open spec fn admits(list: Seq<Seq<char>>, name: Seq<char>) -> bool {
    list.contains("*"@) || list.contains(name)
}

/// Whether a client may ask for secrets of a given name at all.
pub fn client_allows_secret(client: &ClientConfig, secret_id: &str) -> (r: bool)
    ensures
        r == admits(client@.allowed_secrets, secret_id@),
{
    list_contains(&client.allowed_secrets, "*") || list_contains(
        &client.allowed_secrets,
        secret_id,
    )
}

/// Whether an entry is open to a client: to all where it names none.
pub open spec fn entry_admits(entry: EntryView, client_id: Seq<char>) -> bool {
    entry.allowed_clients.len() == 0 || admits(entry.allowed_clients, client_id)
}

/// Whether an entry is open to a client.
pub fn entry_allows_client(entry: &CatalogEntry, client_id: &str) -> (r: bool)
    ensures
        r == entry_admits(entry@, client_id@),
{
    entry.allowed_clients.len() == 0 || list_contains(&entry.allowed_clients, "*")
        || list_contains(&entry.allowed_clients, client_id)
}

/// Whether a client may have the entry with a given name: both sides have to
/// agree.
pub open spec fn permitted(client: ClientView, name: Seq<char>, entry: EntryView) -> bool {
    admits(client.allowed_secrets, name) && entry_admits(entry, client.id)
}

/// Whether a request of a client for an entry is confirmed by the user.
pub open spec fn needs_approval(client: ClientView, entry: EntryView) -> bool {
    entry.approval_required && client.approval != ClientApprovalMode::Trusted
}

/// Whether a request of a client for an entry is confirmed by the user.
pub fn approval_needed(client: &ClientConfig, entry: &CatalogEntry) -> (r: bool)
    ensures
        r == needs_approval(client@, entry@),
{
    entry.approval_required && !client.approval.is_trusted()
}

/// What a client is told of an entry.
pub open spec fn entry_shown(client: ClientView, name: Seq<char>, entry: EntryView) -> JsonView {
    JsonView::Object(
        map![
            "id"@ => JsonView::Text(name),
            "kind"@ => JsonView::Text(entry.kind),
            "description"@ => JsonView::Text(entry.description),
            "login_urls"@ => match entry.metadata.member("login_urls"@) {
                Some(urls) => urls,
                None => JsonView::List(Seq::empty()),
            },
            "return_fields"@ => text_list_view(entry.return_fields),
            "approval_required"@ => JsonView::Bool(needs_approval(client, entry)),
            "ttl_seconds"@ => number_view(entry.ttl_seconds),
        ],
    )
}

/// What a client is told of the entries that it may have, in their order.
pub open spec fn entries_shown(client: ClientView, entries: Seq<(String, CatalogEntry)>) -> Seq<
    JsonView,
>
    decreases entries.len(),
{
    if entries.len() == 0 {
        Seq::empty()
    } else {
        let front = entries_shown(client, entries.drop_last());
        let (name, entry) = entries.last();
        if permitted(client, name@, entry@) {
            front.push(entry_shown(client, name@, entry@))
        } else {
            front
        }
    }
}

/// What a client is told of the catalog.
pub open spec fn catalog_shown(client: ClientView, catalog: Catalog) -> JsonView {
    JsonView::Object(
        map![
            "version"@ => number_view(catalog.version as u64),
            "secrets"@ => JsonView::List(entries_shown(client, catalog.secrets.pairs())),
        ],
    )
}

fn show_entry(client: &ClientConfig, name: &str, entry: &CatalogEntry) -> (r: Json)
    ensures
        r@ == entry_shown(client@, name@, entry@),
{
    let mut object: TextMap<Json> = TextMap::new();
    put(&mut object, "id", Json::text(name));
    put(&mut object, "kind", Json::text(entry.kind.as_str()));
    put(&mut object, "description", Json::text(entry.description.as_str()));
    let urls = match entry.metadata.get("login_urls") {
        Some(urls) => urls.clone(),
        None => Json::List(Vec::new()),
    };
    put(&mut object, "login_urls", urls);
    put(&mut object, "return_fields", Json::text_list(&entry.return_fields));
    put(&mut object, "approval_required", Json::Bool(approval_needed(client, entry)));
    put(&mut object, "ttl_seconds", Json::number(entry.ttl_seconds));
    Json::Object(object)
}

/// The part of the catalog that a client gets to see.
pub fn visible_catalog(catalog: &Catalog, client: &ClientConfig) -> (r: Json)
    ensures
        r@ == catalog_shown(client@, *catalog),
{
    let entries = catalog.secrets.entries();
    let mut secrets: Vec<Json> = Vec::new();
    for i in 0..entries.len()
        invariant
            entries@ == catalog.secrets.pairs(),
            list_view(secrets@) == entries_shown(client@, entries@.take(i as int)),
    {
        assert(entries@.take(i + 1).drop_last() =~= entries@.take(i as int));
        let name = entries[i].0.as_str();
        let entry = &entries[i].1;
        if client_allows_secret(client, name) && entry_allows_client(
            entry,
            client.id.as_str(),
        ) {
            let ghost before = secrets@;
            secrets.push(show_entry(client, name, entry));
            assert(secrets@.drop_last() =~= before);
        }
    }
    assert(entries@.take(entries@.len() as int) =~= entries@);
    let mut object: TextMap<Json> = TextMap::new();
    put(&mut object, "version", Json::number(catalog.version as u64));
    put(&mut object, "secrets", Json::List(secrets));
    Json::Object(object)
}

/// Why a client does not get an entry.
#[derive(Debug)]
pub enum CatalogError {
    UnknownSecret(String),
    NotAllowed,
}

/// A reason not to give a client an entry, as mathematics.
pub enum CatalogErrorView {
    UnknownSecret(Seq<char>),
    NotAllowed,
}

impl View for CatalogError {
    type V = CatalogErrorView;

    open spec fn view(&self) -> CatalogErrorView {
        match self {
            CatalogError::UnknownSecret(id) => CatalogErrorView::UnknownSecret(id@),
            CatalogError::NotAllowed => CatalogErrorView::NotAllowed,
        }
    }
}

impl CatalogErrorView {
    /// The message that is shown.
    pub open spec fn message(self) -> Seq<char> {
        match self {
            CatalogErrorView::UnknownSecret(id) => "unknown secret id: "@ + id,
            CatalogErrorView::NotAllowed => "client is not allowed to request this secret"@,
        }
    }
}

impl CatalogError {
    /// The message that is shown.
    pub fn message(&self) -> (r: String)
        ensures
            r@ == self@.message(),
    {
        match self {
            CatalogError::UnknownSecret(id) => "unknown secret id: ".to_string().concat(
                id.as_str(),
            ),
            CatalogError::NotAllowed => "client is not allowed to request this secret".to_string(),
        }
    }
}

/// The entry that a client gets for a name, or why it gets none.
pub open spec fn entry_for(
    secrets: Map<Seq<char>, EntryView>,
    client: ClientView,
    secret_id: Seq<char>,
) -> Result<EntryView, CatalogErrorView> {
    if !secrets.contains_key(secret_id) {
        Err(CatalogErrorView::UnknownSecret(secret_id))
    } else if !permitted(client, secret_id, secrets[secret_id]) {
        Err(CatalogErrorView::NotAllowed)
    } else {
        Ok(secrets[secret_id])
    }
}

/// Looks up the entry that a client asks for.
pub fn require_secret<'a>(catalog: &'a Catalog, client: &ClientConfig, secret_id: &str) -> (r:
    Result<&'a CatalogEntry, CatalogError>)
    ensures
        match r {
            Ok(entry) => entry_for(catalog.by_name(), client@, secret_id@) == Ok::<
                EntryView,
                CatalogErrorView,
            >(entry@),
            Err(e) => entry_for(catalog.by_name(), client@, secret_id@) == Err::<
                EntryView,
                CatalogErrorView,
            >(e@),
        },
{
    let entry = match catalog.secrets.get(secret_id) {
        Some(entry) => entry,
        None => return Err(CatalogError::UnknownSecret(secret_id.to_string())),
    };
    if !client_allows_secret(client, secret_id) || !entry_allows_client(
        entry,
        client.id.as_str(),
    ) {
        return Err(CatalogError::NotAllowed);
    }
    Ok(entry)
}

/// A catalog name consists of ASCII lower-case letters, digits and underscores,
/// and is not empty.
pub proof fn law_slug_alphabet(s: Seq<char>)
    ensures
        slug(s).len() > 0,
        forall|i: int|
            0 <= i < slug(s).len() ==> 'a' <= #[trigger] slug(s)[i] <= 'z' || '0' <= slug(s)[i]
                <= '9' || slug(s)[i] == '_',
{
    reveal_strlit("secret");
    lemma_words(s);
    lemma_words_alphabet(s);
    lemma_joined_alphabet(words(s));
}

spec fn slug_char(c: char) -> bool {
    'a' <= c <= 'z' || '0' <= c <= '9' || c == '_'
}

spec fn slug_chars(s: Seq<char>) -> bool {
    forall|i: int| 0 <= i < s.len() ==> slug_char(#[trigger] s[i])
}

proof fn lemma_words_alphabet(s: Seq<char>)
    ensures
        forall|i: int| 0 <= i < words(s).len() ==> slug_chars(#[trigger] words(s)[i]),
    decreases s.len(),
{
    if s.len() > 0 {
        let front = s.drop_last();
        lemma_words_alphabet(front);
        lemma_words(front);
    }
}

proof fn lemma_joined_alphabet(pieces: Seq<Seq<char>>)
    requires
        forall|i: int| 0 <= i < pieces.len() ==> slug_chars(#[trigger] pieces[i]),
    ensures
        slug_chars(joined(pieces, seq!['_'])),
    decreases pieces.len(),
{
    if pieces.len() > 1 {
        let front = pieces.drop_last();
        assert forall|i: int| 0 <= i < front.len() implies slug_chars(#[trigger] front[i]) by {
            assert(front[i] == pieces[i]);
        }
        lemma_joined_alphabet(front);
        assert(slug_chars(pieces[pieces.len() - 1]));
    }
}

/// A field that is offered of an item holds something, unless it is a custom
/// field or the name that stands in where nothing else is there.
#[verifier::rlimit(20)]
pub proof fn law_offered_field_holds_something(item: JsonView, field: Seq<char>)
    requires
        offered_fields(item).contains(field),
        field != "name"@,
        !has_prefix(field, "custom."@),
    ensures
        field_value(item, field) !is Null,
{
    reveal_strlit("name");
    reveal_strlit("username");
    reveal_strlit("password");
    reveal_strlit("uris");
    reveal_strlit("uri");
    reveal_strlit("totp");
    reveal_strlit("notes");
    let i = choose|i: int| 0 <= i < offered_fields(item).len() && offered_fields(item)[i] == field;
    let customs = match item.list_at("fields"@) {
        Some(fields) => custom_names(fields),
        None => Seq::empty(),
    };
    if let Some(fields) = item.list_at("fields"@) {
        lemma_custom_names(fields);
    }
    assert("username"@.len() == 8 && "password"@.len() == 8 && "uris"@.len() == 4);
    assert("username"@[0] == 'u' && "password"@[0] == 'p');
    assert("totp"@.len() == 4 && "totp"@[0] == 't' && "uris"@[0] == 'u' && "notes"@.len() == 5);
    assert("uri"@.len() == 3);
    if present_fields(item).len() > 0 {
        let fixed = present_fields(item).len() - customs.len();
        if i >= fixed {
            assert(present_fields(item)[i] == customs[i - fixed]);
            assert(has_prefix(customs[i - fixed], "custom."@));
        }
    }
}

proof fn lemma_custom_names(fields: Seq<JsonView>)
    ensures
        forall|i: int|
            0 <= i < custom_names(fields).len() ==> has_prefix(
                #[trigger] custom_names(fields)[i],
                "custom."@,
            ),
    decreases fields.len(),
{
    if fields.len() > 0 {
        let front = custom_names(fields.drop_last());
        lemma_custom_names(fields.drop_last());
        if let Some(name) = fields.last().text_at("name"@) {
            assert(("custom."@ + name).take("custom."@.len() as int) =~= "custom."@);
        }
        assert forall|i: int| 0 <= i < custom_names(fields).len() implies has_prefix(
            #[trigger] custom_names(fields)[i],
            "custom."@,
        ) by {
            if i < front.len() {
                assert(custom_names(fields)[i] == front[i]);
            }
        }
    }
}

/// Whether two items agree in all that is not secret: they may differ in user
/// name, password, one-time code, notes and the values of custom fields, as
/// long as the same of these are there.
pub open spec fn same_outline(a: JsonView, b: JsonView) -> bool {
    let login_a = a.member_or_null("login"@);
    let login_b = b.member_or_null("login"@);
    &&& (a.member_or_null("deletedDate"@) is Null) == (b.member_or_null("deletedDate"@) is Null)
    &&& a.text_at("id"@) == b.text_at("id"@)
    &&& a.text_at("name"@) == b.text_at("name"@)
    &&& a.member_or_null("type"@).as_int() == b.member_or_null("type"@).as_int()
    &&& a.member_or_null("organizationId"@) == b.member_or_null("organizationId"@)
    &&& a.member("collectionIds"@) == b.member("collectionIds"@)
    &&& login_a.list_at("uris"@) == login_b.list_at("uris"@)
    &&& (login_a.member_or_null("username"@) is Null) == (login_b.member_or_null(
        "username"@,
    ) is Null)
    &&& (login_a.member_or_null("password"@) is Null) == (login_b.member_or_null(
        "password"@,
    ) is Null)
    &&& (login_a.member_or_null("totp"@) is Null) == (login_b.member_or_null("totp"@) is Null)
    &&& (a.member_or_null("notes"@) is Null) == (b.member_or_null("notes"@) is Null)
    &&& match (a.list_at("fields"@), b.list_at("fields"@)) {
        (Some(x), Some(y)) => x.len() == y.len() && forall|i: int|
            0 <= i < x.len() ==> (#[trigger] x[i]).text_at("name"@) == y[i].text_at("name"@),
        (None, None) => true,
        _ => false,
    }
}

proof fn lemma_same_custom_names(x: Seq<JsonView>, y: Seq<JsonView>)
    requires
        x.len() == y.len(),
        forall|i: int|
            0 <= i < x.len() ==> (#[trigger] x[i]).text_at("name"@) == y[i].text_at("name"@),
    ensures
        custom_names(x) == custom_names(y),
    decreases x.len(),
{
    if x.len() > 0 {
        let (a, b) = (x.drop_last(), y.drop_last());
        assert forall|i: int| 0 <= i < a.len() implies (#[trigger] a[i]).text_at("name"@)
            == b[i].text_at("name"@) by {
            assert(a[i] == x[i] && b[i] == y[i]);
        }
        lemma_same_custom_names(a, b);
        assert(x[x.len() - 1].text_at("name"@) == y[x.len() - 1].text_at("name"@));
    }
}

/// The catalog holds no secret value: items that differ in secret values alone
/// have the same catalog.
pub proof fn law_catalog_holds_no_secret_value(
    items1: Seq<JsonView>,
    items2: Seq<JsonView>,
    allowed_clients: Seq<Seq<char>>,
    redact_names: bool,
    ttl_seconds: u64,
)
    requires
        items1.len() == items2.len(),
        forall|i: int| 0 <= i < items1.len() ==> same_outline(#[trigger] items1[i], items2[i]),
    ensures
        catalog_of(items1, allowed_clients, redact_names, ttl_seconds) == catalog_of(
            items2,
            allowed_clients,
            redact_names,
            ttl_seconds,
        ),
    decreases items1.len(),
{
    if items1.len() > 0 {
        let (front1, front2) = (items1.drop_last(), items2.drop_last());
        let (a, b) = (items1.last(), items2.last());
        assert(same_outline(items1[items1.len() - 1], items2[items1.len() - 1]));
        assert forall|i: int| 0 <= i < front1.len() implies same_outline(
            #[trigger] front1[i],
            front2[i],
        ) by {
            assert(front1[i] == items1[i] && front2[i] == items2[i]);
        }
        law_catalog_holds_no_secret_value(
            front1,
            front2,
            allowed_clients,
            redact_names,
            ttl_seconds,
        );
        if let (Some(x), Some(y)) = (a.list_at("fields"@), b.list_at("fields"@)) {
            lemma_same_custom_names(x, y);
        }
        assert(offered_fields(a) == offered_fields(b));
        assert(item_metadata(a) == item_metadata(b));
        let name = slug(item_name_text(a));
        assert(name_taken(front1, name) == name_taken(front2, name)) by {
            if name_taken(front1, name) {
                let i = choose|i: int|
                    0 <= i < front1.len() && on_offer(#[trigger] front1[i]) && slug(
                        item_name_text(front1[i]),
                    ) == name;
                assert(on_offer(front2[i]));
            }
            if name_taken(front2, name) {
                let i = choose|i: int|
                    0 <= i < front2.len() && on_offer(#[trigger] front2[i]) && slug(
                        item_name_text(front2[i]),
                    ) == name;
                assert(same_outline(front1[i], front2[i]));
                assert(on_offer(front1[i]));
            }
        }
    }
}

/// Whether a list of shown entries has one with a given name.
pub open spec fn listed(shown: Seq<JsonView>, name: Seq<char>) -> bool {
    exists|i: int| 0 <= i < shown.len() && (#[trigger] shown[i]).text_at("id"@) == Some(name)
}

proof fn lemma_entry_shown_id(client: ClientView, name: Seq<char>, entry: EntryView)
    ensures
        entry_shown(client, name, entry).text_at("id"@) == Some(name),
{
    reveal_strlit("id");
    reveal_strlit("kind");
    reveal_strlit("description");
    reveal_strlit("login_urls");
    reveal_strlit("return_fields");
    reveal_strlit("approval_required");
    reveal_strlit("ttl_seconds");
    assert("id"@.len() == 2);
    assert("kind"@.len() == 4);
    assert("description"@.len() == 11);
    assert("login_urls"@.len() == 10);
    assert("return_fields"@.len() == 13);
    assert("approval_required"@.len() == 17);
    assert("ttl_seconds"@.len() == 11);
}

proof fn lemma_entries_shown(client: ClientView, entries: Seq<(String, CatalogEntry)>)
    ensures
        forall|i: int|
            0 <= i < entries_shown(client, entries).len() ==> exists|j: int|
                0 <= j < entries.len() && permitted(
                    client,
                    (#[trigger] entries[j]).0@,
                    entries[j].1@,
                ) && #[trigger] entries_shown(client, entries)[i] == entry_shown(
                    client,
                    entries[j].0@,
                    entries[j].1@,
                ),
        forall|j: int|
            0 <= j < entries.len() && permitted(client, (#[trigger] entries[j]).0@, entries[j].1@)
                ==> entries_shown(client, entries).contains(
                entry_shown(client, entries[j].0@, entries[j].1@),
            ),
    decreases entries.len(),
{
    if entries.len() > 0 {
        let front = entries.drop_last();
        lemma_entries_shown(client, front);
        let shown = entries_shown(client, entries);
        let before = entries_shown(client, front);
        let (name, entry) = entries.last();
        assert forall|i: int| 0 <= i < shown.len() implies exists|j: int|
            0 <= j < entries.len() && permitted(
                client,
                (#[trigger] entries[j]).0@,
                entries[j].1@,
            ) && #[trigger] shown[i] == entry_shown(client, entries[j].0@, entries[j].1@) by {
            if i < before.len() {
                assert(shown[i] == before[i]);
                let j = choose|j: int|
                    0 <= j < front.len() && permitted(
                        client,
                        (#[trigger] front[j]).0@,
                        front[j].1@,
                    ) && before[i] == entry_shown(client, front[j].0@, front[j].1@);
                assert(entries[j] == front[j]);
            } else {
                assert(entries[entries.len() - 1] == (name, entry));
            }
        }
        assert forall|j: int|
            0 <= j < entries.len() && permitted(
                client,
                (#[trigger] entries[j]).0@,
                entries[j].1@,
            ) implies shown.contains(entry_shown(client, entries[j].0@, entries[j].1@)) by {
            if j < front.len() {
                assert(front[j] == entries[j]);
                let item = entry_shown(client, entries[j].0@, entries[j].1@);
                let i = choose|i: int| 0 <= i < before.len() && before[i] == item;
                assert(shown[i] == item);
            } else {
                assert(shown[before.len() as int] == entry_shown(client, name@, entry@));
            }
        }
    }
}

/// A client is told of exactly those entries that it gets when it asks for
/// them, and what it is told is what the entry says.
pub proof fn law_listed_is_what_is_granted(
    catalog: Catalog,
    client: ClientView,
    name: Seq<char>,
)
    requires
        catalog.secrets.sorted(),
    ensures
        listed(entries_shown(client, catalog.secrets.pairs()), name) == (entry_for(
            catalog.by_name(),
            client,
            name,
        ) is Ok),
        entry_for(catalog.by_name(), client, name) is Ok ==> entries_shown(
            client,
            catalog.secrets.pairs(),
        ).contains(
            entry_shown(client, name, entry_for(catalog.by_name(), client, name)->Ok_0),
        ),
{
    let entries = catalog.secrets.pairs();
    let shown = entries_shown(client, entries);
    lemma_entries_shown(client, entries);
    lemma_entries_keys(entries, name);
    assert forall|j: int| 0 <= j < entries.len() implies entries_map(entries).contains_key(
        (#[trigger] entries[j]).0@,
    ) && entries_map(entries)[entries[j].0@] == entries[j].1 by {
        assert forall|k: int| j < k < entries.len() implies (#[trigger] entries[k]).0@
            != entries[j].0@ by {
            lemma_text_lt_irreflexive(entries[j].0@);
        }
        lemma_entries_value(entries, j);
    }
    if listed(shown, name) {
        let i = choose|i: int|
            0 <= i < shown.len() && (#[trigger] shown[i]).text_at("id"@) == Some(name);
        let j = choose|j: int|
            0 <= j < entries.len() && permitted(
                client,
                (#[trigger] entries[j]).0@,
                entries[j].1@,
            ) && shown[i] == entry_shown(client, entries[j].0@, entries[j].1@);
        lemma_entry_shown_id(client, entries[j].0@, entries[j].1@);
        assert(entries[j].0@ == name);
    }
    if entry_for(catalog.by_name(), client, name) is Ok {
        assert(has_key(entries, name));
        let j = choose|j: int| 0 <= j < entries.len() && (#[trigger] entries[j]).0@ == name;
        let item = entry_shown(client, name, entries[j].1@);
        assert(permitted(client, entries[j].0@, entries[j].1@));
        assert(shown.contains(item));
        let i = choose|i: int| 0 <= i < shown.len() && shown[i] == item;
        lemma_entry_shown_id(client, name, entries[j].1@);
        assert(shown[i].text_at("id"@) == Some(name));
    }
}

/// Trust does not widen access: which entries a client gets does not depend on
/// its approval mode. Trust alone spares the confirmation.
pub proof fn law_trust_does_not_widen_access(
    secrets: Map<Seq<char>, EntryView>,
    client: ClientView,
    name: Seq<char>,
    entry: EntryView,
)
    ensures
        entry_for(
            secrets,
            ClientView { approval: ClientApprovalMode::Trusted, ..client },
            name,
        ) == entry_for(
            secrets,
            ClientView { approval: ClientApprovalMode::Prompt, ..client },
            name,
        ),
        !needs_approval(ClientView { approval: ClientApprovalMode::Trusted, ..client }, entry),
        needs_approval(ClientView { approval: ClientApprovalMode::Prompt, ..client }, entry)
            == entry.approval_required,
{
}

/// Whether no two items on offer have names that make the same catalog name.
pub open spec fn names_distinct(items: Seq<JsonView>) -> bool {
    forall|i: int, j: int|
        0 <= i < j < items.len() && on_offer(#[trigger] items[i]) && on_offer(#[trigger] items[j])
            ==> slug(item_name_text(items[i])) != slug(item_name_text(items[j]))
}

/// How many of a list of items are on offer.
pub open spec fn offer_count(items: Seq<JsonView>) -> nat
    decreases items.len(),
{
    if items.len() == 0 {
        0
    } else {
        offer_count(items.drop_last()) + if on_offer(items.last()) {
            1nat
        } else {
            0nat
        }
    }
}

/// Where names are distinct, the catalog has one entry for each item on offer,
/// under the item's own name, and no others.
pub proof fn law_each_item_has_its_entry(
    items: Seq<JsonView>,
    allowed_clients: Seq<Seq<char>>,
    redact_names: bool,
    ttl_seconds: u64,
)
    requires
        names_distinct(items),
    ensures
        ({
            let catalog = catalog_of(items, allowed_clients, redact_names, ttl_seconds);
            &&& forall|i: int|
                0 <= i < items.len() && on_offer(#[trigger] items[i]) ==> {
                    let name = slug(item_name_text(items[i]));
                    catalog.contains_key(name) && catalog[name] == entry_of(
                        items[i],
                        allowed_clients,
                        redact_names,
                        ttl_seconds,
                    )
                }
            &&& forall|name: Seq<char>| #[trigger]
                catalog.contains_key(name) ==> name_taken(items, name)
            &&& catalog.dom().finite()
            &&& catalog.dom().len() == offer_count(items)
        }),
    decreases items.len(),
{
    if items.len() > 0 {
        let front = items.drop_last();
        let item = items.last();
        let before = catalog_of(front, allowed_clients, redact_names, ttl_seconds);
        let catalog = catalog_of(items, allowed_clients, redact_names, ttl_seconds);
        let own = slug(item_name_text(item));
        assert(items[items.len() - 1] == item);
        assert forall|i: int, j: int|
            0 <= i < j < front.len() && on_offer(#[trigger] front[i]) && on_offer(
                #[trigger] front[j],
            ) implies slug(item_name_text(front[i])) != slug(item_name_text(front[j])) by {
            assert(front[i] == items[i] && front[j] == items[j]);
        }
        law_each_item_has_its_entry(front, allowed_clients, redact_names, ttl_seconds);
        if on_offer(item) {
            if name_taken(front, own) {
                let i = choose|i: int|
                    0 <= i < front.len() && on_offer(#[trigger] front[i]) && slug(
                        item_name_text(front[i]),
                    ) == own;
                assert(front[i] == items[i]);
            }
            assert(alias(front, item) == own);
            assert(!before.contains_key(own));
        }
        assert forall|i: int| 0 <= i < items.len() && on_offer(#[trigger] items[i]) implies {
            let name = slug(item_name_text(items[i]));
            catalog.contains_key(name) && catalog[name] == entry_of(
                items[i],
                allowed_clients,
                redact_names,
                ttl_seconds,
            )
        } by {
            if i < front.len() {
                assert(front[i] == items[i]);
                assert(name_taken(front, slug(item_name_text(items[i]))));
            }
        }
        assert forall|name: Seq<char>| #[trigger] catalog.contains_key(name) implies name_taken(
            items,
            name,
        ) by {
            if before.contains_key(name) {
                let i = choose|i: int|
                    0 <= i < front.len() && on_offer(#[trigger] front[i]) && slug(
                        item_name_text(front[i]),
                    ) == name;
                assert(items[i] == front[i]);
            }
        }
    }
}

/// Where names are distinct, the catalog does not depend on the order in which
/// the items come.
pub proof fn law_order_of_items_does_not_matter(
    items1: Seq<JsonView>,
    items2: Seq<JsonView>,
    allowed_clients: Seq<Seq<char>>,
    redact_names: bool,
    ttl_seconds: u64,
)
    requires
        names_distinct(items1),
        names_distinct(items2),
        forall|item: JsonView| items1.contains(item) <==> items2.contains(item),
    ensures
        catalog_of(items1, allowed_clients, redact_names, ttl_seconds) == catalog_of(
            items2,
            allowed_clients,
            redact_names,
            ttl_seconds,
        ),
{
    let one = catalog_of(items1, allowed_clients, redact_names, ttl_seconds);
    let two = catalog_of(items2, allowed_clients, redact_names, ttl_seconds);
    law_each_item_has_its_entry(items1, allowed_clients, redact_names, ttl_seconds);
    law_each_item_has_its_entry(items2, allowed_clients, redact_names, ttl_seconds);
    assert forall|name: Seq<char>| #[trigger] one.contains_key(name) implies two.contains_key(name)
        && two[name] == one[name] by {
        let i = choose|i: int|
            0 <= i < items1.len() && on_offer(#[trigger] items1[i]) && slug(
                item_name_text(items1[i]),
            ) == name;
        assert(items1.contains(items1[i]));
        let j = choose|j: int| 0 <= j < items2.len() && items2[j] == items1[i];
        assert(on_offer(items2[j]));
    }
    assert forall|name: Seq<char>| #[trigger] two.contains_key(name) implies one.contains_key(
        name,
    ) by {
        let i = choose|i: int|
            0 <= i < items2.len() && on_offer(#[trigger] items2[i]) && slug(
                item_name_text(items2[i]),
            ) == name;
        assert(items2.contains(items2[i]));
        let j = choose|j: int| 0 <= j < items1.len() && items1[j] == items2[i];
        assert(on_offer(items1[j]));
    }
    assert(one =~= two);
}

/// Whether a custom field of an item has a given name and a value.
pub open spec fn holds_custom(field: JsonView, name: Seq<char>) -> bool {
    field.text_at("name"@) == Some(name) && field.member("value"@) is Some
}

proof fn lemma_custom_value(fields: Seq<JsonView>, name: Seq<char>)
    ensures
        forall|i: int|
            0 <= i < fields.len() && holds_custom(#[trigger] fields[i], name) && (forall|j: int|
                0 <= j < i ==> !holds_custom(#[trigger] fields[j], name)) ==> custom_value(
                fields,
                name,
            ) == fields[i].member("value"@)->0,
        (forall|i: int| 0 <= i < fields.len() ==> !holds_custom(#[trigger] fields[i], name))
            ==> custom_value(fields, name) == JsonView::Null,
    decreases fields.len(),
{
    if fields.len() > 0 {
        let rest = fields.drop_first();
        lemma_custom_value(rest, name);
        assert forall|i: int|
            0 <= i < fields.len() && holds_custom(#[trigger] fields[i], name) && (forall|j: int|
                0 <= j < i ==> !holds_custom(#[trigger] fields[j], name)) implies custom_value(
            fields,
            name,
        ) == fields[i].member("value"@)->0 by {
            if i > 0 {
                assert(!holds_custom(fields[0], name));
                assert(rest[i - 1] == fields[i]);
                assert forall|j: int| 0 <= j < i - 1 implies !holds_custom(
                    #[trigger] rest[j],
                    name,
                ) by {
                    assert(rest[j] == fields[j + 1]);
                }
            }
        }
        if forall|i: int| 0 <= i < fields.len() ==> !holds_custom(#[trigger] fields[i], name) {
            assert(!holds_custom(fields[0], name));
            assert forall|j: int| 0 <= j < rest.len() implies !holds_custom(
                #[trigger] rest[j],
                name,
            ) by {
                assert(rest[j] == fields[j + 1]);
            }
        }
    }
}

proof fn lemma_custom_field(item: JsonView, name: Seq<char>)
    ensures
        field_value(item, "custom."@ + name) == match item.list_at("fields"@) {
            Some(fields) => custom_value(fields, name),
            None => JsonView::Null,
        },
{
    let field = "custom."@ + name;
    reveal_strlit("custom.");
    reveal_strlit("name");
    reveal_strlit("username");
    reveal_strlit("password");
    reveal_strlit("uris");
    reveal_strlit("uri");
    reveal_strlit("totp");
    reveal_strlit("notes");
    assert(field[0] == 'c');
    assert("name"@[0] == 'n' && "username"@[0] == 'u' && "password"@[0] == 'p');
    assert("uris"@[0] == 'u' && "uri"@[0] == 'u' && "totp"@[0] == 't' && "notes"@[0] == 'n');
    assert(field.take("custom."@.len() as int) =~= "custom."@);
    assert(field.skip("custom."@.len() as int) =~= name);
}

/// A custom field is read by its name: of the fields of an item that have the
/// name and a value, the first one's value is read, whatever stands before it
/// under other names or without a value. Where no field has both, it is null.
pub proof fn law_custom_field_is_read_by_name(
    item: JsonView,
    fields: Seq<JsonView>,
    name: Seq<char>,
    i: int,
)
    requires
        item.list_at("fields"@) == Some(fields),
        0 <= i < fields.len(),
    ensures
        fields[i].text_at("name"@) == Some(name) && fields[i].member("value"@) is Some && (forall|
            j: int,
        |
            0 <= j < i ==> !((#[trigger] fields[j]).text_at("name"@) == Some(name)
                && fields[j].member("value"@) is Some)) ==> field_value(item, "custom."@ + name)
            == fields[i].member("value"@)->0,
        (forall|j: int|
            0 <= j < fields.len() ==> !((#[trigger] fields[j]).text_at("name"@) == Some(name)
                && fields[j].member("value"@) is Some)) ==> field_value(item, "custom."@ + name)
            == JsonView::Null,
{
    lemma_custom_field(item, name);
    lemma_custom_value(fields, name);
    if forall|j: int|
        0 <= j < i ==> !((#[trigger] fields[j]).text_at("name"@) == Some(name) && fields[j].member(
            "value"@,
        ) is Some) {
        assert forall|j: int| 0 <= j < i implies !holds_custom(#[trigger] fields[j], name) by {}
    }
    if forall|j: int|
        0 <= j < fields.len() ==> !((#[trigger] fields[j]).text_at("name"@) == Some(name)
            && fields[j].member("value"@) is Some) {
        assert forall|j: int| 0 <= j < fields.len() implies !holds_custom(
            #[trigger] fields[j],
            name,
        ) by {}
    }
}

/// An item without custom fields has none of any name.
pub proof fn law_no_custom_fields_no_values(item: JsonView, name: Seq<char>)
    requires
        item.list_at("fields"@) is None || item.list_at("fields"@)->0.len() == 0,
    ensures
        field_value(item, "custom."@ + name) == JsonView::Null,
{
    lemma_custom_field(item, name);
}

/// The name and the notes are read from the item, the user name, the password
/// and the one-time code from its login, each as it stands there; a field of
/// any other name, unless it is a custom one or one of addresses, is null.
pub proof fn law_field_is_read_from_its_place(item: JsonView, field: Seq<char>)
    ensures
        field_value(item, "name"@) == item.member_or_null("name"@),
        field_value(item, "notes"@) == item.member_or_null("notes"@),
        field_value(item, "username"@) == item.member_or_null("login"@).member_or_null(
            "username"@,
        ),
        field_value(item, "password"@) == item.member_or_null("login"@).member_or_null(
            "password"@,
        ),
        field_value(item, "totp"@) == item.member_or_null("login"@).member_or_null("totp"@),
        !has_prefix(field, "custom."@) && field != "name"@ && field != "notes"@ && field
            != "username"@ && field != "password"@ && field != "totp"@ && field != "uri"@ && field
            != "uris"@ ==> field_value(item, field) == JsonView::Null,
{
    reveal_strlit("name");
    reveal_strlit("username");
    reveal_strlit("password");
    reveal_strlit("uris");
    reveal_strlit("uri");
    reveal_strlit("totp");
    reveal_strlit("notes");
    assert("name"@.len() == 4 && "name"@[0] == 'n');
    assert("username"@.len() == 8 && "username"@[0] == 'u');
    assert("password"@.len() == 8 && "password"@[0] == 'p');
    assert("uris"@.len() == 4 && "uris"@[0] == 'u');
    assert("uri"@.len() == 3);
    assert("totp"@.len() == 4 && "totp"@[0] == 't');
    assert("notes"@.len() == 5);
}

/// The addresses of an item are those of its list, in its order, each as it
/// stands there; what has none is passed over. The one address is the first of
/// them, and null where there is none.
pub proof fn law_addresses_come_in_order(item: JsonView, a: Seq<JsonView>, b: Seq<JsonView>)
    ensures
        uri_values(a + b) == uri_values(a) + uri_values(b),
        forall|v: JsonView|
            #![trigger uri_values(seq![v])]
            uri_values(seq![v]) == match v.member("uri"@) {
                Some(uri) => seq![uri],
                None => Seq::empty(),
            },
        item.member_or_null("login"@).list_at("uris"@) == Some(a) ==> field_value(item, "uris"@)
            == JsonView::List(uri_values(a)),
        item.member_or_null("login"@).list_at("uris"@) is None ==> field_value(item, "uris"@)
            == JsonView::List(Seq::empty()),
        field_value(item, "uris"@) matches JsonView::List(all) && field_value(item, "uri"@) == if all.len()
            > 0 {
            all[0]
        } else {
            JsonView::Null
        },
    decreases b.len(),
{
    reveal_strlit("name");
    reveal_strlit("username");
    reveal_strlit("password");
    reveal_strlit("uris");
    reveal_strlit("uri");
    assert("name"@.len() == 4 && "name"@[0] == 'n');
    assert("username"@.len() == 8 && "password"@.len() == 8);
    assert("uris"@.len() == 4 && "uris"@[0] == 'u');
    assert("uri"@.len() == 3);
    assert forall|v: JsonView| #![trigger uri_values(seq![v])] uri_values(seq![v]) == match v.member("uri"@) {
        Some(uri) => seq![uri],
        None => Seq::empty(),
    } by {
        reveal_with_fuel(uri_values, 2);
        assert(seq![v].drop_last() =~= Seq::empty());
        assert(seq![v].last() == v);
    }
    if b.len() == 0 {
        assert(a + b =~= a);
        assert(uri_values(b) =~= Seq::empty());
    } else {
        law_addresses_come_in_order(item, a, b.drop_last());
        assert((a + b).drop_last() =~= a + b.drop_last());
        assert((a + b).last() == b.last());
    }
    assert(uri_values(a + b) =~= uri_values(a) + uri_values(b));
}

/// What is extracted of an item has every field that was asked for, with the
/// item's value, and no other.
pub proof fn law_extracted_is_what_was_asked(
    item: JsonView,
    fields: Seq<Seq<char>>,
    field: Seq<char>,
)
    ensures
        extracted(item, fields).contains_key(field) <==> exists|i: int|
            0 <= i < fields.len() && fields[i] == field,
        fields.contains(field) ==> extracted(item, fields)[field] == field_value(item, field),
{
}

/// What a client is told of an entry, member by member: its name, its kind, its
/// description and its fields as the entry has them, its addresses as the
/// entry's metadata has them, for how long the values may be kept, and that a
/// confirmation is needed exactly where the entry asks for one and the client
/// is not trusted.
pub proof fn law_shown_entry_member_by_member(
    client: ClientView,
    name: Seq<char>,
    entry: EntryView,
)
    ensures
        ({
            let shown = entry_shown(client, name, entry);
            &&& shown.member("id"@) == Some(JsonView::Text(name))
            &&& shown.member("kind"@) == Some(JsonView::Text(entry.kind))
            &&& shown.member("description"@) == Some(JsonView::Text(entry.description))
            &&& entry.metadata.member("login_urls"@) is Some ==> shown.member("login_urls"@)
                == entry.metadata.member("login_urls"@)
            &&& entry.metadata.member("login_urls"@) is None ==> shown.member("login_urls"@)
                == Some(JsonView::List(Seq::empty()))
            &&& shown.list_at("return_fields"@) is Some
            &&& shown.list_at("return_fields"@)->0.len() == entry.return_fields.len()
            &&& forall|i: int|
                0 <= i < entry.return_fields.len() ==> #[trigger] shown.list_at(
                    "return_fields"@,
                )->0[i] == JsonView::Text(entry.return_fields[i])
            &&& shown.member("approval_required"@) == Some(
                JsonView::Bool(
                    entry.approval_required && client.approval == ClientApprovalMode::Prompt,
                ),
            )
            &&& entry.ttl_seconds <= i64::MAX ==> shown.member("ttl_seconds"@) == Some(
                JsonView::Int(entry.ttl_seconds as i64),
            )
            &&& shown.member("ttl_seconds"@) == Some(number_view(entry.ttl_seconds))
        }),
{
    reveal_strlit("id");
    reveal_strlit("kind");
    reveal_strlit("description");
    reveal_strlit("login_urls");
    reveal_strlit("return_fields");
    reveal_strlit("approval_required");
    reveal_strlit("ttl_seconds");
    assert("id"@.len() == 2);
    assert("kind"@.len() == 4);
    assert("description"@.len() == 11 && "description"@[0] == 'd');
    assert("login_urls"@.len() == 10);
    assert("return_fields"@.len() == 13);
    assert("approval_required"@.len() == 17);
    assert("ttl_seconds"@.len() == 11 && "ttl_seconds"@[0] == 't');
}

/// A client is shown the entries that it may ask for, in the order of the
/// catalog, each by itself: what is shown of one does not depend on the others.
pub proof fn law_entries_are_shown_one_by_one(
    client: ClientView,
    a: Seq<(String, CatalogEntry)>,
    b: Seq<(String, CatalogEntry)>,
)
    ensures
        entries_shown(client, a + b) == entries_shown(client, a) + entries_shown(client, b),
        forall|e: (String, CatalogEntry)|
            #![trigger entries_shown(client, seq![e])]
            entries_shown(client, seq![e]) == if permitted(client, e.0@, e.1@) {
                seq![entry_shown(client, e.0@, e.1@)]
            } else {
                Seq::empty()
            },
        entries_shown(client, Seq::empty()) == Seq::<JsonView>::empty(),
    decreases b.len(),
{
    assert forall|e: (String, CatalogEntry)|
        #![trigger entries_shown(client, seq![e])]
        entries_shown(client, seq![e]) == if permitted(client, e.0@, e.1@) {
            seq![entry_shown(client, e.0@, e.1@)]
        } else {
            Seq::empty()
        } by {
        reveal_with_fuel(entries_shown, 2);
        assert(seq![e].drop_last() =~= Seq::empty());
        assert(seq![e].last() == e);
    }
    if b.len() == 0 {
        assert(a + b =~= a);
        assert(entries_shown(client, b) =~= Seq::empty());
    } else {
        law_entries_are_shown_one_by_one(client, a, b.drop_last());
        assert((a + b).drop_last() =~= a + b.drop_last());
        assert((a + b).last() == b.last());
    }
    assert(entries_shown(client, a + b) =~= entries_shown(client, a) + entries_shown(client, b));
}

/// A shown catalog has the catalog's version and the entries that the client
/// may ask for.
pub proof fn law_shown_catalog_member_by_member(client: ClientView, catalog: Catalog)
    ensures
        catalog_shown(client, catalog).member("version"@) == Some(
            JsonView::Int(catalog.version as i64),
        ),
        catalog_shown(client, catalog).list_at("secrets"@) == Some(
            entries_shown(client, catalog.secrets.pairs()),
        ),
{
    reveal_strlit("version");
    reveal_strlit("secrets");
    assert("version"@[0] == 'v' && "secrets"@[0] == 's');
}

/// Every entry that is shown is one of the catalog's, told as it is. To a trusted
/// client none needs a confirmation; to any other, each does whose entry asks for
/// one.
pub proof fn law_shown_entries_are_the_catalogs(client: ClientView, catalog: Catalog, i: int)
    requires
        0 <= i < entries_shown(client, catalog.secrets.pairs()).len(),
    ensures
        ({
            let shown = entries_shown(client, catalog.secrets.pairs())[i];
            exists|j: int|
                0 <= j < catalog.secrets.pairs().len() && {
                    let (name, entry) = #[trigger] catalog.secrets.pairs()[j];
                    &&& shown.member("id"@) == Some(JsonView::Text(name@))
                    &&& shown.member("kind"@) == Some(JsonView::Text(entry.kind@))
                    &&& shown.member("description"@) == Some(JsonView::Text(entry.description@))
                    &&& shown.member("approval_required"@) == Some(
                        JsonView::Bool(
                            entry.approval_required && client.approval
                                == ClientApprovalMode::Prompt,
                        ),
                    )
                }
        }),
        client.approval == ClientApprovalMode::Trusted ==> entries_shown(
            client,
            catalog.secrets.pairs(),
        )[i].member("approval_required"@) == Some(JsonView::Bool(false)),
{
    let entries = catalog.secrets.pairs();
    lemma_entries_shown(client, entries);
    let j = choose|j: int|
        0 <= j < entries.len() && permitted(client, (#[trigger] entries[j]).0@, entries[j].1@)
            && entries_shown(client, entries)[i] == entry_shown(
            client,
            entries[j].0@,
            entries[j].1@,
        );
    law_shown_entry_member_by_member(client, entries[j].0@, entries[j].1@);
}

/// A client gets an entry exactly where it is there, the client's own list has
/// its name or the star, and the entry's list is empty or has the client's id
/// or the star.
pub proof fn law_entry_takes_leave_on_both_sides(
    secrets: Map<Seq<char>, EntryView>,
    client: ClientView,
    name: Seq<char>,
)
    ensures
        ({
            let got = entry_for(secrets, client, name);
            let entry = secrets[name];
            let client_may = exists|i: int|
                0 <= i < client.allowed_secrets.len() && (#[trigger] client.allowed_secrets[i]
                    == "*"@ || client.allowed_secrets[i] == name);
            let entry_may = entry.allowed_clients.len() == 0 || exists|i: int|
                0 <= i < entry.allowed_clients.len() && (#[trigger] entry.allowed_clients[i]
                    == "*"@ || entry.allowed_clients[i] == client.id);
            &&& secrets.contains_key(name) && client_may && entry_may ==> got == Ok::<
                EntryView,
                CatalogErrorView,
            >(entry)
            &&& !secrets.contains_key(name) ==> got is Err && got->Err_0.message()
                == "unknown secret id: "@ + name
            &&& secrets.contains_key(name) && !(client_may && entry_may) ==> got is Err
                && got->Err_0.message() == "client is not allowed to request this secret"@
        }),
{
    let entry = secrets[name];
    assert forall|list: Seq<Seq<char>>, x: Seq<char>| #[trigger] admits(list, x) <==> exists|i: int|
        0 <= i < list.len() && (#[trigger] list[i] == "*"@ || list[i] == x) by {
        if list.contains("*"@) {
            let i = list.index_of("*"@);
            assert(list[i] == "*"@);
        }
        if list.contains(x) {
            let i = list.index_of(x);
            assert(list[i] == x);
        }
    }
    assert(admits(client.allowed_secrets, name) || true);
    assert(admits(entry.allowed_clients, client.id) || true);
}

proof fn lemma_contains_in_parts(a: Seq<Seq<char>>, b: Seq<Seq<char>>, x: Seq<char>)
    ensures
        (a + b).contains(x) <==> a.contains(x) || b.contains(x),
{
    if a.contains(x) {
        let i = a.index_of(x);
        assert((a + b)[i] == x);
    }
    if b.contains(x) {
        let i = b.index_of(x);
        assert((a + b)[a.len() + i] == x);
    }
    if (a + b).contains(x) {
        let i = (a + b).index_of(x);
        if i < a.len() {
            assert(a[i] == x);
        } else {
            assert(b[i - a.len()] == x);
        }
    }
}

proof fn lemma_text_if(condition: bool, s: Seq<char>, x: Seq<char>)
    ensures
        text_if(condition, s).contains(x) <==> condition && x == s,
{
    if condition {
        assert(text_if(condition, s)[0] == s);
    }
}

/// The custom fields on offer are those of the item's list that have a name,
/// each under that name, in the order of the list.
pub proof fn law_custom_fields_are_offered_in_order(a: Seq<JsonView>, b: Seq<JsonView>)
    ensures
        custom_names(a + b) == custom_names(a) + custom_names(b),
        forall|v: JsonView|
            #![trigger custom_names(seq![v])]
            custom_names(seq![v]) == match v.text_at("name"@) {
                Some(name) => seq!["custom."@ + name],
                None => Seq::empty(),
            },
        custom_names(Seq::empty()) == Seq::<Seq<char>>::empty(),
    decreases b.len(),
{
    assert forall|v: JsonView|
        #![trigger custom_names(seq![v])]
        custom_names(seq![v]) == match v.text_at("name"@) {
            Some(name) => seq!["custom."@ + name],
            None => Seq::empty(),
        } by {
        reveal_with_fuel(custom_names, 2);
        assert(seq![v].drop_last() =~= Seq::empty());
        assert(seq![v].last() == v);
    }
    if b.len() == 0 {
        assert(a + b =~= a);
        assert(custom_names(b) =~= Seq::empty());
    } else {
        law_custom_fields_are_offered_in_order(a, b.drop_last());
        assert((a + b).drop_last() =~= a + b.drop_last());
        assert((a + b).last() == b.last());
    }
    assert(custom_names(a + b) =~= custom_names(a) + custom_names(b));
}

proof fn lemma_custom_name_listed(fields: Seq<JsonView>, name: Seq<char>)
    ensures
        custom_names(fields).contains("custom."@ + name) <==> exists|i: int|
            0 <= i < fields.len() && (#[trigger] fields[i]).text_at("name"@) == Some(name),
    decreases fields.len(),
{
    if fields.len() == 0 {
        assert(custom_names(fields) =~= Seq::empty());
    } else {
        let rest = fields.drop_last();
        lemma_custom_name_listed(rest, name);
        let x = "custom."@ + name;
        match fields.last().text_at("name"@) {
            Some(last) => {
                lemma_push_contains(custom_names(rest), "custom."@ + last, x);
                assert(x == "custom."@ + last ==> name == last) by {
                    if x == "custom."@ + last {
                        assert(name =~= x.skip("custom."@.len() as int));
                        assert(last =~= ("custom."@ + last).skip("custom."@.len() as int));
                    }
                }
            },
            None => {},
        }
        if custom_names(rest).contains(x) {
            let i = choose|i: int|
                0 <= i < rest.len() && (#[trigger] rest[i]).text_at("name"@) == Some(name);
            assert(fields[i] == rest[i]);
        }
        if exists|i: int|
            0 <= i < fields.len() && (#[trigger] fields[i]).text_at("name"@) == Some(name) {
            let i = choose|i: int|
                0 <= i < fields.len() && (#[trigger] fields[i]).text_at("name"@) == Some(name);
            if i < rest.len() {
                assert(rest[i] == fields[i]);
            } else {
                assert(fields[i] == fields.last());
            }
        }
        if fields.last().text_at("name"@) == Some(name) {
            assert(fields[fields.len() - 1].text_at("name"@) == Some(name));
        }
    }
}

spec fn customs_of(item: JsonView) -> Seq<Seq<char>> {
    match item.list_at("fields"@) {
        Some(fields) => custom_names(fields),
        None => Seq::empty(),
    }
}

proof fn lemma_present(item: JsonView, x: Seq<char>)
    ensures
        ({
            let login = item.member_or_null("login"@);
            present_fields(item).contains(x) <==> {
                ||| login.member_or_null("username"@) !is Null && x == "username"@
                ||| login.member_or_null("password"@) !is Null && x == "password"@
                ||| login.list_at("uris"@) is Some && login.list_at("uris"@)->0.len() > 0 && x
                    == "uris"@
                ||| login.member_or_null("totp"@) !is Null && x == "totp"@
                ||| item.member_or_null("notes"@) !is Null && x == "notes"@
                ||| customs_of(item).contains(x)
            }
        }),
{
    let login = item.member_or_null("login"@);
    let t0 = text_if(login.member_or_null("username"@) !is Null, "username"@);
    let t1 = text_if(login.member_or_null("password"@) !is Null, "password"@);
    let has_uris = login.list_at("uris"@) is Some && login.list_at("uris"@)->0.len() > 0;
    let t2 = text_if(has_uris, "uris"@);
    let t3 = text_if(login.member_or_null("totp"@) !is Null, "totp"@);
    let t4 = text_if(item.member_or_null("notes"@) !is Null, "notes"@);
    let t5 = customs_of(item);
    lemma_text_if(login.member_or_null("username"@) !is Null, "username"@, x);
    lemma_text_if(login.member_or_null("password"@) !is Null, "password"@, x);
    lemma_text_if(has_uris, "uris"@, x);
    lemma_text_if(login.member_or_null("totp"@) !is Null, "totp"@, x);
    lemma_text_if(item.member_or_null("notes"@) !is Null, "notes"@, x);
    lemma_contains_in_parts(t0, t1, x);
    lemma_contains_in_parts(t0 + t1, t2, x);
    lemma_contains_in_parts(t0 + t1 + t2, t3, x);
    lemma_contains_in_parts(t0 + t1 + t2 + t3, t4, x);
    lemma_contains_in_parts(t0 + t1 + t2 + t3 + t4, t5, x);
    assert(present_fields(item) == t0 + t1 + t2 + t3 + t4 + t5);
}

/// A field is offered exactly where the item has it: user name, password and
/// one-time code of its login, its notes, its addresses where there are any,
/// and its custom fields by name. Of an item that has none of these the name is
/// offered, and only of such an item.
pub proof fn law_offered_is_what_is_there(item: JsonView, name: Seq<char>)
    ensures
        ({
            let login = item.member_or_null("login"@);
            let offered = offered_fields(item);
            &&& offered.contains("username"@) <==> !(login.member_or_null("username"@) is Null)
            &&& offered.contains("password"@) <==> !(login.member_or_null("password"@) is Null)
            &&& offered.contains("totp"@) <==> !(login.member_or_null("totp"@) is Null)
            &&& offered.contains("notes"@) <==> !(item.member_or_null("notes"@) is Null)
            &&& offered.contains("uris"@) <==> login.list_at("uris"@) is Some && login.list_at(
                "uris"@,
            )->0.len() > 0
            &&& offered.contains("custom."@ + name) <==> item.list_at("fields"@) is Some && exists|
                i: int,
            |
                0 <= i < item.list_at("fields"@)->0.len() && (#[trigger] item.list_at(
                    "fields"@,
                )->0[i]).text_at("name"@) == Some(name)
            &&& offered.len() > 0
            &&& offered.contains("name"@) ==> offered == seq!["name"@]
        }),
{
    lemma_present(item, "username"@);
    lemma_present(item, "password"@);
    lemma_present(item, "totp"@);
    lemma_present(item, "notes"@);
    lemma_present(item, "uris"@);
    lemma_present(item, "name"@);
    lemma_present(item, "custom."@ + name);
    lemma_field_names_differ(name);
    if let Some(fields) = item.list_at("fields"@) {
        lemma_custom_name_listed(fields, name);
        lemma_custom_names(fields);
        assert forall|x: Seq<char>| #[trigger] customs_of(item).contains(x) implies has_prefix(
            x,
            "custom."@,
        ) by {
            let i = customs_of(item).index_of(x);
            assert(has_prefix(custom_names(fields)[i], "custom."@));
        }
    }
    if present_fields(item).len() == 0 {
        assert(offered_fields(item)[0] == "name"@);
        assert(offered_fields(item).len() == 1);
    } else {
        assert(present_fields(item).contains(present_fields(item)[0]));
    }
}

proof fn lemma_field_names_differ(name: Seq<char>)
    ensures
        !has_prefix("name"@, "custom."@) && !has_prefix("username"@, "custom."@),
        !has_prefix("password"@, "custom."@) && !has_prefix("uris"@, "custom."@),
        !has_prefix("totp"@, "custom."@) && !has_prefix("notes"@, "custom."@),
        "custom."@ + name != "name"@ && "custom."@ + name != "username"@,
        "custom."@ + name != "password"@ && "custom."@ + name != "uris"@,
        "custom."@ + name != "totp"@ && "custom."@ + name != "notes"@,
        "name"@ != "username"@ && "name"@ != "password"@ && "name"@ != "uris"@,
        "name"@ != "totp"@ && "name"@ != "notes"@ && "username"@ != "password"@,
        "username"@ != "uris"@ && "username"@ != "totp"@ && "username"@ != "notes"@,
        "password"@ != "uris"@ && "password"@ != "totp"@ && "password"@ != "notes"@,
        "uris"@ != "totp"@ && "uris"@ != "notes"@ && "totp"@ != "notes"@,
{
    reveal_strlit("custom.");
    reveal_strlit("name");
    reveal_strlit("username");
    reveal_strlit("password");
    reveal_strlit("uris");
    reveal_strlit("totp");
    reveal_strlit("notes");
    assert("name"@.len() == 4 && "name"@[0] == 'n');
    assert("username"@.len() == 8 && "username"@[0] == 'u');
    assert("password"@.len() == 8 && "password"@[0] == 'p');
    assert("uris"@.len() == 4 && "uris"@[0] == 'u');
    assert("totp"@.len() == 4 && "totp"@[0] == 't');
    assert("notes"@.len() == 5 && "notes"@[0] == 'n');
    assert("custom."@.len() == 7 && "custom."@[0] == 'c');
    assert(("custom."@ + name)[0] == 'c');
    assert("username"@.take(7)[0] == 'u' && "password"@.take(7)[0] == 'p');
}

/// The place of a field among those on offer.
pub open spec fn field_place(field: Seq<char>) -> int {
    if field == "username"@ {
        0
    } else if field == "password"@ {
        1
    } else if field == "uris"@ {
        2
    } else if field == "totp"@ {
        3
    } else if field == "notes"@ {
        4
    } else {
        5
    }
}

spec fn in_place(fields: Seq<Seq<char>>, most: int) -> bool {
    &&& forall|i: int|
        0 <= i < fields.len() ==> field_place(#[trigger] fields[i]) <= most || field_place(
            fields[i],
        ) == 5
    &&& forall|i: int, j: int|
        0 <= i < j < fields.len() ==> field_place(#[trigger] fields[i]) < field_place(
            #[trigger] fields[j],
        ) || (field_place(fields[i]) == 5 && field_place(fields[j]) == 5)
}

proof fn lemma_next_in_place(front: Seq<Seq<char>>, condition: bool, field: Seq<char>)
    requires
        in_place(front, field_place(field) - 1),
        forall|i: int| 0 <= i < front.len() ==> field_place(#[trigger] front[i]) < 5,
        field_place(field) < 5,
    ensures
        in_place(front + text_if(condition, field), field_place(field)),
        forall|i: int|
            0 <= i < (front + text_if(condition, field)).len() ==> field_place(
                #[trigger] (front + text_if(condition, field))[i],
            ) < 5,
{
    let all = front + text_if(condition, field);
    assert forall|i: int| 0 <= i < all.len() implies field_place(#[trigger] all[i]) < 5
        && field_place(all[i]) <= field_place(field) by {
        if i < front.len() {
            assert(all[i] == front[i]);
        }
    }
    assert forall|i: int, j: int| 0 <= i < j < all.len() implies field_place(#[trigger] all[i])
        < field_place(#[trigger] all[j]) by {
        assert(all[i] == front[i]);
        if j < front.len() {
            assert(all[j] == front[j]);
        }
    }
}

spec fn own_fields(item: JsonView) -> Seq<Seq<char>> {
    let login = item.member_or_null("login"@);
    text_if(login.member_or_null("username"@) !is Null, "username"@) + text_if(
        login.member_or_null("password"@) !is Null,
        "password"@,
    ) + text_if(login.list_at("uris"@) is Some && login.list_at("uris"@)->0.len() > 0, "uris"@)
        + text_if(login.member_or_null("totp"@) !is Null, "totp"@) + text_if(
        item.member_or_null("notes"@) !is Null,
        "notes"@,
    )
}

proof fn lemma_own_fields_in_place(c0: bool, c1: bool, c2: bool, c3: bool, c4: bool)
    ensures
        ({
            let own = text_if(c0, "username"@) + text_if(c1, "password"@) + text_if(c2, "uris"@)
                + text_if(c3, "totp"@) + text_if(c4, "notes"@);
            &&& in_place(own, 4)
            &&& forall|i: int| 0 <= i < own.len() ==> field_place(#[trigger] own[i]) < 5
        }),
{
    lemma_field_names_differ(Seq::empty());
    let f0 = text_if(c0, "username"@);
    let f1 = f0 + text_if(c1, "password"@);
    let f2 = f1 + text_if(c2, "uris"@);
    let f3 = f2 + text_if(c3, "totp"@);
    assert(in_place(f0, 0));
    lemma_next_in_place(f0, c1, "password"@);
    lemma_next_in_place(f1, c2, "uris"@);
    lemma_next_in_place(f2, c3, "totp"@);
    lemma_next_in_place(f3, c4, "notes"@);
}

/// Fields are offered in a fixed order, none of the item's own twice: user
/// name, password, addresses, one-time code, notes, and then the custom fields.
pub proof fn law_fields_are_offered_in_order(item: JsonView, i: int, j: int)
    requires
        0 <= i < j < offered_fields(item).len(),
    ensures
        ({
            let offered = offered_fields(item);
            ||| field_place(offered[i]) < field_place(offered[j])
            ||| has_prefix(offered[i], "custom."@) && has_prefix(offered[j], "custom."@)
        }),
{
    let login = item.member_or_null("login"@);
    let own = own_fields(item);
    let customs = customs_of(item);
    lemma_own_fields_in_place(
        login.member_or_null("username"@) !is Null,
        login.member_or_null("password"@) !is Null,
        login.list_at("uris"@) is Some && login.list_at("uris"@)->0.len() > 0,
        login.member_or_null("totp"@) !is Null,
        item.member_or_null("notes"@) !is Null,
    );
    let all = own + customs;
    assert(present_fields(item) == all);
    if j < own.len() {
        assert(all[i] == own[i] && all[j] == own[j]);
    } else {
        lemma_customs_behind(item, j - own.len());
        assert(all[j] == customs[j - own.len()]);
        if i < own.len() {
            assert(all[i] == own[i]);
        } else {
            lemma_customs_behind(item, i - own.len());
            assert(all[i] == customs[i - own.len()]);
        }
    }
}

proof fn lemma_customs_behind(item: JsonView, i: int)
    requires
        0 <= i < customs_of(item).len(),
    ensures
        has_prefix(customs_of(item)[i], "custom."@),
        field_place(customs_of(item)[i]) == 5,
{
    lemma_custom_names(item.list_at("fields"@)->0);
    lemma_field_names_differ(Seq::empty());
}

/// The addresses in an entry's metadata are those of the item's list that are
/// texts and not empty, in its order.
pub proof fn law_entry_addresses_come_in_order(item: JsonView, a: Seq<JsonView>, b: Seq<JsonView>)
    ensures
        url_texts(a + b) == url_texts(a) + url_texts(b),
        forall|v: JsonView|
            #![trigger url_texts(seq![v])]
            url_texts(seq![v]) == if v.text_at("uri"@) is Some && v.text_at("uri"@)->0.len() > 0 {
                seq![v.text_at("uri"@)->0]
            } else {
                Seq::empty()
            },
        item.member_or_null("login"@).list_at("uris"@) == Some(a) ==> item_urls(item) == url_texts(
            a,
        ),
        item.member_or_null("login"@).list_at("uris"@) is None ==> item_urls(item).len() == 0,
    decreases b.len(),
{
    assert forall|v: JsonView|
        #![trigger url_texts(seq![v])]
        url_texts(seq![v]) == if v.text_at("uri"@) is Some && v.text_at("uri"@)->0.len() > 0 {
            seq![v.text_at("uri"@)->0]
        } else {
            Seq::empty()
        } by {
        reveal_with_fuel(url_texts, 2);
        assert(seq![v].drop_last() =~= Seq::empty());
        assert(seq![v].last() == v);
    }
    if b.len() == 0 {
        assert(a + b =~= a);
        assert(url_texts(b) =~= Seq::empty());
    } else {
        law_entry_addresses_come_in_order(item, a, b.drop_last());
        assert((a + b).drop_last() =~= a + b.drop_last());
        assert((a + b).last() == b.last());
    }
    assert(url_texts(a + b) =~= url_texts(a) + url_texts(b));
}

/// An entry says of its item, member by member, what the item has: its id, its
/// kind by the number of its type, its name or, where names are hidden, no more
/// than the kind, its organisation and collections, and its addresses. Whom it
/// is for and for how long is as it was asked for; a confirmation is needed.
pub proof fn law_entry_says_what_the_item_has(
    item: JsonView,
    allowed_clients: Seq<Seq<char>>,
    redact_names: bool,
    ttl_seconds: u64,
)
    ensures
        ({
            let entry = entry_of(item, allowed_clients, redact_names, ttl_seconds);
            let sort = item.member_or_null("type"@);
            &&& item.text_at("id"@) is Some ==> entry.item_id == item.text_at("id"@)->0
            &&& sort == JsonView::Int(1) ==> entry.kind == "login"@
            &&& sort == JsonView::Int(2) ==> entry.kind == "secure_note"@
            &&& sort == JsonView::Int(3) ==> entry.kind == "card"@
            &&& sort == JsonView::Int(4) ==> entry.kind == "identity"@
            &&& sort != JsonView::Int(1) && sort != JsonView::Int(2) && sort != JsonView::Int(3)
                && sort != JsonView::Int(4) ==> entry.kind == "item"@
            &&& redact_names ==> entry.description == entry.kind + " item"@
            &&& !redact_names && item.text_at("name"@) is Some ==> entry.description
                == item.text_at("name"@)->0
            &&& !redact_names && item.text_at("name"@) is None ==> entry.description == "secret"@
            &&& entry.return_fields == offered_fields(item)
            &&& entry.approval_required
            &&& entry.ttl_seconds == ttl_seconds
            &&& entry.allowed_clients == allowed_clients
            &&& entry.metadata.member("organization_id"@) == Some(
                item.member_or_null("organizationId"@),
            )
            &&& item.member("collectionIds"@) is Some ==> entry.metadata.member("collection_ids"@)
                == item.member("collectionIds"@)
            &&& item.member("collectionIds"@) is None ==> entry.metadata.member("collection_ids"@)
                == Some(JsonView::List(Seq::empty()))
            &&& entry.metadata.list_at("login_urls"@) is Some
            &&& entry.metadata.list_at("login_urls"@)->0.len() == item_urls(item).len()
            &&& forall|i: int|
                0 <= i < item_urls(item).len() ==> #[trigger] entry.metadata.list_at(
                    "login_urls"@,
                )->0[i] == JsonView::Text(item_urls(item)[i])
        }),
{
    reveal_strlit("organization_id");
    reveal_strlit("collection_ids");
    reveal_strlit("login_urls");
    assert("organization_id"@.len() == 15);
    assert("collection_ids"@.len() == 14);
    assert("login_urls"@.len() == 10);
}

/// An item that is deleted, or has no id, leaves the catalog as it is.
pub proof fn law_deleted_items_stay_out(
    items: Seq<JsonView>,
    item: JsonView,
    allowed_clients: Seq<Seq<char>>,
    redact_names: bool,
    ttl_seconds: u64,
)
    requires
        (item.member("deletedDate"@) is Some && !(item.member("deletedDate"@)->0 is Null)) || (
        item.text_at("id"@) is None || item.text_at("id"@)->0.len() == 0),
    ensures
        catalog_of(items.push(item), allowed_clients, redact_names, ttl_seconds) == catalog_of(
            items,
            allowed_clients,
            redact_names,
            ttl_seconds,
        ),
        !on_offer(item),
{
    assert(items.push(item).drop_last() =~= items);
    assert(items.push(item).last() == item);
}

/// Any other item goes into the catalog, under the name made of its own; where
/// an earlier item has taken that name, the first eight characters of its id
/// stand behind it. Whatever else the catalog had, it keeps.
pub proof fn law_item_goes_in_under_its_name(
    items: Seq<JsonView>,
    item: JsonView,
    allowed_clients: Seq<Seq<char>>,
    redact_names: bool,
    ttl_seconds: u64,
)
    requires
        item.member("deletedDate"@) is None || item.member("deletedDate"@)->0 is Null,
        item.text_at("id"@) is Some && item.text_at("id"@)->0.len() > 0,
    ensures
        ({
            let before = catalog_of(items, allowed_clients, redact_names, ttl_seconds);
            let after = catalog_of(items.push(item), allowed_clients, redact_names, ttl_seconds);
            let id = item.text_at("id"@)->0;
            let own = if item.text_at("name"@) is Some {
                slug(item.text_at("name"@)->0)
            } else {
                slug("secret"@)
            };
            let taken = exists|i: int|
                0 <= i < items.len() && on_offer(#[trigger] items[i]) && slug(
                    item_name_text(items[i]),
                ) == own;
            let start = if id.len() < 8 {
                id.len() as int
            } else {
                8
            };
            let name = if taken {
                own + seq!['_'] + id.take(start)
            } else {
                own
            };
            &&& after.contains_key(name)
            &&& after[name] == entry_of(item, allowed_clients, redact_names, ttl_seconds)
            &&& after.remove(name) == before.remove(name)
        }),
{
    assert(items.push(item).drop_last() =~= items);
    assert(items.push(item).last() == item);
    let id = item.text_at("id"@)->0;
    assert(id.take(id.len() as int) =~= id);
    let before = catalog_of(items, allowed_clients, redact_names, ttl_seconds);
    let after = catalog_of(items.push(item), allowed_clients, redact_names, ttl_seconds);
    let name = alias(items, item);
    assert(after == before.insert(
        name,
        entry_of(item, allowed_clients, redact_names, ttl_seconds),
    ));
    assert(after.remove(name) =~= before.remove(name));
}

/// An item is on offer exactly where it is not deleted and has an id.
pub proof fn law_item_on_offer(item: JsonView)
    ensures
        on_offer(item) <==> (item.member("deletedDate"@) is None || item.member(
            "deletedDate"@,
        )->0 is Null) && item.text_at("id"@) is Some && item.text_at("id"@)->0.len() > 0,
{
}

proof fn lemma_words_of_one(s: Seq<char>)
    requires
        s.len() > 0,
        forall|i: int| 0 <= i < s.len() ==> is_alnum(#[trigger] s[i]),
    ensures
        words(s) == seq![ascii_lower(s)],
    decreases s.len(),
{
    let front = s.drop_last();
    assert(is_alnum(s[s.len() - 1]));
    if front.len() == 0 {
        assert(words(front) =~= Seq::empty());
        assert(ascii_lower(s) =~= seq![lower_char(s.last())]);
        assert(words(s) =~= seq![ascii_lower(s)]);
    } else {
        assert forall|i: int| 0 <= i < front.len() implies is_alnum(#[trigger] front[i]) by {
            assert(front[i] == s[i]);
        }
        lemma_words_of_one(front);
        assert(is_alnum(front[front.len() - 1]));
        assert(ascii_lower(front).push(lower_char(s.last())) =~= ascii_lower(s));
        assert(seq![ascii_lower(front)].drop_last() =~= Seq::empty());
        assert(words(s) =~= seq![ascii_lower(s)]);
    }
}

proof fn lemma_words_in_parts(a: Seq<char>, c: char, b: Seq<char>)
    requires
        !is_alnum(c),
    ensures
        words(a.push(c) + b) == words(a) + words(b),
    decreases b.len(),
{
    let all = a.push(c) + b;
    if b.len() == 0 {
        assert(all =~= a.push(c));
        assert(all.drop_last() =~= a);
        assert(words(b) =~= Seq::empty());
        assert(words(a) + words(b) =~= words(a));
    } else {
        let rest = b.drop_last();
        lemma_words_in_parts(a, c, rest);
        assert(all.drop_last() =~= a.push(c) + rest);
        assert(all.last() == b.last());
        if rest.len() == 0 {
            assert((a.push(c) + rest).last() == c);
            assert(words(rest) =~= Seq::empty());
        } else {
            assert((a.push(c) + rest).last() == rest.last());
            lemma_words(rest);
        }
        assert(words(all) =~= words(a) + words(b));
    }
}

/// A catalog name is made of the words of a name, in small letters, with one
/// underscore between two: a letter or digit stands in its word, anything else
/// parts words and leaves nothing behind. A name without words is a secret.
pub proof fn law_slug_is_made_of_words(word: Seq<char>, c: char, rest: Seq<char>)
    requires
        word.len() > 0,
        forall|i: int|
            0 <= i < word.len() ==> {
                ||| 'a' <= #[trigger] word[i] <= 'z'
                ||| 'A' <= word[i] <= 'Z'
                ||| '0' <= word[i] <= '9'
            },
        !('a' <= c <= 'z' || 'A' <= c <= 'Z' || '0' <= c <= '9'),
    ensures
        slug(word) == ascii_lower(word),
        slug(seq![c]) == "secret"@,
        slug(Seq::empty()) == "secret"@,
        slug(seq![c] + rest) == slug(rest),
        slug(rest.push(c)) == slug(rest),
        words(rest).len() > 0 ==> slug(word.push(c) + rest) == ascii_lower(word) + seq!['_']
            + slug(rest),
        words(rest).len() == 0 ==> slug(word.push(c) + rest) == slug(word),
        words(rest).len() == 0 <==> forall|i: int|
            0 <= i < rest.len() ==> !({
                ||| 'a' <= #[trigger] rest[i] <= 'z'
                ||| 'A' <= rest[i] <= 'Z'
                ||| '0' <= rest[i] <= '9'
            }),
{
    lemma_words_of_one(word);
    lemma_words_in_parts(word, c, rest);
    lemma_words_in_parts(Seq::empty(), c, rest);
    lemma_words_in_parts(rest, c, Seq::empty());
    lemma_words_in_parts(Seq::empty(), c, Seq::empty());
    let none = Seq::<char>::empty();
    assert(words(none) =~= Seq::empty());
    assert(none.push(c) + rest =~= seq![c] + rest);
    assert(none.push(c) + none =~= seq![c]);
    assert(rest.push(c) + none =~= rest.push(c));
    assert(words(none) + words(rest) =~= words(rest));
    assert(words(rest) + words(none) =~= words(rest));
    assert(words(none) + words(none) =~= words(none));
    assert(joined(seq![ascii_lower(word)], seq!['_']) == ascii_lower(word));
    if words(rest).len() > 0 {
        law_joined_in_parts(seq![ascii_lower(word)], words(rest), seq!['_']);
    } else {
        assert(words(word) + words(rest) =~= words(word));
    }
    lemma_no_words(rest);
}

proof fn lemma_no_words(s: Seq<char>)
    ensures
        words(s).len() == 0 <==> forall|i: int| 0 <= i < s.len() ==> !is_alnum(#[trigger] s[i]),
    decreases s.len(),
{
    if s.len() > 0 {
        let front = s.drop_last();
        lemma_no_words(front);
        if is_alnum(s.last()) {
            assert(is_alnum(s[s.len() - 1]));
            assert(words(s).len() > 0);
        } else {
            assert forall|i: int| 0 <= i < front.len() implies front[i] == #[trigger] s[i] by {}
            if forall|i: int| 0 <= i < front.len() ==> !is_alnum(#[trigger] front[i]) {
                assert forall|i: int| 0 <= i < s.len() implies !is_alnum(#[trigger] s[i]) by {
                    if i < front.len() {
                        assert(!is_alnum(front[i]));
                    }
                }
            } else {
                let i = choose|i: int| 0 <= i < front.len() && is_alnum(#[trigger] front[i]);
                assert(is_alnum(s[i]));
            }
        }
    }
}

} // verus!
