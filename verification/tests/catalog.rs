//! The catalog: how it is built, who sees it, and what is taken from an item.
use bw_touchid_broker::catalog::{
    approval_needed, build_catalog, client_allows_secret, default_ttl, empty_catalog,
    entry_allows_client, extract_fields, infer_return_fields, item_kind, login_urls,
    require_secret, slugify, visible_catalog, Catalog,
};
use bw_touchid_broker::config::{ClientApprovalMode, ClientConfig};
use bw_touchid_broker::json::{parse_json, parse_json_list, Json};
use bw_touchid_broker::textmap::TextMap;
use serde_json::Value;

fn to_value(j: &Json) -> Value {
    match j {
        Json::Null => Value::Null,
        Json::Bool(b) => Value::Bool(*b),
        Json::Int(n) => Value::from(*n),
        Json::Number(text) => serde_json::from_str(text).unwrap(),
        Json::Text(s) => Value::from(s.as_str()),
        Json::List(items) => Value::Array(items.iter().map(to_value).collect()),
        Json::Object(members) => object_value(members),
    }
}

fn object_value(members: &TextMap<Json>) -> Value {
    Value::Object(members.entries().iter().map(|(k, v)| (k.clone(), to_value(v))).collect())
}

fn value(text: &str) -> Value {
    serde_json::from_str(text).unwrap()
}

fn json(text: &str) -> Json {
    parse_json(text.as_bytes()).unwrap()
}

fn strings(list: &[&str]) -> Vec<String> {
    list.iter().map(|s| s.to_string()).collect()
}

fn client(id: &str, approval: ClientApprovalMode, allowed: &[&str]) -> ClientConfig {
    ClientConfig {
        id: id.to_string(),
        secret: "client-secret".to_string(),
        approval,
        allowed_secrets: strings(allowed),
    }
}

fn names(catalog: &Catalog) -> Vec<&str> {
    catalog.secrets.entries().iter().map(|(name, _)| name.as_str()).collect()
}

#[test]
fn build_catalog_and_extract_login_fields() {
    let item = json(
        "{\"id\":\"item-1\",\"name\":\"GitHub Readonly Token\",\"type\":1,\"login\":{\"username\":\"bot\",\"password\":\"secret\",\"uris\":[{\"uri\":\"https://github.com\"}]},\"fields\":[{\"name\":\"scope\",\"value\":\"read\"}]}",
    );
    let catalog = build_catalog(
        std::slice::from_ref(&item),
        vec!["agent-a".to_string()],
        false,
        60,
    );
    let entry = catalog.secrets.get("github_readonly_token").unwrap();
    assert_eq!(
        entry.return_fields,
        vec!["username", "password", "uris", "custom.scope"]
    );
    assert_eq!(to_value(&entry.metadata)["login_urls"], value("[\"https://github.com\"]"));
    let extracted = extract_fields(&item, &entry.return_fields);
    assert_eq!(to_value(extracted.get("username").unwrap()), "bot");
    assert_eq!(to_value(extracted.get("password").unwrap()), "secret");
    assert_eq!(
        to_value(extracted.get("uris").unwrap()),
        value("[\"https://github.com\"]")
    );
    assert_eq!(to_value(extracted.get("custom.scope").unwrap()), "read");

    let visible = visible_catalog(
        &catalog,
        &ClientConfig {
            id: "agent-a".to_string(),
            secret: "client-secret".to_string(),
            approval: ClientApprovalMode::Prompt,
            allowed_secrets: vec!["*".to_string()],
        },
    );
    assert_eq!(
        to_value(&visible)["secrets"][0]["login_urls"],
        value("[\"https://github.com\"]")
    );
}

#[test]
fn names_become_slugs() {
    assert_eq!(slugify("GitHub Readonly Token"), "github_readonly_token");
    assert_eq!(slugify("  A--b__C  9 "), "a_b_c_9");
    assert_eq!(slugify("\u{e4}\u{f6}"), "secret");
    assert_eq!(slugify(""), "secret");
}

#[test]
fn kinds_have_names() {
    let kinds: Vec<&str> = [1, 2, 3, 4, 5, 0, -1].iter().map(|n| item_kind(*n)).collect();
    assert_eq!(kinds[..4], ["login", "secure_note", "card", "identity"]);
    assert_eq!(kinds[5], kinds[6]);
}

#[test]
fn items_of_one_name_are_told_apart() {
    let items = parse_json_list(
        b"[{\"id\":\"aaaaaaaa-1\",\"name\":\"Token\"},{\"id\":\"bbbbbbbb-2\",\"name\":\"token\"},{\"id\":\"cc\",\"name\":\"TOKEN!\"},{\"id\":\"dd\",\"name\":\"gone\",\"deletedDate\":\"2024\"},{\"id\":\"\",\"name\":\"empty\"},{\"name\":\"none\"},{\"id\":\"ee\"}]",
    )
    .unwrap();
    let catalog = build_catalog(&items, Vec::new(), false, 5);
    assert_eq!(
        names(&catalog),
        vec!["secret", "token", "token_bbbbbbbb", "token_cc"]
    );
    let entry = catalog.secrets.get("token_bbbbbbbb").unwrap();
    assert_eq!(entry.item_id, "bbbbbbbb-2");
    assert_eq!(entry.ttl_seconds, 5);
    assert!(entry.approval_required);
}

#[test]
fn order_of_items_does_not_matter() {
    let shown = |text: &str| {
        let items = parse_json_list(text.as_bytes()).unwrap();
        let catalog = build_catalog(&items, Vec::new(), false, 5);
        to_value(&visible_catalog(&catalog, &client("c", ClientApprovalMode::Prompt, &["*"])))
    };
    let one = "{\"id\":\"a\",\"name\":\"One\"}";
    let two = "{\"id\":\"b\",\"name\":\"Two\"}";
    let forth = shown(&format!("[{one},{two}]"));
    assert_eq!(forth, shown(&format!("[{two},{one}]")));
    assert_eq!(forth["secrets"].as_array().unwrap().len(), 2);
}

#[test]
fn names_are_hidden_on_demand() {
    let items = parse_json_list(b"[{\"id\":\"a\",\"name\":\"Bank\",\"type\":2}]").unwrap();
    let shown = build_catalog(&items, Vec::new(), false, 5);
    assert_eq!(shown.secrets.get("bank").unwrap().description, "Bank");
    let hidden = build_catalog(&items, Vec::new(), true, 5);
    assert_eq!(hidden.secrets.get("bank").unwrap().description, "secure_note item");
}

#[test]
fn catalog_does_not_depend_on_secret_values() {
    let item = |password: &str| {
        json(&format!(
            "{{\"id\":\"a\",\"name\":\"n\",\"login\":{{\"password\":\"{password}\"}}}}"
        ))
    };
    let shown = |item: Json| {
        let catalog = build_catalog(&[item], Vec::new(), false, 5);
        to_value(&visible_catalog(&catalog, &client("c", ClientApprovalMode::Prompt, &["*"])))
    };
    assert_eq!(shown(item("one")), shown(item("two")));
}

#[test]
fn offered_fields_hold_something() {
    let item = json(
        "{\"login\":{\"username\":null,\"password\":\"p\",\"totp\":\"t\",\"uris\":[]},\"notes\":\"x\",\"fields\":[{\"name\":\"a\",\"value\":\"1\"},{\"value\":\"2\"}]}",
    );
    let fields = infer_return_fields(&item);
    assert!(fields.contains(&"password".to_string()));
    assert!(fields.contains(&"totp".to_string()));
    assert!(fields.contains(&"notes".to_string()));
    assert!(fields.contains(&"custom.a".to_string()));
    assert!(!fields.contains(&"username".to_string()));
    assert!(!fields.contains(&"uris".to_string()));
}

#[test]
fn every_field_has_its_place_in_an_item() {
    let item = json(
        "{\"name\":\"n\",\"notes\":\"o\",\"login\":{\"username\":\"u\",\"password\":\"p\",\"totp\":\"t\",\"uris\":[{},{\"uri\":\"x\"},{\"uri\":\"y\"}]},\"fields\":[{\"name\":\"k\"},{\"name\":\"k\",\"value\":7}]}",
    );
    let fields = strings(&[
        "name", "username", "password", "uris", "uri", "totp", "notes", "custom.k", "custom.z",
        "other",
    ]);
    assert_eq!(
        object_value(&extract_fields(&item, &fields)),
        value("{\"name\":\"n\",\"username\":\"u\",\"password\":\"p\",\"uris\":[\"x\",\"y\"],\"uri\":\"x\",\"totp\":\"t\",\"notes\":\"o\",\"custom.k\":7,\"custom.z\":null,\"other\":null}")
    );
    assert_eq!(login_urls(&item), strings(&["x", "y"]));
}

#[test]
fn client_gets_what_is_listed_for_it() {
    let items =
        parse_json_list(b"[{\"id\":\"a\",\"name\":\"one\"},{\"id\":\"b\",\"name\":\"two\"}]")
            .unwrap();
    let catalog = build_catalog(&items, strings(&["c"]), false, 5);
    let permitted = client("c", ClientApprovalMode::Prompt, &["one"]);
    let shown = to_value(&visible_catalog(&catalog, &permitted));
    assert_eq!(shown["version"], 1);
    assert_eq!(shown["secrets"].as_array().unwrap().len(), 1);
    assert_eq!(shown["secrets"][0]["id"], "one");
    assert!(require_secret(&catalog, &permitted, "one").is_ok());
    assert_eq!(
        require_secret(&catalog, &permitted, "two").unwrap_err().message(),
        "client is not allowed to request this secret"
    );
    assert_eq!(
        require_secret(&catalog, &permitted, "three").unwrap_err().message(),
        "unknown secret id: three"
    );
    let stranger = client("d", ClientApprovalMode::Trusted, &["*"]);
    assert!(require_secret(&catalog, &stranger, "one").is_err());
}

#[test]
fn lists_of_names_admit_by_name_or_by_star() {
    assert!(client_allows_secret(&client("c", ClientApprovalMode::Prompt, &["*"]), "x"));
    assert!(client_allows_secret(&client("c", ClientApprovalMode::Prompt, &["x"]), "x"));
    assert!(!client_allows_secret(&client("c", ClientApprovalMode::Prompt, &[]), "x"));
    let items = parse_json_list(b"[{\"id\":\"a\",\"name\":\"one\"}]").unwrap();
    let open = build_catalog(&items, Vec::new(), false, 5);
    assert!(entry_allows_client(open.secrets.get("one").unwrap(), "anyone"));
    let closed = build_catalog(&items, strings(&["c"]), false, 5);
    assert!(!entry_allows_client(closed.secrets.get("one").unwrap(), "anyone"));
}

#[test]
fn trust_spares_the_question_and_no_more() {
    let items = parse_json_list(b"[{\"id\":\"a\",\"name\":\"one\"}]").unwrap();
    let catalog = build_catalog(&items, Vec::new(), false, 5);
    let entry = catalog.secrets.get("one").unwrap();
    assert!(approval_needed(&client("c", ClientApprovalMode::Prompt, &["*"]), entry));
    assert!(!approval_needed(&client("c", ClientApprovalMode::Trusted, &["*"]), entry));
    let trusted = client("c", ClientApprovalMode::Trusted, &["two"]);
    assert!(require_secret(&catalog, &trusted, "one").is_err());
}

#[test]
fn empty_catalog_is_empty() {
    let catalog = empty_catalog();
    assert_eq!(catalog.version, 1);
    assert!(catalog.secrets.entries().is_empty());
    assert_eq!(default_ttl(), 60);
}

#[test]
fn json_is_read_as_it_is_written() {
    let text = "{\"a\":[1,-2,18446744073709551615,0.5,true,null,\"x\\n\"],\"b\":{\"c\":\"d\"}}";
    assert_eq!(to_value(&json(text)), value(text));
    assert_eq!(json("{\"a\":1,\"a\":2}").get("a").unwrap().as_int(), Some(2));
    assert!(parse_json(b"{").is_err());
    assert!(parse_json_list(b"{}").is_err());
    assert_eq!(parse_json_list(b"[1,2]").unwrap().len(), 2);
}

#[test]
fn maps_keep_their_keys_in_order() {
    let mut map: TextMap<u8> = TextMap::new();
    for (key, n) in [("b", 1), ("a", 2), ("b", 3), ("aa", 4)] {
        map.insert(key.to_string(), n);
    }
    assert_eq!(
        *map.entries(),
        vec![("a".to_string(), 2), ("aa".to_string(), 4), ("b".to_string(), 3)]
    );
    assert_eq!(map.get("aa"), Some(&4));
    assert_eq!(map.get("c"), None);
}
