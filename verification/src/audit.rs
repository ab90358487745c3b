//! The log of what was asked for and what was given out.
use vstd::prelude::*;

use crate::config::{expand_path, expanded_path, Config};
use crate::json::{object_view, put, Json, JsonView};
use crate::signing::now_unix;
use crate::text::opt_str;
use crate::textmap::TextMap;

verus! {

/// A line of the log: what is known of the event, when it was, and which.
pub open spec fn record_of(
    fields: Map<Seq<char>, JsonView>,
    event: Seq<char>,
    now: i64,
) -> JsonView {
    JsonView::Object(
        fields.insert("ts"@, JsonView::Int(now)).insert("event"@, JsonView::Text(event)),
    )
}

/// The line of the log for an event at a given time, where there is a log.
pub fn audit_record_at(config: &Config, event: &str, fields: TextMap<Json>, now: i64) -> (r: Option<
    Json,
>)
    ensures
        match r {
            None => !config.audit.enabled,
            Some(line) => config.audit.enabled && line@ == record_of(
                object_view(fields),
                event@,
                now,
            ),
        },
{
    if !config.audit.enabled {
        return None;
    }
    let mut record = fields;
    put(&mut record, "ts", Json::Int(now));
    put(&mut record, "event", Json::text(event));
    Some(Json::Object(record))
}

/// The line of the log for an event at the time that the clock shows, where
/// there is a log.
pub fn write_audit(config: &Config, event: &str, fields: TextMap<Json>) -> (r: Option<Json>)
    ensures
        match r {
            None => !config.audit.enabled,
            Some(line) => config.audit.enabled && exists|now: i64|
                line@ == #[trigger] record_of(object_view(fields), event@, now),
        },
{
    let now = now_unix();
    audit_record_at(config, event, fields, now)
}

/// Where the log stands.
pub fn audit_path(config: &Config, home: &str, user_home: Option<&str>) -> (r: String)
    ensures
        r@ == expanded_path(config.audit.path@, home@, opt_str(user_home)),
{
    expand_path(config.audit.path.as_str(), home, user_home)
}

/// What is logged of a request for a secret.
pub open spec fn event_fields(
    client_id: Seq<char>,
    secret_id: Seq<char>,
    purpose: Seq<char>,
    run_id: Seq<char>,
    fields: Option<Seq<Seq<char>>>,
) -> Map<Seq<char>, JsonView> {
    let known = map![
        "client_id"@ => JsonView::Text(client_id),
        "secret_id"@ => JsonView::Text(secret_id),
        "purpose"@ => JsonView::Text(purpose),
        "run_id"@ => JsonView::Text(run_id),
    ];
    match fields {
        Some(names) => known.insert("fields"@, crate::json::text_list_view(names)),
        None => known,
    }
}

/// What is logged of a request for a secret: who asked for what and why, and
/// the names of the fields that were given out.
pub fn audit_event(
    client_id: &str,
    secret_id: &str,
    purpose: &str,
    run_id: &str,
    fields: Option<&[String]>,
) -> (r: TextMap<Json>)
    ensures
        object_view(r) == event_fields(
            client_id@,
            secret_id@,
            purpose@,
            run_id@,
            match fields {
                Some(names) => Some(crate::text::texts(names@)),
                None => None,
            },
        ),
{
    let mut map: TextMap<Json> = TextMap::new();
    put(&mut map, "client_id", Json::text(client_id));
    put(&mut map, "secret_id", Json::text(secret_id));
    put(&mut map, "purpose", Json::text(purpose));
    put(&mut map, "run_id", Json::text(run_id));
    if let Some(names) = fields {
        put(&mut map, "fields", Json::text_list(names));
    }
    map
}

/// A line of the log says when and what happened, and keeps all else that is
/// known of the event.
pub proof fn law_line_keeps_what_is_known(
    fields: Map<Seq<char>, JsonView>,
    event: Seq<char>,
    now: i64,
    key: Seq<char>,
)
    ensures
        record_of(fields, event, now).member("ts"@) == Some(JsonView::Int(now)),
        record_of(fields, event, now).member("event"@) == Some(JsonView::Text(event)),
        key != "ts"@ && key != "event"@ ==> record_of(fields, event, now).member(key)
            == JsonView::Object(fields).member(key),
{
    reveal_strlit("ts");
    reveal_strlit("event");
    assert("ts"@.len() == 2 && "event"@.len() == 5);
}

/// Of a request is logged who asked for which secret, for what and in which
/// run, and the names of the fields exactly where some were given out.
pub proof fn law_event_member_by_member(
    client_id: Seq<char>,
    secret_id: Seq<char>,
    purpose: Seq<char>,
    run_id: Seq<char>,
    fields: Option<Seq<Seq<char>>>,
)
    ensures
        ({
            let event = JsonView::Object(event_fields(client_id, secret_id, purpose, run_id, fields));
            &&& event.member("client_id"@) == Some(JsonView::Text(client_id))
            &&& event.member("secret_id"@) == Some(JsonView::Text(secret_id))
            &&& event.member("purpose"@) == Some(JsonView::Text(purpose))
            &&& event.member("run_id"@) == Some(JsonView::Text(run_id))
            &&& fields is None ==> event.member("fields"@) is None
            &&& fields is Some ==> event.list_at("fields"@) is Some && event.list_at(
                "fields"@,
            )->0.len() == fields->0.len() && forall|i: int|
                0 <= i < fields->0.len() ==> #[trigger] event.list_at("fields"@)->0[i]
                    == JsonView::Text(fields->0[i])
        }),
{
    reveal_strlit("client_id");
    reveal_strlit("secret_id");
    reveal_strlit("purpose");
    reveal_strlit("run_id");
    reveal_strlit("fields");
    assert("client_id"@.len() == 9 && "client_id"@[0] == 'c');
    assert("secret_id"@.len() == 9 && "secret_id"@[0] == 's');
    assert("purpose"@.len() == 7);
    assert("run_id"@.len() == 6 && "run_id"@[0] == 'r');
    assert("fields"@.len() == 6 && "fields"@[0] == 'f');
}

} // verus!
