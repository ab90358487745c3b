//! JSON values.
use vstd::prelude::*;

use serde_json::Value;

use crate::text::{decimal, decimal_text, digits_value, lemma_decimal_digits, texts};
use crate::textmap::{entries_map, lemma_entries_value, TextMap};

verus! {

/// A JSON value, as mathematics.
pub enum JsonView {
    Null,
    Bool(bool),
    /// A number that is a 64-bit signed integer.
    Int(i64),
    /// Any other number, as it is written.
    Number(Seq<char>),
    Text(Seq<char>),
    List(Seq<JsonView>),
    Object(Map<Seq<char>, JsonView>),
}

impl JsonView {
    /// The member of an object with a given key.
    pub open spec fn member(self, key: Seq<char>) -> Option<JsonView> {
        match self {
            JsonView::Object(m) => if m.contains_key(key) {
                Some(m[key])
            } else {
                None
            },
            _ => None,
        }
    }

    /// The member of an object with a given key; null where there is none.
    pub open spec fn member_or_null(self, key: Seq<char>) -> JsonView {
        match self.member(key) {
            Some(v) => v,
            None => JsonView::Null,
        }
    }

    /// The text of a value that is a text.
    pub open spec fn as_text(self) -> Option<Seq<char>> {
        match self {
            JsonView::Text(s) => Some(s),
            _ => None,
        }
    }

    /// The text at a given key of an object, where a text is there.
    pub open spec fn text_at(self, key: Seq<char>) -> Option<Seq<char>> {
        self.member_or_null(key).as_text()
    }

    /// The items of a value that is a list.
    pub open spec fn as_list(self) -> Option<Seq<JsonView>> {
        match self {
            JsonView::List(s) => Some(s),
            _ => None,
        }
    }

    /// The list at a given key of an object, where a list is there.
    pub open spec fn list_at(self, key: Seq<char>) -> Option<Seq<JsonView>> {
        self.member_or_null(key).as_list()
    }

    /// The integer of a value that is a 64-bit integer.
    pub open spec fn as_int(self) -> Option<i64> {
        match self {
            JsonView::Int(n) => Some(n),
            _ => None,
        }
    }
}

/// A JSON value.
#[derive(Debug)]
pub enum Json {
    Null,
    Bool(bool),
    /// A number that is a 64-bit signed integer.
    Int(i64),
    /// Any other number, as it is written.
    Number(String),
    Text(String),
    List(Vec<Json>),
    Object(TextMap<Json>),
}

pub open spec fn json_view(j: Json) -> JsonView
    decreases j,
{
    match j {
        Json::Null => JsonView::Null,
        Json::Bool(b) => JsonView::Bool(b),
        Json::Int(n) => JsonView::Int(n),
        Json::Number(s) => JsonView::Number(s@),
        Json::Text(s) => JsonView::Text(s@),
        Json::List(v) => JsonView::List(list_view(v@)),
        Json::Object(m) => {
            proof {
                m.lemma_pairs_smaller();
            }
            JsonView::Object(members_view(m.pairs()))
        },
    }
}

/// The values of a list of JSON values.
pub open spec fn list_view(s: Seq<Json>) -> Seq<JsonView>
    decreases s,
{
    if s.len() == 0 {
        Seq::empty()
    } else {
        list_view(s.drop_last()).push(json_view(s.last()))
    }
}

/// The members of an object, by key.
pub open spec fn members_view(s: Seq<(String, Json)>) -> Map<Seq<char>, JsonView>
    decreases s,
{
    if s.len() == 0 {
        Map::empty()
    } else {
        members_view(s.drop_last()).insert(s.last().0@, json_view(s.last().1))
    }
}

impl View for Json {
    type V = JsonView;

    open spec fn view(&self) -> JsonView {
        json_view(*self)
    }
}

/// The items of a list, one by one.
pub broadcast proof fn lemma_list_view(s: Seq<Json>)
    ensures
        #![trigger list_view(s)]
        list_view(s).len() == s.len(),
        forall|i: int| 0 <= i < s.len() ==> #[trigger] list_view(s)[i] == s[i]@,
    decreases s.len(),
{
    if s.len() > 0 {
        lemma_list_view(s.drop_last());
    }
}

/// The members of an object are the values of its map.
pub proof fn lemma_members_view(s: Seq<(String, Json)>)
    ensures
        members_view(s) == entries_map(s).map_values(|j: Json| j@),
    decreases s.len(),
{
    if s.len() > 0 {
        lemma_members_view(s.drop_last());
    }
    assert(members_view(s) =~= entries_map(s).map_values(|j: Json| j@));
}

/// The members of an object, by key.
pub open spec fn object_view(m: TextMap<Json>) -> Map<Seq<char>, JsonView> {
    members_view(m.pairs())
}

/// Gives an object a member.
pub fn put(object: &mut TextMap<Json>, key: &str, value: Json)
    ensures
        object_view(*final(object)) == object_view(*old(object)).insert(key@, value@),
        final(object).sorted(),
{
    let ghost before = object.pairs();
    object.insert(key.to_string(), value);
    proof {
        lemma_members_view(before);
        lemma_members_view(object.pairs());
        assert(object_view(*object) =~= members_view(before).insert(key@, value@));
    }
}

/// A number in JSON: as an integer where it is one of 64 bits with a sign.
pub open spec fn number_view(n: u64) -> JsonView {
    if n <= i64::MAX {
        JsonView::Int(n as i64)
    } else {
        JsonView::Number(decimal(n as nat))
    }
}

/// A list of texts in JSON.
pub open spec fn text_list_view(list: Seq<Seq<char>>) -> JsonView {
    JsonView::List(list.map_values(|s: Seq<char>| JsonView::Text(s)))
}

impl Json {
    /// A text.
    pub fn text(s: &str) -> (r: Json)
        ensures
            r@ == JsonView::Text(s@),
    {
        Json::Text(s.to_string())
    }

    /// A number.
    pub fn number(n: u64) -> (r: Json)
        ensures
            r@ == number_view(n),
    {
        if n <= 9_223_372_036_854_775_807 {
            Json::Int(n as i64)
        } else {
            Json::Number(decimal_text(n))
        }
    }

    /// A list of texts.
    pub fn text_list(list: &[String]) -> (r: Json)
        ensures
            r@ == text_list_view(texts(list@)),
    {
        let mut items: Vec<Json> = Vec::new();
        for i in 0..list.len()
            invariant
                items@.len() == i,
                forall|k: int| 0 <= k < i ==> (#[trigger] items@[k])@ == JsonView::Text(list@[k]@),
        {
            items.push(Json::Text(list[i].clone()));
        }
        proof {
            lemma_list_view(items@);
            assert(list_view(items@) =~= texts(list@).map_values(
                |s: Seq<char>| JsonView::Text(s),
            ));
        }
        Json::List(items)
    }

    /// The member of an object with a given key.
    pub fn get(&self, key: &str) -> (r: Option<&Json>)
        ensures
            match r {
                Some(v) => self@.member(key@) == Some(v@),
                None => self@.member(key@) is None,
            },
    {
        match self {
            Json::Object(m) => {
                proof {
                    lemma_members_view(m.pairs());
                }
                m.get(key)
            },
            _ => None,
        }
    }

    /// The text of a value that is a text.
    pub fn as_text(&self) -> (r: Option<&String>)
        ensures
            match r {
                Some(s) => self@.as_text() == Some(s@),
                None => self@.as_text() is None,
            },
    {
        match self {
            Json::Text(s) => Some(s),
            _ => None,
        }
    }

    /// The text at a given key of an object, where a text is there.
    pub fn text_at(&self, key: &str) -> (r: Option<&String>)
        ensures
            match r {
                Some(s) => self@.text_at(key@) == Some(s@),
                None => self@.text_at(key@) is None,
            },
    {
        match self.get(key) {
            Some(v) => v.as_text(),
            None => None,
        }
    }

    /// The items of a value that is a list.
    pub fn as_list(&self) -> (r: Option<&Vec<Json>>)
        ensures
            match r {
                Some(v) => self@.as_list() == Some(list_view(v@)),
                None => self@.as_list() is None,
            },
    {
        match self {
            Json::List(v) => Some(v),
            _ => None,
        }
    }

    /// The list at a given key of an object, where a list is there.
    pub fn list_at(&self, key: &str) -> (r: Option<&Vec<Json>>)
        ensures
            match r {
                Some(v) => self@.list_at(key@) == Some(list_view(v@)),
                None => self@.list_at(key@) is None,
            },
    {
        match self.get(key) {
            Some(v) => v.as_list(),
            None => None,
        }
    }

    /// The integer of a value that is a 64-bit integer.
    pub fn as_int(&self) -> (r: Option<i64>)
        ensures
            r == self@.as_int(),
    {
        match self {
            Json::Int(n) => Some(*n),
            _ => None,
        }
    }

    pub fn is_null(&self) -> (r: bool)
        ensures
            r == (self@ is Null),
    {
        match self {
            Json::Null => true,
            _ => false,
        }
    }

    /// Whether an object has nothing but null at a given key.
    pub fn null_at(&self, key: &str) -> (r: bool)
        ensures
            r == (self@.member_or_null(key@) is Null),
    {
        match self.get(key) {
            Some(v) => v.is_null(),
            None => true,
        }
    }

    /// A copy of the member of an object with a given key; null where there is
    /// none.
    pub fn copy_at(&self, key: &str) -> (r: Json)
        ensures
            r@ == self@.member_or_null(key@),
    {
        match self.get(key) {
            Some(v) => v.clone(),
            None => Json::Null,
        }
    }
}

impl Clone for Json {
    fn clone(&self) -> (r: Json)
        ensures
            r@ == self@,
        decreases self,
    {
        match self {
            Json::Null => Json::Null,
            Json::Bool(b) => Json::Bool(*b),
            Json::Int(n) => Json::Int(*n),
            Json::Number(s) => Json::Number(s.clone()),
            Json::Text(s) => Json::Text(s.clone()),
            Json::List(v) => {
                let mut items: Vec<Json> = Vec::new();
                for i in 0..v.len()
                    invariant
                        self matches Json::List(w) && w == v,
                        items@.len() == i,
                        forall|k: int| 0 <= k < i ==> (#[trigger] items@[k])@ == v@[k]@,
                {
                    items.push(v[i].clone());
                }
                proof {
                    lemma_list_view(items@);
                    lemma_list_view(v@);
                    assert(list_view(items@) =~= list_view(v@));
                }
                Json::List(items)
            },
            Json::Object(m) => {
                let entries = m.entries();
                let mut copy: TextMap<Json> = TextMap::new();
                for i in 0..entries.len()
                    invariant
                        self matches Json::Object(w) && w == m,
                        entries@ == m.pairs(),
                        object_view(copy) == members_view(entries@.take(i as int)),
                {
                    proof {
                        m.lemma_pairs_smaller();
                        assert(decreases_to!(self => m.pairs()[i as int].1));
                    }
                    put(&mut copy, entries[i].0.as_str(), entries[i].1.clone());
                    assert(entries@.take(i + 1).drop_last() =~= entries@.take(i as int));
                }
                assert(entries@.take(entries@.len() as int) =~= entries@);
                Json::Object(copy)
            },
        }
    }
}

/// The JSON value type of serde_json.
#[verifier::external_type_specification]
#[verifier::external_body]
pub struct ExValue(serde_json::Value);

/// What a `serde_json::Value` holds.
pub uninterp spec fn value_tree(v: Value) -> JsonView;

/// What `serde_json::from_slice` makes of a byte string: the value that it
/// reads, or the text of its error.
pub uninterp spec fn json_text(bytes: Seq<u8>) -> Result<JsonView, Seq<char>>;

/// What `serde_json::from_slice` makes of a byte string where a list is wanted:
/// the items, or the text of its error.
pub uninterp spec fn json_list(bytes: Seq<u8>) -> Result<Seq<JsonView>, Seq<char>>;

/// The outermost layer of a JSON value.
pub enum Layer {
    Null,
    Bool(bool),
    Number(Option<i64>, String),
    Text(String),
    List(Vec<Value>),
    Object(Vec<(String, Value)>),
}

/// Whether no key occurs twice.
pub open spec fn keys_distinct(entries: Seq<(String, Value)>) -> bool {
    forall|i: int, j: int|
        0 <= i < j < entries.len() ==> (#[trigger] entries[i]).0@ != (#[trigger] entries[j]).0@
}

/// `serde_json::from_slice`: reads a value, or fails with a text, as the bytes
/// alone decide.
#[verifier::external_body]
fn parse_value(bytes: &[u8]) -> (r: Result<Value, String>)
    ensures
        match r {
            Ok(v) => json_text(bytes@) == Ok::<JsonView, Seq<char>>(value_tree(v)),
            Err(e) => json_text(bytes@) == Err::<JsonView, Seq<char>>(e@),
        },
{
    match serde_json::from_slice::<Value>(bytes) {
        Ok(v) => Ok(v),
        Err(e) => Err(e.to_string()),
    }
}

/// `serde_json::from_slice` for a list of values: reads the items, or fails with
/// a text, as the bytes alone decide.
#[verifier::external_body]
fn parse_values(bytes: &[u8]) -> (r: Result<Vec<Value>, String>)
    ensures
        match r {
            Ok(items) => json_list(bytes@) == Ok::<Seq<JsonView>, Seq<char>>(
                items@.map_values(|x: Value| value_tree(x)),
            ),
            Err(e) => json_list(bytes@) == Err::<Seq<JsonView>, Seq<char>>(e@),
        },
{
    match serde_json::from_slice::<Vec<Value>>(bytes) {
        Ok(items) => Ok(items),
        Err(e) => Err(e.to_string()),
    }
}

/// The variants of `serde_json::Value`, told apart, with `Number::as_i64` and
/// the written form for a number and the entries of its map for an object. A
/// map has no key twice; its order is left unsaid.
#[verifier::external_body]
fn open_value(v: Value) -> (r: Layer)
    ensures
        match r {
            Layer::Null => value_tree(v) == JsonView::Null,
            Layer::Bool(b) => value_tree(v) == JsonView::Bool(b),
            Layer::Number(Some(n), _) => value_tree(v) == JsonView::Int(n),
            Layer::Number(None, s) => value_tree(v) == JsonView::Number(s@),
            Layer::Text(s) => value_tree(v) == JsonView::Text(s@),
            Layer::List(items) => value_tree(v) == JsonView::List(
                items@.map_values(|x: Value| value_tree(x)),
            ),
            Layer::Object(entries) => keys_distinct(entries@) && value_tree(v) == JsonView::Object(
                entries_map(entries@).map_values(|x: Value| value_tree(x)),
            ),
        },
{
    match v {
        Value::Null => Layer::Null,
        Value::Bool(b) => Layer::Bool(b),
        Value::Number(n) => Layer::Number(n.as_i64(), n.to_string()),
        Value::String(s) => Layer::Text(s),
        Value::Array(items) => Layer::List(items),
        Value::Object(map) => Layer::Object(map.into_iter().collect()),
    }
}

proof fn lemma_entries_finite<V>(s: Seq<(String, V)>)
    ensures
        entries_map(s).dom().finite(),
    decreases s.len(),
{
    if s.len() > 0 {
        lemma_entries_finite(s.drop_last());
    }
}

/// Takes over a value of serde_json.
pub fn from_value(v: Value) -> (r: Json)
    ensures
        r@ == value_tree(v),
    decreases value_tree(v),
{
    match open_value(v) {
        Layer::Null => Json::Null,
        Layer::Bool(b) => Json::Bool(b),
        Layer::Number(Some(n), _) => Json::Int(n),
        Layer::Number(None, s) => Json::Number(s),
        Layer::Text(s) => Json::Text(s),
        Layer::List(items) => {
            let ghost all = items@;
            let mut out: Vec<Json> = Vec::new();
            for x in it: items
                invariant
                    it.seq() == all,
                    value_tree(v) == JsonView::List(all.map_values(|x: Value| value_tree(x))),
                    out@.len() == it.index(),
                    forall|k: int|
                        0 <= k < it.index() ==> (#[trigger] out@[k])@ == value_tree(all[k]),
            {
                let ghost k = it.index() as int;
                assert(value_tree(x) == value_tree(v)->List_0[k]);
                out.push(from_value(x));
            }
            proof {
                lemma_list_view(out@);
                assert(list_view(out@) =~= all.map_values(|x: Value| value_tree(x)));
            }
            Json::List(out)
        },
        Layer::Object(entries) => {
            let ghost all = entries@;
            let mut out: TextMap<Json> = TextMap::new();
            for e in it: entries
                invariant
                    it.seq() == all,
                    keys_distinct(all),
                    value_tree(v) == JsonView::Object(
                        entries_map(all).map_values(|x: Value| value_tree(x)),
                    ),
                    object_view(out) == entries_map(all.take(it.index() as int)).map_values(
                        |x: Value| value_tree(x),
                    ),
            {
                let ghost k = it.index() as int;
                proof {
                    lemma_entries_value(all, k);
                    lemma_entries_finite(all);
                    let m = value_tree(v)->Object_0;
                    assert(m.dom() =~= entries_map(all).dom());
                    assert(m[e.0@] == value_tree(e.1));
                }
                let value = from_value(e.1);
                put(&mut out, e.0.as_str(), value);
                proof {
                    assert(all.take(k + 1).drop_last() =~= all.take(k));
                    assert(object_view(out) =~= entries_map(all.take(k + 1)).map_values(
                        |x: Value| value_tree(x),
                    ));
                }
            }
            assert(all.take(all.len() as int) =~= all);
            Json::Object(out)
        },
    }
}

/// Reads a JSON value.
pub fn parse_json(bytes: &[u8]) -> (r: Result<Json, String>)
    ensures
        match r {
            Ok(j) => json_text(bytes@) == Ok::<JsonView, Seq<char>>(j@),
            Err(e) => json_text(bytes@) == Err::<JsonView, Seq<char>>(e@),
        },
{
    match parse_value(bytes) {
        Ok(v) => Ok(from_value(v)),
        Err(e) => Err(e),
    }
}

/// Reads a list of JSON values.
pub fn parse_json_list(bytes: &[u8]) -> (r: Result<Vec<Json>, String>)
    ensures
        match r {
            Ok(items) => json_list(bytes@) == Ok::<Seq<JsonView>, Seq<char>>(list_view(items@)),
            Err(e) => json_list(bytes@) == Err::<Seq<JsonView>, Seq<char>>(e@),
        },
{
    let values = match parse_values(bytes) {
        Ok(values) => values,
        Err(e) => return Err(e),
    };
    let ghost all = values@;
    let mut out: Vec<Json> = Vec::new();
    for x in it: values
        invariant
            it.seq() == all,
            out@.len() == it.index(),
            forall|k: int| 0 <= k < it.index() ==> (#[trigger] out@[k])@ == value_tree(all[k]),
    {
        out.push(from_value(x));
    }
    proof {
        lemma_list_view(out@);
        assert(list_view(out@) =~= all.map_values(|x: Value| value_tree(x)));
    }
    Ok(out)
}

/// An object gives out what stands at a key, as it stands there, and null where
/// nothing does. A text or a list is found exactly where one stands.
pub proof fn law_members_are_read(m: Map<Seq<char>, JsonView>, key: Seq<char>)
    ensures
        m.contains_key(key) ==> JsonView::Object(m).member(key) == Some(m[key]),
        m.contains_key(key) ==> JsonView::Object(m).member_or_null(key) == m[key],
        !m.contains_key(key) ==> JsonView::Object(m).member(key) is None,
        !m.contains_key(key) ==> JsonView::Object(m).member_or_null(key) == JsonView::Null,
        JsonView::Object(m).text_at(key) == if m.contains_key(key) && m[key] is Text {
            Some(m[key]->Text_0)
        } else {
            None
        },
        JsonView::Object(m).list_at(key) == if m.contains_key(key) && m[key] is List {
            Some(m[key]->List_0)
        } else {
            None
        },
{
}

/// Only objects have members, and no value is of two sorts.
pub proof fn law_values_keep_their_sort(value: JsonView, key: Seq<char>)
    ensures
        !(value is Object) ==> value.member(key) is None && value.member_or_null(key)
            == JsonView::Null && value.text_at(key) is None && value.list_at(key) is None,
        value.as_text() == if value is Text {
            Some(value->Text_0)
        } else {
            None
        },
        value.as_list() == if value is List {
            Some(value->List_0)
        } else {
            None
        },
        value.as_int() == if value is Int {
            Some(value->Int_0)
        } else {
            None
        },
{
}

/// A list of texts holds these texts, each in its place.
pub proof fn law_list_holds_its_texts(list: Seq<Seq<char>>)
    ensures
        text_list_view(list) matches JsonView::List(items) && items.len() == list.len() && forall|
            i: int,
        |
            0 <= i < list.len() ==> #[trigger] items[i] == JsonView::Text(list[i]),
{
}

/// Different numbers are written differently, and one that fits a signed 64-bit
/// integer is written as that integer.
pub proof fn law_numbers_are_kept(a: u64, b: u64)
    ensures
        number_view(a) == number_view(b) ==> a == b,
        a <= i64::MAX ==> (number_view(a) matches JsonView::Int(n) && n == a),
        a > i64::MAX ==> (number_view(a) matches JsonView::Number(s) && digits_value(s) == a),
{
    lemma_decimal_digits(a as nat);
    lemma_decimal_digits(b as nat);
}

} // verus!
