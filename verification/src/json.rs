//! JSON values.
//!
//! Values are `serde_json`'s own. Contracts speak of what such a value holds.
use vstd::prelude::*;

use crate::text::{text_option, texts};

verus! {

/// What a JSON value holds.
pub enum Json {
    Null,
    Bool(bool),
    /// A number that is a whole one and not negative.
    Unsigned(u64),
    /// A number that is a whole one and negative.
    Negative(i64),
    /// Any other number, by the bit pattern of its double-precision value.
    Float(u64),
    Text(Seq<char>),
    List(Seq<Json>),
    Object(Map<Seq<char>, Json>),
}

/// `serde_json::Value`, a JSON value.
#[verifier::external_type_specification]
#[verifier::external_body]
pub struct ExValue(serde_json::Value);

/// What a `serde_json::Value` holds.
pub uninterp spec fn json_of(v: serde_json::Value) -> Json;

/// What `serde_json` reads out of a text: the value, or its description of what
/// is wrong with the text.
pub uninterp spec fn parsed(text: Seq<char>) -> Result<Json, Seq<char>>;

/// Whether a value is what `serde_json` reads out of a text.
pub open spec fn reads_as(text: Seq<char>, json: Json) -> bool {
    parsed(text) matches Ok(read) && read == json
}

/// How `serde_json` writes a value.
pub uninterp spec fn written(json: Json) -> Seq<char>;

/// The member of an object under a key, and null where there is none.
pub open spec fn member(json: Json, key: Seq<char>) -> Json {
    match json {
        Json::Object(members) => if members.contains_key(key) {
            members[key]
        } else {
            Json::Null
        },
        _ => Json::Null,
    }
}

/// The text that a value is, where it is one.
pub open spec fn as_text(json: Json) -> Option<Seq<char>> {
    match json {
        Json::Text(text) => Some(text),
        _ => None,
    }
}

/// The text that a value is, or another text where it is none.
pub open spec fn text_or(json: Json, other: Seq<char>) -> Seq<char> {
    match json {
        Json::Text(text) => text,
        _ => other,
    }
}

/// The whole number that a value is, where it is one and not negative.
pub open spec fn as_unsigned(json: Json) -> Option<u64> {
    match json {
        Json::Unsigned(n) => Some(n),
        _ => None,
    }
}

/// The whole number that a value is, or another one.
pub open spec fn unsigned_or(json: Json, other: u64) -> u64 {
    match json {
        Json::Unsigned(n) => n,
        _ => other,
    }
}

/// The members of an object that are texts.
pub open spec fn text_members(json: Json) -> Map<Seq<char>, Seq<char>> {
    match json {
        Json::Object(members) => Map::new(
            |key: Seq<char>| members.contains_key(key) && members[key] is Text,
            |key: Seq<char>| members[key]->Text_0,
        ),
        _ => Map::empty(),
    }
}

/// The values of a list.
pub open spec fn jsons(list: Seq<serde_json::Value>) -> Seq<Json> {
    Seq::new(list.len(), |i: int| json_of(list[i]))
}

/// Whether a value holds no number but whole ones and is nested less than
/// `depth` deep.
pub open spec fn plain(json: Json, depth: nat) -> bool
    decreases depth,
{
    match json {
        Json::Null | Json::Bool(_) | Json::Unsigned(_) | Json::Text(_) => true,
        Json::Negative(n) => n < 0,
        Json::Float(_) => false,
        Json::List(items) => depth > 0 && forall|i: int|
            0 <= i < items.len() ==> plain(#[trigger] items[i], (depth - 1) as nat),
        Json::Object(members) => depth > 0 && forall|key: Seq<char>| #[trigger]
            members.contains_key(key) ==> plain(members[key], (depth - 1) as nat),
    }
}

/// How deep a value may be nested so that what was written can be read again.
pub const READABLE_DEPTH: u8 = 100;

/// `serde_json::from_str`: reads a value out of a text. A failure is handed on
/// as its description.
#[verifier::external_body]
pub(crate) fn parse_text(text: &str) -> (r: Result<serde_json::Value, String>)
    ensures
        match r {
            Ok(v) => parsed(text@) matches Ok(json) && json == json_of(v),
            Err(e) => parsed(text@) matches Err(reason) && reason == e@,
        },
{
    serde_json::from_str::<serde_json::Value>(text).map_err(|e| e.to_string())
}

/// `Value`'s `to_string`: the value as compact text. What was written is read
/// back as the same value, unless it holds a fraction or is nested more deeply
/// than the parser goes.
#[verifier::external_body]
pub(crate) fn write_text(v: &serde_json::Value) -> (text: String)
    ensures
        text@ == written(json_of(*v)),
        plain(json_of(*v), READABLE_DEPTH as nat) ==> reads_as(text@, json_of(*v)),
{
    v.to_string()
}

/// `Value`'s index operator: the member under a key, and null where the value is
/// no object or has no such member.
#[verifier::external_body]
pub(crate) fn at<'a>(v: &'a serde_json::Value, key: &str) -> (m: &'a serde_json::Value)
    ensures
        json_of(*m) == member(json_of(*v), key@),
{
    &v[key]
}

/// `Value::as_str`: the text, where the value is one.
pub assume_specification[ serde_json::Value::as_str ](v: &serde_json::Value) -> (r: Option<&str>)
    ensures
        match r {
            Some(s) => as_text(json_of(*v)) == Some(s@),
            None => as_text(json_of(*v)) is None,
        },
;

/// `Value::as_u64`: the number, where the value is a whole one and not negative.
pub assume_specification[ serde_json::Value::as_u64 ](v: &serde_json::Value) -> (r: Option<u64>)
    ensures
        r == as_unsigned(json_of(*v)),
;

/// `Value::as_object` and the map's `keys`: the keys of an object, each once, in
/// no stated order.
#[verifier::external_body]
pub(crate) fn keys(v: &serde_json::Value) -> (r: Option<Vec<String>>)
    ensures
        match r {
            Some(list) => {
                &&& json_of(*v) is Object
                &&& texts(list@).no_duplicates()
                &&& texts(list@).to_set() == json_of(*v)->Object_0.dom()
            },
            None => !(json_of(*v) is Object),
        },
{
    v.as_object().map(|members| members.keys().cloned().collect())
}

/// `Value::Null`.
#[verifier::external_body]
pub(crate) fn null() -> (v: serde_json::Value)
    ensures
        json_of(v) == Json::Null,
{
    serde_json::Value::Null
}

/// `Value::from` on a text.
#[verifier::external_body]
pub(crate) fn text(s: &str) -> (v: serde_json::Value)
    ensures
        json_of(v) == Json::Text(s@),
{
    serde_json::Value::from(s)
}

/// `Value::from` on a number.
#[verifier::external_body]
pub(crate) fn number(n: u64) -> (v: serde_json::Value)
    ensures
        json_of(v) == Json::Unsigned(n),
{
    serde_json::Value::from(n)
}

/// `Value::from` on a truth value.
#[verifier::external_body]
pub(crate) fn truth(b: bool) -> (v: serde_json::Value)
    ensures
        json_of(v) == Json::Bool(b),
{
    serde_json::Value::from(b)
}

/// `Value::from` on a vector: a list of its items.
#[verifier::external_body]
pub(crate) fn list(items: Vec<serde_json::Value>) -> (v: serde_json::Value)
    ensures
        json_of(v) == Json::List(jsons(items@)),
{
    serde_json::Value::from(items)
}

/// `Value::Object` on `Map::new`: an object without members.
#[verifier::external_body]
pub(crate) fn no_members() -> (v: serde_json::Value)
    ensures
        json_of(v) == Json::Object(Map::empty()),
{
    serde_json::Value::Object(serde_json::Map::new())
}

/// An assignment through `Value`'s mutable index operator: puts a member of an
/// object in, or replaces the one that is there. Of other values it makes an
/// object or gives up, so they are left out.
#[verifier::external_body]
pub(crate) fn put(v: &mut serde_json::Value, key: &str, member: serde_json::Value)
    requires
        json_of(*old(v)) is Object,
    ensures
        json_of(*final(v)) == Json::Object(
            json_of(*old(v))->Object_0.insert(key@, json_of(member)),
        ),
{
    v[key] = member;
}

/// An object with one member.
pub open spec fn obj1(k1: Seq<char>, v1: Json) -> Json {
    Json::Object(Map::empty().insert(k1, v1))
}

/// An object with two members.
pub open spec fn obj2(k1: Seq<char>, v1: Json, k2: Seq<char>, v2: Json) -> Json {
    Json::Object(Map::empty().insert(k1, v1).insert(k2, v2))
}

/// An object with three members.
pub open spec fn obj3(
    k1: Seq<char>,
    v1: Json,
    k2: Seq<char>,
    v2: Json,
    k3: Seq<char>,
    v3: Json,
) -> Json {
    Json::Object(Map::empty().insert(k1, v1).insert(k2, v2).insert(k3, v3))
}

/// Makes an object with one member.
pub(crate) fn object1(k1: &str, v1: serde_json::Value) -> (v: serde_json::Value)
    ensures
        json_of(v) == obj1(k1@, json_of(v1)),
{
    let mut v = no_members();
    put(&mut v, k1, v1);
    v
}

/// Makes an object with two members.
pub(crate) fn object2(k1: &str, v1: serde_json::Value, k2: &str, v2: serde_json::Value) -> (v:
    serde_json::Value)
    ensures
        json_of(v) == obj2(k1@, json_of(v1), k2@, json_of(v2)),
{
    let mut v = object1(k1, v1);
    put(&mut v, k2, v2);
    v
}

/// Makes an object with three members.
pub(crate) fn object3(
    k1: &str,
    v1: serde_json::Value,
    k2: &str,
    v2: serde_json::Value,
    k3: &str,
    v3: serde_json::Value,
) -> (v: serde_json::Value)
    ensures
        json_of(v) == obj3(k1@, json_of(v1), k2@, json_of(v2), k3@, json_of(v3)),
{
    let mut v = object2(k1, v1, k2, v2);
    put(&mut v, k3, v3);
    v
}

/// The text that a value is, or another text where it is none.
pub(crate) fn str_or(v: &serde_json::Value, other: &str) -> (s: String)
    ensures
        s@ == text_or(json_of(*v), other@),
{
    match v.as_str() {
        Some(s) => s.to_owned(),
        None => other.to_owned(),
    }
}

/// The whole number that a value is, or another one.
pub(crate) fn u64_or(v: &serde_json::Value, other: u64) -> (n: u64)
    ensures
        n == unsigned_or(json_of(*v), other),
{
    match v.as_u64() {
        Some(n) => n,
        None => other,
    }
}

/// The text that a value is, where it is one.
pub(crate) fn str_option(v: &serde_json::Value) -> (s: Option<String>)
    ensures
        text_option(s) == as_text(json_of(*v)),
{
    match v.as_str() {
        Some(s) => Some(s.to_owned()),
        None => None,
    }
}

/// The entries that a list of pairs makes. Of two pairs with one key the later
/// one counts.
pub open spec fn pair_map(list: Seq<(String, String)>) -> Map<Seq<char>, Seq<char>>
    decreases list.len(),
{
    if list.len() == 0 {
        Map::empty()
    } else {
        pair_map(list.drop_last()).insert(list.last().0@, list.last().1@)
    }
}

/// The keys of a list of pairs.
pub open spec fn pair_keys(list: Seq<(String, String)>) -> Seq<Seq<char>> {
    Seq::new(list.len(), |i: int| list[i].0@)
}

/// The members of an object that are texts, each key once, in no stated order.
pub(crate) fn str_members(v: &serde_json::Value) -> (list: Vec<(String, String)>)
    ensures
        pair_map(list@) == text_members(json_of(*v)),
        pair_keys(list@).no_duplicates(),
{
    let mut list: Vec<(String, String)> = Vec::new();
    let ghost want = text_members(json_of(*v));
    match keys(v) {
        Some(names) => {
            let ghost all = texts(names@);
            let mut i: usize = 0;
            while i < names.len()
                invariant
                    i <= names.len(),
                    all == texts(names@),
                    all.no_duplicates(),
                    json_of(*v) is Object,
                    all.to_set() == json_of(*v)->Object_0.dom(),
                    want == text_members(json_of(*v)),
                    pair_keys(list@).no_duplicates(),
                    forall|j: int|
                        0 <= j < list.len() ==> all.take(i as int).contains(
                            #[trigger] pair_keys(list@)[j],
                        ),
                    pair_map(list@) == want.restrict(all.take(i as int).to_set()),
                decreases names.len() - i,
            {
                let ghost before = list@;
                let ghost name = names@[i as int]@;
                proof {
                    assert(all[i as int] == name);
                    assert(all.to_set().contains(name));
                    assert(all.take(i + 1) =~= all.take(i as int).push(name));
                    if all.take(i as int).contains(name) {
                        let j = all.take(i as int).index_of(name);
                        assert(all[j] == name);
                    }
                    assert forall|key: Seq<char>| #[trigger]
                        all.take(i + 1).contains(key) <==> all.take(i as int).contains(key) || key
                        == name by {
                        if all.take(i as int).contains(key) {
                            let j = all.take(i as int).index_of(key);
                            assert(all.take(i + 1)[j] == key);
                        }
                        if key == name {
                            assert(all.take(i + 1)[i as int] == key);
                        }
                        if all.take(i + 1).contains(key) && key != name {
                            let j = all.take(i + 1).index_of(key);
                            assert(all.take(i as int)[j] == key);
                        }
                    }
                }
                let member = at(v, names[i].as_str());
                match member.as_str() {
                    Some(s) => {
                        list.push((names[i].clone(), s.to_owned()));
                        proof {
                            assert(list@.drop_last() =~= before);
                            assert(want.contains_key(name) && want[name] == s@);
                            assert(pair_map(list@) =~= want.restrict(all.take(i + 1).to_set()));
                            assert(pair_keys(list@) =~= pair_keys(before).push(name));
                        }
                    },
                    None => {
                        proof {
                            assert(!want.contains_key(name));
                            assert(pair_map(list@) =~= want.restrict(all.take(i + 1).to_set()));
                        }
                    },
                }
                i = i + 1;
            }
            assert(all.take(i as int) =~= all);
            assert(pair_map(list@) =~= want);
        },
        None => {
            assert(pair_map(list@) =~= want);
        },
    }
    list
}

/// Pairs whose keys differ are found again: under each key its value, and nothing
/// else. Of two pairs with one key the later one is found.
pub proof fn pairs_are_found_by_their_keys(list: Seq<(String, String)>, key: Seq<char>)
    ensures
        pair_map(list).contains_key(key) <==> pair_keys(list).contains(key),
        forall|i: int|
            0 <= i < list.len() && (forall|k: int|
                i < k < list.len() ==> (#[trigger] list[k]).0@ != list[i].0@) ==> pair_map(
                list,
            )[(#[trigger] list[i]).0@] == list[i].1@,
    decreases list.len(),
{
    if list.len() > 0 {
        let front = list.drop_last();
        pairs_are_found_by_their_keys(front, key);
        let keys = pair_keys(list);
        assert(keys.drop_last() =~= pair_keys(front));
        if keys.contains(key) {
            let i = keys.index_of(key);
            if i < front.len() {
                assert(pair_keys(front)[i] == key);
            }
        }
        if pair_keys(front).contains(key) {
            let i = pair_keys(front).index_of(key);
            assert(keys[i] == key);
        }
        if list.last().0@ == key {
            assert(keys[list.len() - 1] == key);
        }
        assert forall|i: int|
            0 <= i < list.len() && (forall|k: int|
                i < k < list.len() ==> (#[trigger] list[k]).0@ != list[i].0@) implies pair_map(
            list,
        )[(#[trigger] list[i]).0@] == list[i].1@ by {
            if i < front.len() {
                assert(list[list.len() - 1].0@ != list[i].0@);
                assert forall|k: int| i < k < front.len() implies (#[trigger] front[k]).0@
                    != front[i].0@ by {
                    assert(list[k].0@ != list[i].0@);
                }
                assert(front[i] == list[i]);
            }
        }
    }
}

/// What is found in a value: the member of an object under a key, and otherwise
/// null; a text or a whole number where the value is one, and otherwise what is
/// to stand for it.
pub proof fn values_give_what_they_hold(
    members: Map<Seq<char>, Json>,
    key: Seq<char>,
    json: Json,
    text: Seq<char>,
    other: Seq<char>,
    n: u64,
    m: u64,
)
    ensures
        members.contains_key(key) ==> member(Json::Object(members), key) == members[key],
        !members.contains_key(key) ==> member(Json::Object(members), key) == Json::Null,
        !(json is Object) ==> member(json, key) == Json::Null,
        text_or(Json::Text(text), other) == text,
        !(json is Text) ==> text_or(json, other) == other && as_text(json) is None,
        as_text(Json::Text(text)) == Some(text),
        unsigned_or(Json::Unsigned(n), m) == n,
        !(json is Unsigned) ==> unsigned_or(json, m) == m && as_unsigned(json) is None,
        as_unsigned(Json::Unsigned(n)) == Some(n),
{
}

} // verus!
