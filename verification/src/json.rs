//! A JSON value type for the documents the library builds.

use vstd::prelude::*;

verus! {

/// A JSON value. Objects keep their members in insertion order, with at most
/// one member per key.
#[derive(Debug)]
pub enum JsonValue {
    Null,
    Bool(bool),
    Number(u64),
    Str(String),
    Array(Vec<JsonValue>),
    Object(Vec<(String, JsonValue)>),
}

/// A JSON value as plain mathematical values.
pub enum Json {
    Null,
    Bool(bool),
    Number(nat),
    Str(Seq<char>),
    Array(Seq<Json>),
    Object(Seq<(Seq<char>, Json)>),
}

pub open spec fn json_view(v: JsonValue) -> Json
    decreases v,
{
    match v {
        JsonValue::Null => Json::Null,
        JsonValue::Bool(b) => Json::Bool(b),
        JsonValue::Number(n) => Json::Number(n as nat),
        JsonValue::Str(s) => Json::Str(s@),
        JsonValue::Array(items) => Json::Array(
            Seq::new(items@.len(), |i: int| if 0 <= i < items@.len() { json_view(items@[i]) } else { Json::Null }),
        ),
        JsonValue::Object(members) => Json::Object(
            Seq::new(
                members@.len(),
                |i: int| if 0 <= i < members@.len() { (members@[i].0@, json_view(members@[i].1)) } else { (Seq::empty(), Json::Null) },
            ),
        ),
    }
}


/// The members of an object as plain values.
pub open spec fn members_view(ms: Seq<(String, JsonValue)>) -> Seq<(Seq<char>, Json)> {
    Seq::new(ms.len(), |i: int| if 0 <= i < ms.len() { (ms[i].0@, json_view(ms[i].1)) } else { (Seq::empty(), Json::Null) })
}

pub proof fn lemma_object_view(ms: Vec<(String, JsonValue)>)
    ensures
        json_view(JsonValue::Object(ms)) == Json::Object(members_view(ms@)),
{
    let j = json_view(JsonValue::Object(ms));
    match j {
        Json::Object(x) => {
            assert(x =~= members_view(ms@));
        },
        _ => {},
    }
}

pub proof fn lemma_array_view(items: Vec<JsonValue>)
    ensures
        json_view(JsonValue::Array(items)) == Json::Array(items@.map_values(|v: JsonValue| json_view(v))),
{
    let j = json_view(JsonValue::Array(items));
    match j {
        Json::Array(x) => {
            assert(x =~= items@.map_values(|v: JsonValue| json_view(v)));
        },
        _ => {},
    }
}

/// Index of the last member with key `k`, or -1.
pub open spec fn key_index(ms: Seq<(Seq<char>, Json)>, k: Seq<char>) -> int
    decreases ms.len(),
{
    if ms.len() == 0 {
        -1
    } else if ms.last().0 == k {
        ms.len() - 1
    } else {
        key_index(ms.drop_last(), k)
    }
}

pub proof fn lemma_key_index(ms: Seq<(Seq<char>, Json)>, k: Seq<char>)
    ensures
        -1 <= key_index(ms, k) < ms.len(),
        key_index(ms, k) >= 0 ==> ms[key_index(ms, k)].0 == k,
    decreases ms.len(),
{
    if ms.len() > 0 && ms.last().0 != k {
        lemma_key_index(ms.drop_last(), k);
    }
}

/// The value of key `k`, if the object has one.
pub open spec fn member(ms: Seq<(Seq<char>, Json)>, k: Seq<char>) -> Option<Json> {
    let i = key_index(ms, k);
    if i >= 0 { Some(ms[i].1) } else { None }
}

/// Object insertion (as `serde_json::Map::insert`): the member with key `k`
/// gets value `v`, or `(k, v)` is appended when there is none.
pub open spec fn obj_set(ms: Seq<(Seq<char>, Json)>, k: Seq<char>, v: Json) -> Seq<(Seq<char>, Json)> {
    let i = key_index(ms, k);
    if i >= 0 { ms.update(i, (k, v)) } else { ms.push((k, v)) }
}

/// Insertion that keeps an existing member (as `entry(k).or_insert(v)`).
pub open spec fn obj_set_if_absent(ms: Seq<(Seq<char>, Json)>, k: Seq<char>, v: Json) -> Seq<(Seq<char>, Json)> {
    if key_index(ms, k) >= 0 { ms } else { ms.push((k, v)) }
}

/// Replacing the value of a member keeps where every key is found.
pub proof fn lemma_key_index_update(ms: Seq<(Seq<char>, Json)>, i: int, k: Seq<char>, v: Json, k2: Seq<char>)
    requires
        0 <= i < ms.len(),
        ms[i].0 == k,
    ensures
        key_index(ms.update(i, (k, v)), k2) == key_index(ms, k2),
    decreases ms.len(),
{
    let u = ms.update(i, (k, v));
    if i < ms.len() - 1 {
        assert(u.drop_last() =~= ms.drop_last().update(i, (k, v)));
        lemma_key_index_update(ms.drop_last(), i, k, v, k2);
    } else {
        assert(u.drop_last() =~= ms.drop_last());
    }
}

/// After `obj_set(ms, k, v)`, key `k` has value `v` and every other key keeps
/// its value (or its absence).
pub proof fn lemma_member_obj_set(ms: Seq<(Seq<char>, Json)>, k: Seq<char>, v: Json, k2: Seq<char>)
    ensures
        member(obj_set(ms, k, v), k2) == if k2 == k { Some(v) } else { member(ms, k2) },
{
    lemma_key_index(ms, k);
    lemma_key_index(ms, k2);
    let i = key_index(ms, k);
    if i >= 0 {
        lemma_key_index_update(ms, i, k, v, k2);
        lemma_key_index_update(ms, i, k, v, k);
        let j = key_index(ms, k2);
        if k2 != k && j >= 0 {
            assert(j != i);
        }
    } else {
        assert(ms.push((k, v)).drop_last() =~= ms);
    }
}

/// Finds the last member with key `key`.
pub fn find_key(ms: &Vec<(String, JsonValue)>, key: &str) -> (r: Option<usize>)
    ensures
        match r {
            Some(i) => key_index(members_view(ms@), key@) == i as int,
            None => key_index(members_view(ms@), key@) == -1,
        },
{
    let ghost mv = members_view(ms@);
    let mut found: Option<usize> = None;
    let mut i: usize = 0;
    assert(mv.take(0) =~= Seq::<(Seq<char>, Json)>::empty());
    while i < ms.len()
        invariant
            i <= ms.len(),
            mv == members_view(ms@),
            match found {
                Some(k) => key_index(mv.take(i as int), key@) == k as int,
                None => key_index(mv.take(i as int), key@) == -1,
            },
        decreases ms.len() - i,
    {
        assert(mv.take(i + 1).drop_last() =~= mv.take(i as int));
        assert(mv.take(i + 1).last().0 == ms@[i as int].0@);
        if crate::text::str_eq(ms[i].0.as_str(), key) {
            found = Some(i);
        }
        i = i + 1;
    }
    assert(mv.take(ms.len() as int) =~= mv);
    found
}

/// Inserts `(key, value)` into an object's members, replacing the value of an
/// existing member with that key.
pub fn obj_insert(ms: &mut Vec<(String, JsonValue)>, key: String, value: JsonValue)
    ensures
        members_view(final(ms)@) == obj_set(members_view(old(ms)@), key@, json_view(value)),
{
    proof { lemma_key_index(members_view(ms@), key@); }
    let ghost old_v = members_view(ms@);
    let ghost kv = key@;
    let ghost vv = json_view(value);
    match find_key(ms, key.as_str()) {
        Some(i) => {
            ms.set(i, (key, value));
            assert(members_view(ms@) =~= old_v.update(i as int, (kv, vv)));
        },
        None => {
            ms.push((key, value));
            assert(members_view(ms@) =~= old_v.push((kv, vv)));
        },
    }
}

/// Inserts `(key, value)` unless the object already has a member with that key.
pub fn obj_insert_if_absent(ms: &mut Vec<(String, JsonValue)>, key: String, value: JsonValue)
    ensures
        members_view(final(ms)@) == obj_set_if_absent(members_view(old(ms)@), key@, json_view(value)),
{
    let ghost old_v = members_view(ms@);
    let ghost kv = key@;
    let ghost vv = json_view(value);
    match find_key(ms, key.as_str()) {
        Some(_) => {},
        None => {
            ms.push((key, value));
            assert(members_view(ms@) =~= old_v.push((kv, vv)));
        },
    }
}

/// A JSON string value.
pub fn jstring(s: &str) -> (r: JsonValue)
    ensures
        json_view(r) == Json::Str(s@),
{
    JsonValue::Str(crate::text::lit(s))
}

} // verus!
