//! JSON values, with objects kept as `serde_json::Map` keeps them without
//! `preserve_order`: one entry per key, sorted by key.

use vstd::prelude::*;

use crate::text::{key_less, key_lt};

verus! {

/// The mathematical value of a JSON document.
pub enum Json {
    Null,
    Bool(bool),
    Int(int),
    Str(Seq<char>),
    Array(Seq<Json>),
    Object(Seq<(Seq<char>, Json)>),
}

/// An executable JSON value. `Object` holds its entries in key order, one
/// per key, as long as it is only ever grown with [`object_insert`].
#[derive(Debug, PartialEq)]
pub enum JsonValue {
    Null,
    Bool(bool),
    Int(i64),
    Str(String),
    Array(Vec<JsonValue>),
    Object(Vec<(String, JsonValue)>),
}

impl JsonValue {
    /// The value this stands for.
    pub open spec fn json(self) -> Json
        decreases self,
    {
        match self {
            JsonValue::Null => Json::Null,
            JsonValue::Bool(b) => Json::Bool(b),
            JsonValue::Int(i) => Json::Int(i as int),
            JsonValue::Str(s) => Json::Str(s@),
            JsonValue::Array(items) => Json::Array(json_items(items@)),
            JsonValue::Object(entries) => Json::Object(json_entries(entries@)),
        }
    }
}

/// The values of a sequence of items.
pub open spec fn json_items(items: Seq<JsonValue>) -> Seq<Json>
    decreases items,
{
    if items.len() == 0 {
        Seq::empty()
    } else {
        json_items(items.drop_last()).push(items.last().json())
    }
}

/// The values of a sequence of object entries.
pub open spec fn json_entries(entries: Seq<(String, JsonValue)>) -> Seq<(Seq<char>, Json)>
    decreases entries,
{
    if entries.len() == 0 {
        Seq::empty()
    } else {
        json_entries(entries.drop_last()).push(
            (entries.last().0@, entries.last().1.json()),
        )
    }
}

pub proof fn lemma_json_items(items: Seq<JsonValue>)
    ensures
        json_items(items).len() == items.len(),
        forall|i: int| 0 <= i < items.len() ==> #[trigger] json_items(items)[i] == items[i].json(),
    decreases items.len(),
{
    if items.len() > 0 {
        lemma_json_items(items.drop_last());
    }
}

pub proof fn lemma_json_entries(entries: Seq<(String, JsonValue)>)
    ensures
        json_entries(entries).len() == entries.len(),
        forall|i: int|
            0 <= i < entries.len() ==> #[trigger] json_entries(entries)[i] == (
                entries[i].0@,
                entries[i].1.json(),
            ),
    decreases entries.len(),
{
    if entries.len() > 0 {
        lemma_json_entries(entries.drop_last());
    }
}

/// `entries` with `value` under `key`: the entry for `key` replaced where
/// there is one, else a new entry placed before the first greater key.
pub open spec fn obj_insert(entries: Seq<(Seq<char>, Json)>, key: Seq<char>, value: Json) -> Seq<
    (Seq<char>, Json),
>
    decreases entries.len(),
{
    if entries.len() == 0 {
        seq![(key, value)]
    } else if entries[0].0 == key {
        seq![(key, value)] + entries.drop_first()
    } else if key_lt(key, entries[0].0) {
        seq![(key, value)] + entries
    } else {
        seq![entries[0]] + obj_insert(entries.drop_first(), key, value)
    }
}

/// The value of the first entry under `key`.
pub open spec fn obj_get(entries: Seq<(Seq<char>, Json)>, key: Seq<char>) -> Option<Json>
    decreases entries.len(),
{
    if entries.len() == 0 {
        None
    } else if entries[0].0 == key {
        Some(entries[0].1)
    } else {
        obj_get(entries.drop_first(), key)
    }
}

/// The keys of an object.
pub open spec fn obj_keys(entries: Seq<(Seq<char>, Json)>) -> Set<Seq<char>>
    decreases entries.len(),
{
    if entries.len() == 0 {
        Set::empty()
    } else {
        obj_keys(entries.drop_first()).insert(entries[0].0)
    }
}

/// An object has finitely many keys, and `obj_get` finds exactly them.
pub proof fn lemma_obj_keys(entries: Seq<(Seq<char>, Json)>, key: Seq<char>)
    ensures
        obj_keys(entries).finite(),
        obj_keys(entries).contains(key) <==> obj_get(entries, key) is Some,
    decreases entries.len(),
{
    if entries.len() > 0 {
        lemma_obj_keys(entries.drop_first(), key);
    }
}

/// Inserting adds exactly its key.
pub proof fn lemma_obj_insert_keys(entries: Seq<(Seq<char>, Json)>, key: Seq<char>, value: Json)
    ensures
        obj_keys(obj_insert(entries, key, value)) == obj_keys(entries).insert(key),
    decreases entries.len(),
{
    if entries.len() == 0 {
        let r = seq![(key, value)];
        assert(r.drop_first() =~= Seq::<(Seq<char>, Json)>::empty());
        assert(obj_keys(r.drop_first()) == Set::<Seq<char>>::empty());
        assert(r[0].0 == key);
        assert(obj_keys(r) =~= Set::<Seq<char>>::empty().insert(key));
    } else if entries[0].0 == key {
        let r = seq![(key, value)] + entries.drop_first();
        assert(r.drop_first() =~= entries.drop_first());
        assert(obj_keys(r) =~= obj_keys(entries).insert(key));
    } else if key_lt(key, entries[0].0) {
        let r = seq![(key, value)] + entries;
        assert(r.drop_first() =~= entries);
        assert(obj_keys(r) =~= obj_keys(entries).insert(key));
    } else {
        lemma_obj_insert_keys(entries.drop_first(), key, value);
        let r = seq![entries[0]] + obj_insert(entries.drop_first(), key, value);
        assert(r.drop_first() =~= obj_insert(entries.drop_first(), key, value));
        assert(obj_keys(r) =~= obj_keys(entries).insert(key));
    }
}

/// Keys strictly increasing: sorted, and no key twice.
pub open spec fn obj_sorted(entries: Seq<(Seq<char>, Json)>) -> bool {
    forall|i: int, j: int| 0 <= i < j < entries.len() ==> key_lt(entries[i].0, entries[j].0)
}

/// The keys of an object are the keys of its entries.
pub proof fn lemma_obj_keys_index(entries: Seq<(Seq<char>, Json)>, key: Seq<char>)
    ensures
        obj_keys(entries).contains(key) <==> exists|i: int|
            0 <= i < entries.len() && #[trigger] entries[i].0 == key,
    decreases entries.len(),
{
    if entries.len() > 0 {
        lemma_obj_keys_index(entries.drop_first(), key);
        if exists|i: int| 0 <= i < entries.len() && #[trigger] entries[i].0 == key {
            let i = choose|i: int| 0 <= i < entries.len() && #[trigger] entries[i].0 == key;
            if i > 0 {
                assert(entries.drop_first()[i - 1].0 == key);
            }
        }
        if obj_keys(entries.drop_first()).contains(key) {
            let i = choose|i: int|
                0 <= i < entries.drop_first().len() && #[trigger] entries.drop_first()[i].0 == key;
            assert(entries[i + 1].0 == key);
        }
    }
}

/// Inserting keeps the keys strictly increasing: an object grown only by
/// insertion has one entry per key, in key order.
pub proof fn lemma_obj_insert_sorted(entries: Seq<(Seq<char>, Json)>, key: Seq<char>, value: Json)
    requires
        obj_sorted(entries),
    ensures
        obj_sorted(obj_insert(entries, key, value)),
    decreases entries.len(),
{
    if entries.len() == 0 {
    } else if entries[0].0 == key {
        let r = seq![(key, value)] + entries.drop_first();
        assert forall|i: int, j: int| 0 <= i < j < r.len() implies key_lt(r[i].0, r[j].0) by {
            assert(r[i].0 == entries[i].0);
            assert(r[j].0 == entries[j].0);
        }
    } else if key_lt(key, entries[0].0) {
        let r = seq![(key, value)] + entries;
        assert forall|i: int, j: int| 0 <= i < j < r.len() implies key_lt(r[i].0, r[j].0) by {
            if i == 0 {
                if j > 1 {
                    crate::text::lemma_key_lt_order(key, entries[0].0, entries[j - 1].0);
                }
            } else {
                assert(r[i] == entries[i - 1]);
                assert(r[j] == entries[j - 1]);
            }
        }
    } else {
        let first = entries[0].0;
        crate::text::lemma_key_lt_order(first, key, key);
        let rest = entries.drop_first();
        assert(obj_sorted(rest)) by {
            assert forall|i: int, j: int| 0 <= i < j < rest.len() implies key_lt(
                rest[i].0,
                rest[j].0,
            ) by {
                assert(rest[i] == entries[i + 1]);
                assert(rest[j] == entries[j + 1]);
            }
        }
        lemma_obj_insert_sorted(rest, key, value);
        let tail = obj_insert(rest, key, value);
        lemma_obj_insert_keys(rest, key, value);
        let r = seq![entries[0]] + tail;
        assert forall|i: int, j: int| 0 <= i < j < r.len() implies key_lt(r[i].0, r[j].0) by {
            if i == 0 {
                let k = r[j].0;
                assert(r[j] == tail[j - 1]);
                lemma_obj_keys_index(tail, k);
                assert(obj_keys(tail).contains(k));
                if k != key {
                    assert(obj_keys(rest).contains(k));
                    lemma_obj_keys_index(rest, k);
                    let m = choose|m: int| 0 <= m < rest.len() && #[trigger] rest[m].0 == k;
                    assert(entries[m + 1].0 == k);
                }
            } else {
                assert(r[i] == tail[i - 1]);
                assert(r[j] == tail[j - 1]);
            }
        }
    }
}

/// After inserting under `key`, the value under `key` is the inserted one.
pub proof fn lemma_obj_get_insert_same(entries: Seq<(Seq<char>, Json)>, key: Seq<char>, value: Json)
    ensures
        obj_get(obj_insert(entries, key, value), key) == Some(value),
    decreases entries.len(),
{
    if entries.len() > 0 && entries[0].0 != key && !key_lt(key, entries[0].0) {
        lemma_obj_get_insert_same(entries.drop_first(), key, value);
        let r = seq![entries[0]] + obj_insert(entries.drop_first(), key, value);
        assert(r.drop_first() =~= obj_insert(entries.drop_first(), key, value));
    } else if entries.len() > 0 && entries[0].0 == key {
        let r = seq![(key, value)] + entries.drop_first();
        assert(r[0] == (key, value));
    } else if entries.len() > 0 {
        let r = seq![(key, value)] + entries;
        assert(r[0] == (key, value));
    }
}

/// Inserting under `key` leaves the value under every other key as it was.
pub proof fn lemma_obj_get_insert_other(
    entries: Seq<(Seq<char>, Json)>,
    key: Seq<char>,
    value: Json,
    other: Seq<char>,
)
    requires
        other != key,
    ensures
        obj_get(obj_insert(entries, key, value), other) == obj_get(entries, other),
    decreases entries.len(),
{
    if entries.len() == 0 {
        let r = seq![(key, value)];
        assert(r[0].0 == key);
        assert(r.drop_first() =~= Seq::<(Seq<char>, Json)>::empty());
        assert(obj_get(r, other) == obj_get(r.drop_first(), other));
    } else if entries[0].0 == key {
        let r = seq![(key, value)] + entries.drop_first();
        assert(r[0].0 == key);
        assert(r.drop_first() =~= entries.drop_first());
        assert(obj_get(r, other) == obj_get(r.drop_first(), other));
    } else if key_lt(key, entries[0].0) {
        let r = seq![(key, value)] + entries;
        assert(r[0].0 == key);
        assert(r.drop_first() =~= entries);
        assert(obj_get(r, other) == obj_get(r.drop_first(), other));
    } else {
        lemma_obj_get_insert_other(entries.drop_first(), key, value, other);
        let r = seq![entries[0]] + obj_insert(entries.drop_first(), key, value);
        assert(r[0] == entries[0]);
        assert(r.drop_first() =~= obj_insert(entries.drop_first(), key, value));
        if entries[0].0 == other {
            assert(obj_get(r, other) == Some(entries[0].1));
        } else {
            assert(obj_get(r, other) == obj_get(r.drop_first(), other));
        }
    }
}

/// Reading back a member that was just put: the put value under its key,
/// the old value under every other key. This is the law that lets an
/// object be treated as a map.
pub proof fn law_member_after_put(j: Json, key: Seq<char>, value: Json, other: Seq<char>)
    requires
        j is Object,
    ensures
        member(put_member(j, key, value), key) == Some(value),
        other != key ==> member(put_member(j, key, value), other) == member(j, other),
{
    if let Json::Object(entries) = j {
        lemma_obj_get_insert_same(entries, key, value);
        if other != key {
            lemma_obj_get_insert_other(entries, key, value, other);
        }
    }
}

/// `Some(v)` when `j` is an object with `v` under `key`.
pub open spec fn member(j: Json, key: Seq<char>) -> Option<Json> {
    match j {
        Json::Object(entries) => obj_get(entries, key),
        _ => None,
    }
}

proof fn lemma_obj_insert_skip(s: Seq<(Seq<char>, Json)>, key: Seq<char>, value: Json, i: int)
    requires
        0 <= i < s.len(),
        s[i].0 != key,
        !key_lt(key, s[i].0),
    ensures
        obj_insert(s.skip(i), key, value) == seq![s[i]] + obj_insert(s.skip(i + 1), key, value),
{
    assert(s.skip(i).drop_first() =~= s.skip(i + 1));
}

/// Inserts `value` under `key`, keeping key order.
pub fn object_insert(entries: &mut Vec<(String, JsonValue)>, key: String, value: JsonValue)
    ensures
        json_entries(final(entries)@) == obj_insert(json_entries(old(entries)@), key@, value.json()),
        obj_sorted(json_entries(old(entries)@)) ==> obj_sorted(json_entries(final(entries)@)),
{
    proof {
        if obj_sorted(json_entries(entries@)) {
            lemma_obj_insert_sorted(json_entries(entries@), key@, value.json());
        }
    }
    let ghost s = json_entries(entries@);
    proof {
        lemma_json_entries(entries@);
        assert(s.skip(0) =~= s);
        assert(s.take(0) =~= Seq::<(Seq<char>, Json)>::empty());
    }
    let n = entries.len();
    let mut i: usize = 0;
    while i < n
        invariant
            n == entries@.len(),
            entries@ == old(entries)@,
            s == json_entries(entries@),
            obj_sorted(s) ==> obj_sorted(obj_insert(s, key@, value.json())),
            s.len() == n,
            forall|j: int|
                0 <= j < n ==> #[trigger] s[j] == (entries@[j].0@, entries@[j].1.json()),
            i <= n,
            obj_insert(s, key@, value.json()) == s.take(i as int) + obj_insert(
                s.skip(i as int),
                key@,
                value.json(),
            ),
        decreases n - i,
    {
        let same = entries[i].0 == key;
        if same {
            let ghost before = entries@;
            entries.set(i, (key, value));
            proof {
                lemma_json_entries(entries@);
                assert(s.skip(i as int).drop_first() =~= s.skip(i + 1));
                assert(json_entries(entries@) =~= s.take(i as int) + obj_insert(
                    s.skip(i as int),
                    key@,
                    value.json(),
                ));
            }
            return;
        }
        let less = key_less(key.as_str(), entries[i].0.as_str());
        if less {
            entries.insert(i, (key, value));
            proof {
                lemma_json_entries(entries@);
                assert(json_entries(entries@) =~= s.take(i as int) + obj_insert(
                    s.skip(i as int),
                    key@,
                    value.json(),
                ));
            }
            return;
        }
        proof {
            lemma_obj_insert_skip(s, key@, value.json(), i as int);
            assert(s.take(i as int) + seq![s[i as int]] =~= s.take(i + 1));
        }
        i = i + 1;
    }
    entries.push((key, value));
    proof {
        lemma_json_entries(entries@);
        assert(s.take(n as int) =~= s);
        assert(json_entries(entries@) =~= s + seq![(key@, value.json())]);
    }
}

/// Whether some entry is under `key`.
pub fn object_contains(entries: &Vec<(String, JsonValue)>, key: &str) -> (r: bool)
    ensures
        r == (obj_get(json_entries(entries@), key@) is Some),
{
    let ghost s = json_entries(entries@);
    proof {
        lemma_json_entries(entries@);
        assert(s.skip(0) =~= s);
    }
    let n = entries.len();
    let mut i: usize = 0;
    while i < n
        invariant
            n == entries@.len(),
            s == json_entries(entries@),
            s.len() == n,
            forall|j: int|
                0 <= j < n ==> #[trigger] s[j] == (entries@[j].0@, entries@[j].1.json()),
            i <= n,
            obj_get(s, key@) == obj_get(s.skip(i as int), key@),
        decreases n - i,
    {
        if crate::text::str_is(entries[i].0.as_str(), key) {
            return true;
        }
        assert(s.skip(i as int).drop_first() =~= s.skip(i + 1));
        i = i + 1;
    }
    false
}

/// The empty object.
pub open spec fn empty_object() -> Json {
    Json::Object(Seq::empty())
}

/// `j` with `value` under `key` when `j` is an object; any other value
/// unchanged.
pub open spec fn put_member(j: Json, key: Seq<char>, value: Json) -> Json {
    match j {
        Json::Object(entries) => Json::Object(obj_insert(entries, key, value)),
        _ => j,
    }
}

/// A string value.
pub open spec fn jstr(s: Seq<char>) -> Json {
    Json::Str(s)
}

/// An array of string values.
pub open spec fn str_array(items: Seq<Seq<char>>) -> Json {
    Json::Array(items.map_values(|s: Seq<char>| Json::Str(s)))
}

impl JsonValue {
    /// A string value holding `lit`.
    pub fn text(lit: &str) -> (r: JsonValue)
        ensures
            r.json() == Json::Str(lit@),
    {
        JsonValue::Str(crate::text::owned(lit))
    }

    /// The empty object.
    pub fn empty_object() -> (r: JsonValue)
        ensures
            r.json() == empty_object(),
    {
        let v: Vec<(String, JsonValue)> = Vec::new();
        proof {
            lemma_json_entries(v@);
            assert(json_entries(v@) =~= Seq::<(Seq<char>, Json)>::empty());
        }
        JsonValue::Object(v)
    }

    /// The member under `key`, when this is an object that has one.
    pub fn get(&self, key: &str) -> (r: Option<&JsonValue>)
        ensures
            match r {
                Some(v) => member(self.json(), key@) == Some(v.json()),
                None => member(self.json(), key@) is None,
            },
    {
        match self {
            JsonValue::Object(entries) => {
                let ghost s = json_entries(entries@);
                proof {
                    lemma_json_entries(entries@);
                    assert(s.skip(0) =~= s);
                    assert(self.json() == Json::Object(s));
                }
                let n = entries.len();
                let mut i: usize = 0;
                while i < n
                    invariant
                        n == entries@.len(),
                        self.json() == Json::Object(s),
                        s == json_entries(entries@),
                        s.len() == n,
                        forall|j: int|
                            0 <= j < n ==> #[trigger] s[j] == (entries@[j].0@, entries@[j].1.json()),
                        i <= n,
                        obj_get(s, key@) == obj_get(s.skip(i as int), key@),
                    decreases n - i,
                {
                    if crate::text::str_is(entries[i].0.as_str(), key) {
                        assert(s.skip(i as int)[0] == s[i as int]);
                        assert(obj_get(s, key@) == Some(entries@[i as int].1.json()));
                        return Some(&entries[i].1);
                    }
                    assert(s.skip(i as int).drop_first() =~= s.skip(i + 1));
                    i = i + 1;
                }
                None
            },
            _ => None,
        }
    }
}

/// `j` with `value` under `key` when `j` is an object; any other value
/// is handed back unchanged.
pub fn put(j: JsonValue, key: &str, value: JsonValue) -> (r: JsonValue)
    ensures
        r.json() == put_member(j.json(), key@, value.json()),
{
    match j {
        JsonValue::Object(mut entries) => {
            object_insert(&mut entries, crate::text::owned(key), value);
            JsonValue::Object(entries)
        },
        other => other,
    }
}

/// An array holding each of `items` as a string value.
pub fn string_array(items: &Vec<String>) -> (r: JsonValue)
    ensures
        r.json() == str_array(items@.map_values(|s: String| s@)),
{
    let mut out: Vec<JsonValue> = Vec::new();
    let n = items.len();
    let mut i: usize = 0;
    while i < n
        invariant
            n == items@.len(),
            i <= n,
            out@.len() == i,
            forall|j: int| 0 <= j < i ==> #[trigger] out@[j].json() == Json::Str(items@[j]@),
        decreases n - i,
    {
        out.push(JsonValue::Str(items[i].clone()));
        i = i + 1;
    }
    proof {
        lemma_json_items(out@);
        assert(json_items(out@) =~= items@.map_values(|s: String| s@).map_values(
            |s: Seq<char>| Json::Str(s),
        ));
    }
    JsonValue::Array(out)
}

} // verus!
