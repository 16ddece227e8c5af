//! A JSON document model: the values the framework reads and writes when it
//! builds API documents and projects response bodies.

use vstd::prelude::*;

verus! {

/// A JSON value. Numbers keep the decimal text that denotes them; objects are
/// ordered lists of members.
#[derive(Debug, PartialEq)]
pub enum JsonValue {
    Null,
    Bool(bool),
    Number(String),
    Str(String),
    Array(Vec<JsonValue>),
    Object(Vec<(String, JsonValue)>),
}

/// The mathematical value that a `JsonValue` denotes.
pub enum Json {
    Null,
    Bool(bool),
    Number(Seq<char>),
    Str(Seq<char>),
    Array(Seq<Json>),
    Object(Seq<(Seq<char>, Json)>),
}

/// The views of a sequence of values.
pub open spec fn view_items(s: Seq<JsonValue>) -> Seq<Json>
    decreases s,
{
    if s.len() == 0 {
        Seq::empty()
    } else {
        seq![json_view(s[0])] + view_items(s.subrange(1, s.len() as int))
    }
}

/// The views of a sequence of object members.
pub open spec fn view_entries(s: Seq<(String, JsonValue)>) -> Seq<(Seq<char>, Json)>
    decreases s,
{
    if s.len() == 0 {
        Seq::empty()
    } else {
        seq![(s[0].0@, json_view(s[0].1))] + view_entries(s.subrange(1, s.len() as int))
    }
}

/// The view of a value.
pub open spec fn json_view(v: JsonValue) -> Json
    decreases v,
{
    match v {
        JsonValue::Null => Json::Null,
        JsonValue::Bool(b) => Json::Bool(b),
        JsonValue::Number(n) => Json::Number(n@),
        JsonValue::Str(s) => Json::Str(s@),
        JsonValue::Array(items) => Json::Array(view_items(items@)),
        JsonValue::Object(es) => Json::Object(view_entries(es@)),
    }
}

impl View for JsonValue {
    type V = Json;

    open spec fn view(&self) -> Json {
        json_view(*self)
    }
}

proof fn lemma_view_items_index(s: Seq<JsonValue>, i: int)
    requires
        0 <= i < s.len(),
    ensures
        view_items(s).len() == s.len(),
        view_items(s)[i] == json_view(s[i]),
    decreases s.len(),
{
    let t = s.subrange(1, s.len() as int);
    if i > 0 {
        lemma_view_items_index(t, i - 1);
        assert(s[i] == t[i - 1]);
    } else if t.len() > 0 {
        lemma_view_items_index(t, 0);
    } else {
        assert(view_items(t) =~= Seq::<Json>::empty());
    }
}

proof fn lemma_view_entries_index(s: Seq<(String, JsonValue)>, i: int)
    requires
        0 <= i < s.len(),
    ensures
        view_entries(s).len() == s.len(),
        view_entries(s)[i] == (s[i].0@, json_view(s[i].1)),
    decreases s.len(),
{
    let t = s.subrange(1, s.len() as int);
    if i > 0 {
        lemma_view_entries_index(t, i - 1);
        assert(s[i] == t[i - 1]);
    } else if t.len() > 0 {
        lemma_view_entries_index(t, 0);
    } else {
        assert(view_entries(t) =~= Seq::<(Seq<char>, Json)>::empty());
    }
}

/// `view_items` keeps the length.
pub broadcast proof fn lemma_view_items_len(s: Seq<JsonValue>)
    ensures
        #[trigger] view_items(s).len() == s.len(),
    decreases s.len(),
{
    if s.len() > 0 {
        lemma_view_items_index(s, 0);
    }
}

/// `view_items` maps element by element.
pub broadcast proof fn lemma_view_items(s: Seq<JsonValue>, i: int)
    requires
        0 <= i < s.len(),
    ensures
        #[trigger] view_items(s)[i] == json_view(s[i]),
{
    lemma_view_items_index(s, i);
}

/// `view_entries` keeps the length.
pub broadcast proof fn lemma_view_entries_len(s: Seq<(String, JsonValue)>)
    ensures
        #[trigger] view_entries(s).len() == s.len(),
{
    if s.len() > 0 {
        lemma_view_entries_index(s, 0);
    } else {
        assert(view_entries(s) =~= Seq::<(Seq<char>, Json)>::empty());
    }
}

/// `view_entries` maps member by member.
pub broadcast proof fn lemma_view_entries(s: Seq<(String, JsonValue)>, i: int)
    requires
        0 <= i < s.len(),
    ensures
        #[trigger] view_entries(s)[i] == (s[i].0@, json_view(s[i].1)),
{
    lemma_view_entries_index(s, i);
}

pub broadcast group group_json_view {
    lemma_view_items_len,
    lemma_view_items,
    lemma_view_entries_len,
    lemma_view_entries,
}

/// The keys of an object's members are pairwise distinct.
pub open spec fn keys_distinct(es: Seq<(Seq<char>, Json)>) -> bool {
    forall|i: int, j: int| 0 <= i < j < es.len() ==> es[i].0 != es[j].0
}

/// `k` is the key of some member of `es`.
pub open spec fn has_key(es: Seq<(Seq<char>, Json)>, k: Seq<char>) -> bool {
    exists|i: int| 0 <= i < es.len() && es[i].0 == k
}

/// The position of the member with key `k` in an object with distinct keys.
pub open spec fn key_position(es: Seq<(Seq<char>, Json)>, k: Seq<char>) -> int {
    choose|i: int| 0 <= i < es.len() && es[i].0 == k
}

/// The value stored under `k`, if any.
pub open spec fn lookup(es: Seq<(Seq<char>, Json)>, k: Seq<char>) -> Option<Json> {
    if has_key(es, k) {
        Some(es[key_position(es, k)].1)
    } else {
        None
    }
}

/// The members after storing `v` under `k`: an existing member with that key
/// keeps its place and takes the new value, otherwise the member is appended.
pub open spec fn entries_insert(es: Seq<(Seq<char>, Json)>, k: Seq<char>, v: Json) -> Seq<
    (Seq<char>, Json),
> {
    if has_key(es, k) {
        es.update(key_position(es, k), (k, v))
    } else {
        es.push((k, v))
    }
}

/// Every object inside `v`, at any depth, has distinct keys.
pub open spec fn well_formed(v: Json) -> bool
    decreases v,
{
    match v {
        Json::Array(items) => forall|i: int| 0 <= i < items.len() ==> well_formed(#[trigger] items[i]),
        Json::Object(es) => keys_distinct(es) && forall|i: int|
            0 <= i < es.len() ==> well_formed(#[trigger] es[i].1),
        _ => true,
    }
}

/// The elements of a well-formed array are well formed.
pub proof fn lemma_array_well_formed(items: Seq<Json>, j: int)
    requires
        well_formed(Json::Array(items)),
        0 <= j < items.len(),
    ensures
        well_formed(items[j]),
{
    let v = Json::Array(items);
    assert(v matches Json::Array(its) && its == items);
    reveal_with_fuel(well_formed, 2);
    assert(forall|i: int| 0 <= i < items.len() ==> well_formed(#[trigger] items[i]));
}

/// Position of the member with key `k`, if there is one.
pub fn find_key(es: &Vec<(String, JsonValue)>, k: &String) -> (r: Option<usize>)
    ensures
        match r {
            Some(i) => i < es@.len() && es@[i as int].0@ == k@ && forall|j: int|
                0 <= j < i ==> es@[j].0@ != k@,
            None => forall|j: int| 0 <= j < es@.len() ==> es@[j].0@ != k@,
        },
{
    let mut i: usize = 0;
    while i < es.len()
        invariant
            i <= es@.len(),
            forall|j: int| 0 <= j < i ==> es@[j].0@ != k@,
        decreases es@.len() - i,
    {
        if es[i].0 == *k {
            return Some(i);
        }
        i = i + 1;
    }
    None
}

/// Stores `v` under `k`, keeping the place of an existing member.
pub fn insert_member(es: &mut Vec<(String, JsonValue)>, k: String, v: JsonValue)
    requires
        keys_distinct(view_entries(old(es)@)),
    ensures
        view_entries(final(es)@) == entries_insert(view_entries(old(es)@), k@, v@),
        keys_distinct(view_entries(final(es)@)),
{
    broadcast use group_json_view;

    let ghost old_v = view_entries(es@);
    match find_key(es, &k) {
        Some(i) => {
            es.set(i, (k, v));
            proof {
                assert(has_key(old_v, k@)) by {
                    assert(old_v[i as int].0 == k@);
                }
                let c = key_position(old_v, k@);
                assert(0 <= c < old_v.len() && old_v[c].0 == k@);
                assert(c == i as int) by {
                    if c != i as int {
                        assert(old_v[c].0 == old_v[i as int].0);
                    }
                }
                assert(view_entries(es@) =~= old_v.update(i as int, (k@, v@)));
            }
        },
        None => {
            es.push((k, v));
            proof {
                assert(!has_key(old_v, k@));
                assert(view_entries(es@) =~= old_v.push((k@, v@)));
            }
        },
    }
}

/// A copy of `v`.
pub fn copy_value(v: &JsonValue) -> (r: JsonValue)
    ensures
        r@ == v@,
    decreases v,
{
    broadcast use group_json_view;

    match v {
        JsonValue::Null => JsonValue::Null,
        JsonValue::Bool(b) => JsonValue::Bool(*b),
        JsonValue::Number(n) => JsonValue::Number(n.clone()),
        JsonValue::Str(s) => JsonValue::Str(s.clone()),
        JsonValue::Array(items) => {
            let mut out: Vec<JsonValue> = Vec::new();
            let mut i: usize = 0;
            while i < items.len()
                invariant
                    *v == JsonValue::Array(*items),
                    i <= items@.len(),
                    out@.len() == i,
                    forall|j: int| 0 <= j < i ==> #[trigger] json_view(out@[j]) == json_view(items@[j]),
                decreases items@.len() - i,
            {
                proof {
                    assert(decreases_to!(*v => v->Array_0));
                    assert(decreases_to!(*items => items@));
                    assert(decreases_to!(items@ => items@[i as int]));
                }
                let c = copy_value(&items[i]);
                out.push(c);
                i = i + 1;
            }
            proof {
                assert(view_items(out@) =~= view_items(items@));
            }
            JsonValue::Array(out)
        },
        JsonValue::Object(es) => {
            let mut out: Vec<(String, JsonValue)> = Vec::new();
            let mut i: usize = 0;
            while i < es.len()
                invariant
                    *v == JsonValue::Object(*es),
                    i <= es@.len(),
                    out@.len() == i,
                    forall|j: int| 0 <= j < i ==> #[trigger] out@[j].0@ == es@[j].0@ && json_view(out@[j].1) == json_view(es@[j].1),
                decreases es@.len() - i,
            {
                proof {
                    assert(decreases_to!(*v => v->Object_0));
                    assert(decreases_to!(*es => es@));
                    assert(decreases_to!(es@ => es@[i as int]));
                    assert(decreases_to!(es@[i as int] => es@[i as int].1));
                }
                let k = es[i].0.clone();
                let c = copy_value(&es[i].1);
                out.push((k, c));
                i = i + 1;
            }
            proof {
                assert(view_entries(out@) =~= view_entries(es@));
            }
            JsonValue::Object(out)
        },
    }
}

/// In an object with distinct keys, the member at `j` is the one found
/// under its key.
pub proof fn lemma_key_position(es: Seq<(Seq<char>, Json)>, j: int)
    requires
        keys_distinct(es),
        0 <= j < es.len(),
    ensures
        has_key(es, es[j].0),
        key_position(es, es[j].0) == j,
{
    assert(es[j].0 == es[j].0);
    let p = key_position(es, es[j].0);
    if p != j {
        if p < j {
            assert(es[p].0 != es[j].0);
        } else {
            assert(es[j].0 != es[p].0);
        }
    }
}

/// Storing a member keeps keys distinct, stores `v` under `k`, and keeps
/// every other member where it was.
pub proof fn lemma_entries_insert(es: Seq<(Seq<char>, Json)>, k: Seq<char>, v: Json)
    requires
        keys_distinct(es),
    ensures
        keys_distinct(entries_insert(es, k, v)),
        has_key(entries_insert(es, k, v), k),
        lookup(entries_insert(es, k, v), k) == Some(v),
        forall|k2: Seq<char>| k2 != k ==> (#[trigger] has_key(entries_insert(es, k, v), k2) <==> has_key(es, k2)),
        forall|k2: Seq<char>| k2 != k ==> #[trigger] lookup(entries_insert(es, k, v), k2) == lookup(es, k2),
        forall|i: int| 0 <= i < entries_insert(es, k, v).len() ==> {
            ||| #[trigger] entries_insert(es, k, v)[i] == (k, v)
            ||| (i < es.len() && entries_insert(es, k, v)[i] == es[i])
        },
        entries_insert(es, k, v).len() >= es.len(),
{
    let ins = entries_insert(es, k, v);
    assert(keys_distinct(ins)) by {
        assert forall|i: int, j: int| 0 <= i < j < ins.len() implies ins[i].0 != ins[j].0 by {
            if has_key(es, k) {
                let p = key_position(es, k);
                if i != p && j != p {
                    assert(ins[i] == es[i] && ins[j] == es[j]);
                } else if i == p {
                    assert(ins[j] == es[j]);
                    assert(es[p].0 != es[j].0);
                } else {
                    assert(ins[i] == es[i]);
                    assert(es[i].0 != es[p].0);
                }
            } else {
                if j == es.len() {
                    assert(ins[i] == es[i]);
                    assert(!(es[i].0 == k));
                } else {
                    assert(ins[i] == es[i] && ins[j] == es[j]);
                }
            }
        }
    }
    let q = if has_key(es, k) { key_position(es, k) } else { es.len() as int };
    assert(ins[q] == (k, v));
    lemma_key_position(ins, q);
    assert forall|k2: Seq<char>| k2 != k implies (#[trigger] has_key(ins, k2) <==> has_key(es, k2)) by {
        if has_key(ins, k2) {
            let i = choose|i: int| 0 <= i < ins.len() && ins[i].0 == k2;
            assert(ins[i] == es[i]);
        }
        if has_key(es, k2) {
            let i = choose|i: int| 0 <= i < es.len() && es[i].0 == k2;
            assert(ins[i] == es[i]);
        }
    }
    assert forall|k2: Seq<char>| k2 != k implies #[trigger] lookup(ins, k2) == lookup(es, k2) by {
        if has_key(es, k2) {
            let i = key_position(es, k2);
            assert(ins[i] == es[i]);
            lemma_key_position(ins, i);
        }
    }
}

} // verus!

verus! {

/// `serde_json`'s value type, carried through the conversions below.
#[verifier::external_type_specification]
#[verifier::external_body]
pub struct ExSerdeJsonValue(serde_json::Value);

/// The value that `serde_json::from_slice` reads from the bytes, in this
/// library's model (numbers as `serde_json` writes them, object members in
/// the order of its map), or `None` where the bytes are not JSON.
pub uninterp spec fn json_from_bytes(bytes: Seq<u8>) -> Option<Json>;

/// The value that `serde_json::from_str` reads from the text, in this
/// library's model, or `None` where the text is not JSON.
pub uninterp spec fn json_from_text(text: Seq<char>) -> Option<Json>;

/// Converts a `serde_json::Value` into this library's model, variant by
/// variant: a number becomes the text `serde_json` writes for it, an
/// object its members in the map's order. The conversion of
/// `parse_json`, `parse_json_text` and `decode_jwt`, apart because a
/// nested value needs recursion. Claims: every object of the result, at
/// any depth, has distinct keys, as a `serde_json::Map` has.
#[verifier::external_body]
pub(crate) fn json_value_of(v: &serde_json::Value) -> (r: JsonValue)
    ensures
        well_formed(r@),
{
    match v {
        serde_json::Value::Null => JsonValue::Null,
        serde_json::Value::Bool(b) => JsonValue::Bool(*b),
        serde_json::Value::Number(n) => JsonValue::Number(n.to_string()),
        serde_json::Value::String(s) => JsonValue::Str(s.clone()),
        serde_json::Value::Array(items) => JsonValue::Array(items.iter().map(json_value_of).collect()),
        serde_json::Value::Object(m) => JsonValue::Object(
            m.iter().map(|(k, x)| (k.clone(), json_value_of(x))).collect(),
        ),
    }
}

/// Reads JSON from bytes with `serde_json::from_slice`, converted into
/// this library's model; an error is kept as its message. Claims: the
/// result is `json_from_bytes` of the bytes, and it is well formed (the
/// objects of a `serde_json::Value` have distinct keys).
#[verifier::external_body]
pub fn parse_json(bytes: &[u8]) -> (r: Result<JsonValue, String>)
    ensures
        match r {
            Ok(v) => json_from_bytes(bytes@) == Some(v@) && well_formed(v@),
            Err(_) => json_from_bytes(bytes@) is None,
        },
{
    match serde_json::from_slice::<serde_json::Value>(bytes) {
        Ok(v) => Ok(json_value_of(&v)),
        Err(e) => Err(e.to_string()),
    }
}

} // verus!
