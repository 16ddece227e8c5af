//! The OpenAPI document of an application: one operation per route, schema
//! definitions gathered under `components/schemas`, and references pointed
//! there.

use vstd::prelude::*;
use crate::json::{
    JsonValue, Json, view_entries, view_items, copy_value, group_json_view, keys_distinct,
    entries_insert, insert_member, has_key, key_position, find_key, well_formed, lookup,
};
use crate::text::{chars_of, string_from_chars};
use crate::routing::{Route, RouteInfo, RustAPI, strings_view, infos};

verus! {

broadcast use group_json_view;

/// `s` with every occurrence of `pat`, taken from the left without overlap,
/// replaced by `rep`.
pub open spec fn replace_all(s: Seq<char>, pat: Seq<char>, rep: Seq<char>) -> Seq<char>
    decreases s.len(),
{
    if s.len() == 0 || pat.len() == 0 {
        s
    } else if s.len() >= pat.len() && s.take(pat.len() as int) == pat {
        rep + replace_all(s.skip(pat.len() as int), pat, rep)
    } else {
        seq![s[0]] + replace_all(s.skip(1), pat, rep)
    }
}

/// The prefix of references into the schema definitions of a JSON schema.
pub open spec fn definitions_prefix() -> Seq<char> {
    "#/definitions/"@
}

/// The prefix of references into the component schemas of an API document.
pub open spec fn components_prefix() -> Seq<char> {
    "#/components/schemas/"@
}

/// A text with its definition references pointed at the components.
pub open spec fn fix_refs(s: Seq<char>) -> Seq<char> {
    replace_all(s, definitions_prefix(), components_prefix())
}

fn matches_at(s: &Vec<char>, i: usize, pat: &Vec<char>) -> (r: bool)
    requires
        i <= s@.len(),
    ensures
        r == (s@.skip(i as int).len() >= pat@.len() && s@.skip(i as int).take(pat@.len() as int) == pat@),
{
    if s.len() - i < pat.len() {
        return false;
    }
    let mut j: usize = 0;
    while j < pat.len()
        invariant
            i + pat@.len() <= s@.len(),
            s@.len() <= usize::MAX,
            j <= pat@.len(),
            forall|k: int| 0 <= k < j ==> s@[i + k] == pat@[k],
        decreases pat@.len() - j,
    {
        if s[i + j] != pat[j] {
            assert(s@.skip(i as int).take(pat@.len() as int)[j as int] != pat@[j as int]);
            return false;
        }
        j = j + 1;
    }
    assert(s@.skip(i as int).take(pat@.len() as int) =~= pat@);
    true
}

/// Replaces every occurrence of `pat` in `s` by `rep`, left to right.
pub fn replace_all_chars(s: &Vec<char>, pat: &Vec<char>, rep: &Vec<char>) -> (r: Vec<char>)
    ensures
        r@ == replace_all(s@, pat@, rep@),
{
    let mut out: Vec<char> = Vec::new();
    if pat.len() == 0 {
        let mut k: usize = 0;
        while k < s.len()
            invariant
                k <= s@.len(),
                out@ == s@.take(k as int),
            decreases s@.len() - k,
        {
            out.push(s[k]);
            k = k + 1;
            assert(out@ =~= s@.take(k as int));
        }
        assert(s@.take(s@.len() as int) =~= s@);
        return out;
    }
    let mut i: usize = 0;
    assert(s@.skip(0) =~= s@);
    assert(out@ + replace_all(s@, pat@, rep@) =~= replace_all(s@, pat@, rep@));
    while i < s.len()
        invariant
            pat@.len() > 0,
            i <= s@.len(),
            out@ + replace_all(s@.skip(i as int), pat@, rep@) == replace_all(s@, pat@, rep@),
        decreases s@.len() - i,
    {
        let ghost t = s@.skip(i as int);
        if matches_at(s, i, pat) {
            let ghost before = out@;
            let mut k: usize = 0;
            while k < rep.len()
                invariant
                    k <= rep@.len(),
                    out@ == before + rep@.take(k as int),
                decreases rep@.len() - k,
            {
                out.push(rep[k]);
                k = k + 1;
                assert(out@ =~= before + rep@.take(k as int));
            }
            assert(rep@.take(rep@.len() as int) =~= rep@);
            assert(t.skip(pat@.len() as int) =~= s@.skip(i + pat@.len()));
            assert(before + (rep@ + replace_all(t.skip(pat@.len() as int), pat@, rep@)) =~= out@ + replace_all(s@.skip(i + pat@.len()), pat@, rep@));
            i = i + pat.len();
        } else {
            let ghost before = out@;
            out.push(s[i]);
            assert(t.skip(1) =~= s@.skip(i + 1));
            assert(t[0] == s@[i as int]);
            assert(before + (seq![t[0]] + replace_all(t.skip(1), pat@, rep@)) =~= out@ + replace_all(s@.skip(i + 1), pat@, rep@));
            i = i + 1;
        }
    }
    assert(s@.skip(s@.len() as int) =~= Seq::<char>::empty());
    assert(out@ + Seq::<char>::empty() =~= out@);
    out
}

/// `s` with its definition references pointed at the components.
pub fn fix_refs_string(s: &String) -> (r: String)
    ensures
        r@ == fix_refs(s@),
{
    let cs = chars_of(s.as_str());
    let pat = chars_of("#/definitions/");
    let rep = chars_of("#/components/schemas/");
    let out = replace_all_chars(&cs, &pat, &rep);
    string_from_chars(out.as_slice())
}

/// A value with the definition references in all its texts and keys
/// pointed at the components. Where two keys of an object become equal, the
/// later member wins.
pub open spec fn rewrite(v: Json) -> Json
    decreases v,
{
    match v {
        Json::Str(s) => Json::Str(fix_refs(s)),
        Json::Array(items) => Json::Array(rewrite_items(items)),
        Json::Object(es) => Json::Object(rewrite_entries(es)),
        _ => v,
    }
}

/// `rewrite` applied to each element.
pub open spec fn rewrite_items(items: Seq<Json>) -> Seq<Json>
    decreases items,
{
    if items.len() == 0 {
        Seq::empty()
    } else {
        rewrite_items(items.subrange(0, items.len() - 1)).push(rewrite(items[items.len() - 1]))
    }
}

/// The members with rewritten keys and values, stored one after the other.
pub open spec fn rewrite_entries(es: Seq<(Seq<char>, Json)>) -> Seq<(Seq<char>, Json)>
    decreases es,
{
    if es.len() == 0 {
        Seq::empty()
    } else {
        let last = es[es.len() - 1];
        entries_insert(
            rewrite_entries(es.subrange(0, es.len() - 1)),
            fix_refs(last.0),
            rewrite(last.1),
        )
    }
}

/// `v` with its definition references pointed at the components.
pub fn rewritten(v: &JsonValue) -> (r: JsonValue)
    ensures
        r@ == rewrite(v@),
    decreases v,
{
    match v {
        JsonValue::Str(s) => JsonValue::Str(fix_refs_string(s)),
        JsonValue::Array(items) => {
            let mut out: Vec<JsonValue> = Vec::new();
            let mut i: usize = 0;
            while i < items.len()
                invariant
                    *v == JsonValue::Array(*items),
                    i <= items@.len(),
                    view_items(out@) == rewrite_items(view_items(items@).take(i as int)),
                decreases items@.len() - i,
            {
                proof {
                    assert(decreases_to!(*v => v->Array_0));
                    assert(decreases_to!(*items => items@));
                    assert(decreases_to!(items@ => items@[i as int]));
                }
                let ghost prev = out@;
                let ghost whole = view_items(items@);
                let c = rewritten(&items[i]);
                out.push(c);
                proof {
                    assert(view_items(out@) =~= view_items(prev).push(c@));
                    assert(whole.take(i + 1).subrange(0, i as int) =~= whole.take(i as int));
                }
                i = i + 1;
            }
            proof {
                assert(view_items(items@).take(items@.len() as int) =~= view_items(items@));
            }
            JsonValue::Array(out)
        },
        JsonValue::Object(es) => {
            let mut out: Vec<(String, JsonValue)> = Vec::new();
            let mut i: usize = 0;
            proof {
                assert(view_entries(out@) =~= Seq::<(Seq<char>, Json)>::empty());
            }
            while i < es.len()
                invariant
                    *v == JsonValue::Object(*es),
                    i <= es@.len(),
                    keys_distinct(view_entries(out@)),
                    view_entries(out@) == rewrite_entries(view_entries(es@).take(i as int)),
                decreases es@.len() - i,
            {
                proof {
                    assert(decreases_to!(*v => v->Object_0));
                    assert(decreases_to!(*es => es@));
                    assert(decreases_to!(es@ => es@[i as int]));
                    assert(decreases_to!(es@[i as int] => es@[i as int].1));
                }
                let ghost whole = view_entries(es@);
                let k = fix_refs_string(&es[i].0);
                let c = rewritten(&es[i].1);
                insert_member(&mut out, k, c);
                proof {
                    assert(whole.take(i + 1).subrange(0, i as int) =~= whole.take(i as int));
                }
                i = i + 1;
            }
            proof {
                assert(view_entries(es@).take(es@.len() as int) =~= view_entries(es@));
            }
            JsonValue::Object(out)
        },
        _ => copy_value(v),
    }
}

/// `comps` after storing each member of `d`, in order.
pub open spec fn insert_all(comps: Seq<(Seq<char>, Json)>, d: Seq<(Seq<char>, Json)>) -> Seq<(Seq<char>, Json)>
    decreases d.len(),
{
    if d.len() == 0 {
        comps
    } else {
        insert_all(entries_insert(comps, d[0].0, d[0].1), d.subrange(1, d.len() as int))
    }
}

/// A schema without its `definitions` member.
pub open spec fn processed_schema(schema: Json) -> Json {
    match schema {
        Json::Object(es) => if has_key(es, "definitions"@) {
            Json::Object(es.remove(key_position(es, "definitions"@)))
        } else {
            schema
        },
        _ => schema,
    }
}

/// The component schemas after gathering the `definitions` of `schema`.
pub open spec fn gathered_components(schema: Json, comps: Seq<(Seq<char>, Json)>) -> Seq<(Seq<char>, Json)> {
    match schema {
        Json::Object(es) => if has_key(es, "definitions"@) {
            match es[key_position(es, "definitions"@)].1 {
                Json::Object(d) => insert_all(comps, d),
                _ => comps,
            }
        } else {
            comps
        },
        _ => comps,
    }
}

fn copy_entries_without(es: &Vec<(String, JsonValue)>, i: usize) -> (r: Vec<(String, JsonValue)>)
    requires
        i < es@.len(),
    ensures
        view_entries(r@) == view_entries(es@).remove(i as int),
{
    let ghost whole = view_entries(es@);
    let mut out: Vec<(String, JsonValue)> = Vec::new();
    let mut j: usize = 0;
    while j < es.len()
        invariant
            i < es@.len(),
            whole == view_entries(es@),
            j <= es@.len(),
            j <= i ==> view_entries(out@) == whole.take(j as int),
            j > i ==> view_entries(out@) == whole.take(i as int) + whole.subrange(i + 1, j as int),
        decreases es@.len() - j,
    {
        let ghost prev = out@;
        if j != i {
            let k = es[j].0.clone();
            let c = copy_value(&es[j].1);
            out.push((k, c));
            proof {
                assert(view_entries(out@) =~= view_entries(prev).push((k@, c@)));
                if j < i {
                    assert(whole.take(j + 1) =~= whole.take(j as int).push(whole[j as int]));
                } else {
                    assert(whole.subrange(i + 1, j + 1) =~= whole.subrange(i + 1, j as int).push(whole[j as int]));
                    assert(whole.take(i as int) + whole.subrange(i + 1, j + 1) =~= (whole.take(i as int) + whole.subrange(i + 1, j as int)).push(whole[j as int]));
                }
            }
        } else {
            proof {
                assert(whole.subrange(i + 1, j + 1) =~= Seq::<(Seq<char>, Json)>::empty());
                assert(whole.take(i as int) + whole.subrange(i + 1, j + 1) =~= whole.take(i as int));
            }
        }
        j = j + 1;
    }
    proof {
        assert(whole.take(i as int) + whole.subrange(i + 1, es@.len() as int) =~= whole.remove(i as int));
    }
    out
}

fn gather_definitions(comps: &mut Vec<(String, JsonValue)>, d: &Vec<(String, JsonValue)>)
    requires
        keys_distinct(view_entries(old(comps)@)),
    ensures
        keys_distinct(view_entries(final(comps)@)),
        view_entries(final(comps)@) == insert_all(view_entries(old(comps)@), view_entries(d@)),
{
    let ghost dv = view_entries(d@);
    let ghost start = view_entries(comps@);
    let mut i: usize = 0;
    proof {
        assert(dv.subrange(0, dv.len() as int) =~= dv);
    }
    while i < d.len()
        invariant
            dv == view_entries(d@),
            i <= d@.len(),
            keys_distinct(view_entries(comps@)),
            insert_all(view_entries(comps@), dv.subrange(i as int, dv.len() as int)) == insert_all(start, dv),
        decreases d@.len() - i,
    {
        let ghost acc = view_entries(comps@);
        let k = d[i].0.clone();
        let c = copy_value(&d[i].1);
        insert_member(comps, k, c);
        proof {
            let rest = dv.subrange(i as int, dv.len() as int);
            assert(rest[0] == dv[i as int]);
            assert(rest.subrange(1, rest.len() as int) =~= dv.subrange(i + 1, dv.len() as int));
        }
        i = i + 1;
    }
}

/// Moves the `definitions` of a schema into the component schemas: returns
/// the schema without its `definitions` member, and stores each definition
/// in `components_schemas`, a later one replacing an earlier one of the same
/// name.
pub fn process_openapi_schema(schema: &JsonValue, components_schemas: &mut Vec<(String, JsonValue)>) -> (r: JsonValue)
    requires
        well_formed(schema@),
        keys_distinct(view_entries(old(components_schemas)@)),
    ensures
        r@ == processed_schema(schema@),
        view_entries(final(components_schemas)@) == gathered_components(schema@, view_entries(old(components_schemas)@)),
        keys_distinct(view_entries(final(components_schemas)@)),
{
    match schema {
        JsonValue::Object(es) => {
            let key = String::from_str("definitions");
            match find_key(es, &key) {
                Some(i) => {
                    let ghost ev = view_entries(es@);
                    proof {
                        assert(ev[i as int].0 == key@);
                        assert(has_key(ev, "definitions"@));
                        let c = key_position(ev, "definitions"@);
                        assert(c == i as int);
                    }
                    match &es[i].1 {
                        JsonValue::Object(d) => {
                            gather_definitions(components_schemas, d);
                        },
                        _ => {},
                    }
                    let rest = copy_entries_without(es, i);
                    JsonValue::Object(rest)
                },
                None => {
                    proof {
                        let ev = view_entries(es@);
                        assert(!has_key(ev, "definitions"@));
                    }
                    copy_value(schema)
                },
            }
        },
        _ => copy_value(schema),
    }
}

/// An object with the single member `k: v`.
pub open spec fn obj1(k: Seq<char>, v: Json) -> Json {
    Json::Object(seq![(k, v)])
}

/// The content description `{"application/json": {"schema": s}}`.
pub open spec fn media_schema(s: Json) -> Json {
    obj1("application/json"@, obj1("schema"@, s))
}

/// The texts among `items`.
pub open spec fn str_set(items: Seq<Json>) -> Set<Seq<char>> {
    Set::new(|t: Seq<char>| exists|i: int| 0 <= i < items.len() && items[i] == Json::Str(t))
}

/// The names a schema object lists under `required`.
pub open spec fn required_set(es: Seq<(Seq<char>, Json)>) -> Set<Seq<char>> {
    if has_key(es, "required"@) {
        match es[key_position(es, "required"@)].1 {
            Json::Array(items) => str_set(items),
            _ => Set::empty(),
        }
    } else {
        Set::empty()
    }
}

/// The description of one query parameter.
pub open spec fn param_object(name: Seq<char>, required: bool, schema: Json) -> Json {
    Json::Object(
        seq![
            ("name"@, Json::Str(name)),
            ("in"@, Json::Str("query"@)),
            ("required"@, Json::Bool(required)),
            ("schema"@, schema),
        ],
    )
}

/// The query parameters described by a schema: one per member of its
/// `properties` object, in order, required when `required` lists it. None
/// when the schema has no `properties` object.
pub open spec fn query_parameters(schema: Json) -> Option<Json> {
    match schema {
        Json::Object(es) => if has_key(es, "properties"@) {
            match es[key_position(es, "properties"@)].1 {
                Json::Object(props) => Some(
                    Json::Array(
                        props.map_values(
                            |p: (Seq<char>, Json)| param_object(p.0, required_set(es).contains(p.0), p.1),
                        ),
                    ),
                ),
                _ => None,
            }
        } else {
            None
        },
        _ => None,
    }
}

fn lit(s: &str) -> (r: String)
    ensures
        r@ == s@,
{
    String::from_str(s)
}

fn make_obj1(k: &str, v: JsonValue) -> (r: JsonValue)
    ensures
        r@ == obj1(k@, v@),
{
    let mut es: Vec<(String, JsonValue)> = Vec::new();
    es.push((lit(k), v));
    proof {
        assert(view_entries(es@) =~= seq![(k@, v@)]);
    }
    JsonValue::Object(es)
}

fn make_media_schema(s: JsonValue) -> (r: JsonValue)
    ensures
        r@ == media_schema(s@),
{
    let inner = make_obj1("schema", s);
    make_obj1("application/json", inner)
}

proof fn lemma_remove_distinct(es: Seq<(Seq<char>, Json)>, p: int)
    requires
        keys_distinct(es),
        0 <= p < es.len(),
    ensures
        keys_distinct(es.remove(p)),
{
    let r = es.remove(p);
    assert forall|i: int, j: int| 0 <= i < j < r.len() implies r[i].0 != r[j].0 by {
        let a = if i < p { i } else { i + 1 };
        let b = if j < p { j } else { j + 1 };
        assert(r[i] == es[a]);
        assert(r[j] == es[b]);
    }
}

fn names_required(es: &Vec<(String, JsonValue)>, name: &String) -> (r: bool)
    requires
        keys_distinct(view_entries(es@)),
    ensures
        r == required_set(view_entries(es@)).contains(name@),
{
    let ghost ev = view_entries(es@);
    let key = lit("required");
    match find_key(es, &key) {
        Some(i) => {
            proof {
                assert(ev[i as int].0 == key@);
                assert(has_key(ev, "required"@));
                assert(key_position(ev, "required"@) == i as int);
            }
            match &es[i].1 {
                JsonValue::Array(items) => {
                    proof {
                        assert(ev[i as int].1 == Json::Array(view_items(items@)));
                        assert(required_set(ev) == str_set(view_items(items@)));
                    }
                    let mut j: usize = 0;
                    while j < items.len()
                        invariant
                            ev == view_entries(es@),
                            required_set(ev) == str_set(view_items(items@)),
                            j <= items@.len(),
                            forall|q: int| 0 <= q < j ==> json_not_str(view_items(items@)[q], name@),
                        decreases items@.len() - j,
                    {
                        match &items[j] {
                            JsonValue::Str(t) => {
                                if *t == *name {
                                    proof {
                                        assert(view_items(items@)[j as int] == Json::Str(name@));
                                        assert(str_set(view_items(items@)).contains(name@));
                                    }
                                    return true;
                                }
                            },
                            _ => {},
                        }
                        j = j + 1;
                    }
                    proof {
                        assert(!str_set(view_items(items@)).contains(name@));
                    }
                    false
                },
                _ => false,
            }
        },
        None => {
            proof {
                assert(!has_key(ev, "required"@));
            }
            false
        },
    }
}

/// `v` is not the text `t`.
pub open spec fn json_not_str(v: Json, t: Seq<char>) -> bool {
    v != Json::Str(t)
}

fn make_param(name: &String, required: bool, schema: &JsonValue) -> (r: JsonValue)
    ensures
        r@ == param_object(name@, required, schema@),
{
    let mut es: Vec<(String, JsonValue)> = Vec::new();
    es.push((lit("name"), JsonValue::Str(name.clone())));
    es.push((lit("in"), JsonValue::Str(lit("query"))));
    es.push((lit("required"), JsonValue::Bool(required)));
    es.push((lit("schema"), copy_value(schema)));
    proof {
        assert(view_entries(es@) =~= seq![
            ("name"@, Json::Str(name@)),
            ("in"@, Json::Str("query"@)),
            ("required"@, Json::Bool(required)),
            ("schema"@, schema@),
        ]);
    }
    JsonValue::Object(es)
}

/// The query parameters that a (processed) query schema describes.
pub fn query_parameters_of(schema: &JsonValue) -> (r: Option<JsonValue>)
    requires
        schema@ matches Json::Object(es) ==> keys_distinct(es),
    ensures
        match r {
            Some(v) => query_parameters(schema@) == Some(v@),
            None => query_parameters(schema@) is None,
        },
{
    match schema {
        JsonValue::Object(es) => {
            let ghost ev = view_entries(es@);
            let key = lit("properties");
            match find_key(es, &key) {
                Some(i) => {
                    proof {
                        assert(ev[i as int].0 == key@);
                        assert(has_key(ev, "properties"@));
                        assert(key_position(ev, "properties"@) == i as int);
                    }
                    match &es[i].1 {
                        JsonValue::Object(props) => {
                            let ghost pv = view_entries(props@);
                            let ghost want = pv.map_values(|p: (Seq<char>, Json)| param_object(p.0, required_set(ev).contains(p.0), p.1));
                            let mut out: Vec<JsonValue> = Vec::new();
                            let mut j: usize = 0;
                            while j < props.len()
                                invariant
                                    ev == view_entries(es@),
                                    keys_distinct(ev),
                                    pv == view_entries(props@),
                                    want == pv.map_values(|p: (Seq<char>, Json)| param_object(p.0, required_set(ev).contains(p.0), p.1)),
                                    j <= props@.len(),
                                    view_items(out@) == want.take(j as int),
                                decreases props@.len() - j,
                            {
                                let ghost prev = out@;
                                let req = names_required(es, &props[j].0);
                                let p = make_param(&props[j].0, req, &props[j].1);
                                out.push(p);
                                proof {
                                    assert(view_items(out@) =~= view_items(prev).push(p@));
                                    assert(want.take(j + 1) =~= want.take(j as int).push(want[j as int]));
                                }
                                j = j + 1;
                            }
                            proof {
                                assert(want.take(props@.len() as int) =~= want);
                            }
                            Some(JsonValue::Array(out))
                        },
                        _ => None,
                    }
                },
                None => {
                    proof {
                        assert(!has_key(ev, "properties"@));
                    }
                    None
                },
            }
        },
        _ => None,
    }
}

/// A query schema with a `properties` object describes one query
/// parameter per property, in order, under the property's name and with
/// its schema; a parameter is required exactly when the schema's
/// `required` member is an array that holds the parameter's name as a
/// text.
pub proof fn lemma_query_parameters_required(es: Seq<(Seq<char>, Json)>, props: Seq<(Seq<char>, Json)>)
    requires
        lookup(es, "properties"@) == Some(Json::Object(props)),
    ensures
        query_parameters(Json::Object(es)) matches Some(Json::Array(ps)) && ps.len() == props.len()
            && forall|i: int| 0 <= i < props.len() ==> #[trigger] ps[i] == param_object(
                props[i].0,
                (lookup(es, "required"@) matches Some(Json::Array(reqs)) && reqs.contains(Json::Str(props[i].0))),
                props[i].1,
            ),
{
    let ps = props.map_values(|p: (Seq<char>, Json)| param_object(p.0, required_set(es).contains(p.0), p.1));
    assert(query_parameters(Json::Object(es)) == Some(Json::Array(ps)));
    assert forall|i: int| 0 <= i < props.len() implies #[trigger] ps[i] == param_object(
        props[i].0,
        (lookup(es, "required"@) matches Some(Json::Array(reqs)) && reqs.contains(Json::Str(props[i].0))),
        props[i].1,
    ) by {
        let name = props[i].0;
        let listed = lookup(es, "required"@) matches Some(Json::Array(reqs)) && reqs.contains(Json::Str(name));
        if let Some(Json::Array(reqs)) = lookup(es, "required"@) {
            assert(required_set(es) == str_set(reqs));
            if reqs.contains(Json::Str(name)) {
                let j = choose|j: int| 0 <= j < reqs.len() && reqs[j] == Json::Str(name);
                assert(str_set(reqs).contains(name));
            }
            if str_set(reqs).contains(name) {
                let j = choose|j: int| 0 <= j < reqs.len() && reqs[j] == Json::Str(name);
                assert(reqs.contains(Json::Str(name)));
            }
        } else {
            assert(required_set(es) == Set::<Seq<char>>::empty());
        }
        assert(required_set(es).contains(name) == listed);
    }
}

/// A query schema that is not an object, or has no `properties` object,
/// describes no query parameters.
pub proof fn lemma_query_parameters_need_properties(schema: Json)
    requires
        !(schema matches Json::Object(es) && lookup(es, "properties"@) matches Some(Json::Object(_))),
    ensures
        query_parameters(schema) is None,
{
}

/// The schemas of a route are well formed.
pub open spec fn schemas_well_formed(info: RouteInfo) -> bool {
    &&& (info.request_schema matches Some(s) ==> well_formed(s))
    &&& (info.response_schema matches Some(s) ==> well_formed(s))
    &&& (info.query_schema matches Some(s) ==> well_formed(s))
}

/// The tags as a JSON array of texts.
pub open spec fn tags_json(tags: Seq<Seq<char>>) -> Json {
    Json::Array(tags.map_values(|t: Seq<char>| Json::Str(t)))
}

/// The operation that documents a route, and the component schemas after
/// gathering the definitions of its response, query and request schemas,
/// in that order.
pub open spec fn operation(info: RouteInfo, comps: Seq<(Seq<char>, Json)>) -> (Json, Seq<(Seq<char>, Json)>) {
    let ok_base = seq![("description"@, Json::Str("OK"@))];
    let ok = match info.response_schema {
        Some(s) => Json::Object(ok_base.push(("content"@, media_schema(processed_schema(s))))),
        None => Json::Object(ok_base),
    };
    let c1 = match info.response_schema {
        Some(s) => gathered_components(s, comps),
        None => comps,
    };
    let e0 = seq![("responses"@, obj1("200"@, ok))];
    let e1 = if info.tags.len() > 0 { e0.push(("tags"@, tags_json(info.tags))) } else { e0 };
    let e2 = match info.query_schema {
        Some(s) => match query_parameters(processed_schema(s)) {
            Some(ps) => e1.push(("parameters"@, ps)),
            None => e1,
        },
        None => e1,
    };
    let c2 = match info.query_schema {
        Some(s) => gathered_components(s, c1),
        None => c1,
    };
    let e3 = match info.request_schema {
        Some(s) => e2.push(
            (
                "requestBody"@,
                Json::Object(seq![("required"@, Json::Bool(true)), ("content"@, media_schema(processed_schema(s)))]),
            ),
        ),
        None => e2,
    };
    let c3 = match info.request_schema {
        Some(s) => gathered_components(s, c2),
        None => c2,
    };
    (Json::Object(e3), c3)
}

proof fn lemma_processed_distinct(s: Json)
    requires
        well_formed(s),
    ensures
        processed_schema(s) matches Json::Object(es) ==> keys_distinct(es),
{
    match s {
        Json::Object(es) => {
            if has_key(es, "definitions"@) {
                let p = key_position(es, "definitions"@);
                lemma_remove_distinct(es, p);
            }
        },
        _ => {},
    }
}

fn make_tags(tags: &Vec<String>) -> (r: JsonValue)
    ensures
        r@ == tags_json(strings_view(tags@)),
{
    let mut out: Vec<JsonValue> = Vec::new();
    let mut i: usize = 0;
    let ghost want = strings_view(tags@).map_values(|t: Seq<char>| Json::Str(t));
    while i < tags.len()
        invariant
            i <= tags@.len(),
            want == strings_view(tags@).map_values(|t: Seq<char>| Json::Str(t)),
            view_items(out@) == want.take(i as int),
        decreases tags@.len() - i,
    {
        let ghost prev = out@;
        let t = JsonValue::Str(tags[i].clone());
        out.push(t);
        proof {
            assert(view_items(out@) =~= view_items(prev).push(t@));
            assert(want.take(i + 1) =~= want.take(i as int).push(want[i as int]));
        }
        i = i + 1;
    }
    proof {
        assert(want.take(tags@.len() as int) =~= want);
    }
    JsonValue::Array(out)
}

/// The operation that documents `route`; gathers the definitions of its
/// schemas into `components_schemas`.
pub fn build_operation<H>(route: &Route<H>, components_schemas: &mut Vec<(String, JsonValue)>) -> (r: JsonValue)
    requires
        schemas_well_formed(route.info()),
        keys_distinct(view_entries(old(components_schemas)@)),
    ensures
        (r@, view_entries(final(components_schemas)@)) == operation(route.info(), view_entries(old(components_schemas)@)),
        keys_distinct(view_entries(final(components_schemas)@)),
{
    let ghost info = route.info();
    let ghost c0 = view_entries(components_schemas@);
    let mut ok: Vec<(String, JsonValue)> = Vec::new();
    ok.push((lit("description"), JsonValue::Str(lit("OK"))));
    proof {
        assert(view_entries(ok@) =~= seq![("description"@, Json::Str("OK"@))]);
    }
    match &route.response_schema {
        Some(s) => {
            let p = process_openapi_schema(s, components_schemas);
            let m = make_media_schema(p);
            let ghost prev = ok@;
            ok.push((lit("content"), m));
            proof {
                assert(view_entries(ok@) =~= view_entries(prev).push(("content"@, m@)));
            }
        },
        None => {},
    }
    let ok_obj = JsonValue::Object(ok);
    let responses = make_obj1("200", ok_obj);
    let mut es: Vec<(String, JsonValue)> = Vec::new();
    es.push((lit("responses"), responses));
    proof {
        assert(view_entries(es@) =~= seq![("responses"@, obj1("200"@, ok_obj@))]);
    }
    if route.tags.len() > 0 {
        let t = make_tags(&route.tags);
        let ghost prev = es@;
        es.push((lit("tags"), t));
        proof {
            assert(view_entries(es@) =~= view_entries(prev).push(("tags"@, t@)));
        }
    }
    match &route.query_schema {
        Some(s) => {
            let p = process_openapi_schema(s, components_schemas);
            proof {
                lemma_processed_distinct(s@);
            }
            match query_parameters_of(&p) {
                Some(ps) => {
                    let ghost prev = es@;
                    es.push((lit("parameters"), ps));
                    proof {
                        assert(view_entries(es@) =~= view_entries(prev).push(("parameters"@, ps@)));
                    }
                },
                None => {},
            }
        },
        None => {},
    }
    match &route.request_schema {
        Some(s) => {
            let p = process_openapi_schema(s, components_schemas);
            let m = make_media_schema(p);
            let mut body: Vec<(String, JsonValue)> = Vec::new();
            body.push((lit("required"), JsonValue::Bool(true)));
            body.push((lit("content"), m));
            proof {
                assert(view_entries(body@) =~= seq![("required"@, Json::Bool(true)), ("content"@, m@)]);
            }
            let b = JsonValue::Object(body);
            let ghost prev = es@;
            es.push((lit("requestBody"), b));
            proof {
                assert(view_entries(es@) =~= view_entries(prev).push(("requestBody"@, b@)));
            }
        },
        None => {},
    }
    JsonValue::Object(es)
}

/// The paths object after documenting `op` under `path` and `method`: an
/// existing path item gains (or replaces) the method's operation; a new
/// path gets an item with just this operation.
pub open spec fn add_route(
    paths: Seq<(Seq<char>, Json)>,
    path: Seq<char>,
    method: Seq<char>,
    op: Json,
) -> Seq<(Seq<char>, Json)> {
    if has_key(paths, path) {
        match paths[key_position(paths, path)].1 {
            Json::Object(ms) => entries_insert(paths, path, Json::Object(entries_insert(ms, method, op))),
            other => entries_insert(paths, path, other),
        }
    } else {
        entries_insert(paths, path, obj1(method, op))
    }
}

/// Each path item is an object with distinct keys, and paths are distinct.
pub open spec fn paths_ok(paths: Seq<(Seq<char>, Json)>) -> bool {
    &&& keys_distinct(paths)
    &&& forall|i: int| 0 <= i < paths.len() ==> ((#[trigger] paths[i]).1 matches Json::Object(ms) && keys_distinct(ms))
}

/// The paths object and component schemas that document `routes`, one
/// route after the other.
pub open spec fn build_paths(routes: Seq<RouteInfo>) -> (Seq<(Seq<char>, Json)>, Seq<(Seq<char>, Json)>)
    decreases routes.len(),
{
    if routes.len() == 0 {
        (Seq::empty(), Seq::empty())
    } else {
        let prev = build_paths(routes.drop_last());
        let r = routes.last();
        let oc = operation(r, prev.1);
        (add_route(prev.0, r.path, r.method.lower_name(), oc.0), oc.1)
    }
}

/// The document before references are rewritten.
pub open spec fn raw_document(
    title: Seq<char>,
    version: Seq<char>,
    paths: Seq<(Seq<char>, Json)>,
    comps: Seq<(Seq<char>, Json)>,
) -> Json {
    let base = seq![
        ("openapi"@, Json::Str("3.0.0"@)),
        ("info"@, Json::Object(seq![("title"@, Json::Str(title)), ("version"@, Json::Str(version))])),
        ("paths"@, Json::Object(paths)),
    ];
    Json::Object(
        if comps.len() > 0 {
            base.push(("components"@, obj1("schemas"@, Json::Object(comps))))
        } else {
            base
        },
    )
}

/// The OpenAPI document of an application with these routes.
pub open spec fn openapi_document(title: Seq<char>, version: Seq<char>, routes: Seq<RouteInfo>) -> Json {
    let pc = build_paths(routes);
    rewrite(raw_document(title, version, pc.0, pc.1))
}

proof fn lemma_insert_distinct(es: Seq<(Seq<char>, Json)>, k: Seq<char>, v: Json)
    requires
        keys_distinct(es),
    ensures
        keys_distinct(entries_insert(es, k, v)),
        forall|i: int| 0 <= i < entries_insert(es, k, v).len() ==> {
            ||| #[trigger] entries_insert(es, k, v)[i] == (k, v)
            ||| (i < es.len() && entries_insert(es, k, v)[i] == es[i])
        },
{
}

/// Documents `op` under `path` and `method`.
pub fn add_operation(paths: &mut Vec<(String, JsonValue)>, path: &String, method: &str, op: JsonValue)
    requires
        paths_ok(view_entries(old(paths)@)),
    ensures
        view_entries(final(paths)@) == add_route(view_entries(old(paths)@), path@, method@, op@),
        paths_ok(view_entries(final(paths)@)),
{
    let ghost pv = view_entries(paths@);
    match find_key(paths, path) {
        Some(i) => {
            proof {
                assert(pv[i as int].0 == path@);
                assert(has_key(pv, path@));
                assert(key_position(pv, path@) == i as int);
            }
            let (k, item) = paths.remove(i);
            let new_item = match item {
                JsonValue::Object(ms) => {
                    let mut ms = ms;
                    proof {
                        assert(pv[i as int].1 == Json::Object(view_entries(ms@)));
                    }
                    insert_member(&mut ms, lit(method), op);
                    JsonValue::Object(ms)
                },
                other => {
                    proof {
                        assert(pv[i as int].1 matches Json::Object(_));
                        assert(false);
                    }
                    other
                },
            };
            let ghost ni = new_item@;
            paths.insert(i, (k, new_item));
            proof {
                assert(view_entries(paths@) =~= pv.update(i as int, (path@, ni)));
                lemma_insert_distinct(pv, path@, ni);
                let np = view_entries(paths@);
                assert forall|j: int| 0 <= j < np.len() implies ((#[trigger] np[j]).1 matches Json::Object(ms) && keys_distinct(ms)) by {
                    if j != i {
                        assert(np[j] == pv[j]);
                    }
                }
            }
        },
        None => {
            proof {
                assert(!has_key(pv, path@));
            }
            let item = make_obj1(method, op);
            let ghost ni = item@;
            paths.push((path.clone(), item));
            proof {
                assert(view_entries(paths@) =~= pv.push((path@, ni)));
                let np = view_entries(paths@);
                assert forall|j: int| 0 <= j < np.len() implies ((#[trigger] np[j]).1 matches Json::Object(ms) && keys_distinct(ms)) by {
                    if j < pv.len() {
                        assert(np[j] == pv[j]);
                    } else {
                        assert(np[j].1 == obj1(method@, op@));
                    }
                }
            }
        },
    }
}

/// The final OpenAPI document: version 3.0.0, the given title and version,
/// the paths, and the component schemas when there are any, with every
/// reference into `#/definitions/` pointed at `#/components/schemas/`.
pub fn finalize_openapi_spec(
    title: String,
    version: String,
    paths: Vec<(String, JsonValue)>,
    components_schemas: Vec<(String, JsonValue)>,
) -> (r: JsonValue)
    ensures
        r@ == rewrite(raw_document(title@, version@, view_entries(paths@), view_entries(components_schemas@))),
{
    let ghost pv = view_entries(paths@);
    let ghost cv = view_entries(components_schemas@);
    let mut info: Vec<(String, JsonValue)> = Vec::new();
    info.push((lit("title"), JsonValue::Str(title)));
    info.push((lit("version"), JsonValue::Str(version)));
    let mut es: Vec<(String, JsonValue)> = Vec::new();
    es.push((lit("openapi"), JsonValue::Str(lit("3.0.0"))));
    es.push((lit("info"), JsonValue::Object(info)));
    es.push((lit("paths"), JsonValue::Object(paths)));
    let has_components = components_schemas.len() > 0;
    if has_components {
        let c = make_obj1("schemas", JsonValue::Object(components_schemas));
        es.push((lit("components"), c));
    }
    let doc = JsonValue::Object(es);
    proof {
        let base = seq![
            ("openapi"@, Json::Str("3.0.0"@)),
            ("info"@, Json::Object(seq![("title"@, Json::Str(title@)), ("version"@, Json::Str(version@))])),
            ("paths"@, Json::Object(pv)),
        ];
        assert(view_entries(info@) =~= seq![("title"@, Json::Str(title@)), ("version"@, Json::Str(version@))]);
        if has_components {
            assert(view_entries(es@) =~= base.push(("components"@, obj1("schemas"@, Json::Object(cv)))));
        } else {
            assert(view_entries(es@) =~= base);
        }
    }
    rewritten(&doc)
}

impl<H> RustAPI<H> {
    /// The OpenAPI document of this application: one operation per route,
    /// in the order the routes were added (a later route replacing an
    /// earlier one on the same path and method).
    pub fn openapi_json(&self) -> (r: JsonValue)
        requires
            forall|i: int| 0 <= i < self.routes@.len() ==> schemas_well_formed(#[trigger] self.routes@[i].info()),
        ensures
            r@ == openapi_document(self.title@, self.version@, infos(self.routes@)),
    {
        let ghost all = infos(self.routes@);
        let mut paths: Vec<(String, JsonValue)> = Vec::new();
        let mut comps: Vec<(String, JsonValue)> = Vec::new();
        let mut i: usize = 0;
        proof {
            assert(view_entries(paths@) =~= Seq::<(Seq<char>, Json)>::empty());
            assert(view_entries(comps@) =~= Seq::<(Seq<char>, Json)>::empty());
            assert(all.take(0) =~= Seq::<RouteInfo>::empty());
        }
        while i < self.routes.len()
            invariant
                all == infos(self.routes@),
                forall|j: int| 0 <= j < self.routes@.len() ==> schemas_well_formed(#[trigger] self.routes@[j].info()),
                i <= self.routes@.len(),
                paths_ok(view_entries(paths@)),
                keys_distinct(view_entries(comps@)),
                (view_entries(paths@), view_entries(comps@)) == build_paths(all.take(i as int)),
            decreases self.routes@.len() - i,
        {
            let route = &self.routes[i];
            let op = build_operation(route, &mut comps);
            let m = route.method.to_lowercase();
            add_operation(&mut paths, &route.path, m, op);
            proof {
                assert(all.take(i + 1).drop_last() =~= all.take(i as int));
                assert(all.take(i + 1).last() == all[i as int]);
            }
            i = i + 1;
        }
        proof {
            assert(all.take(self.routes@.len() as int) =~= all);
        }
        finalize_openapi_spec(self.title.clone(), self.version.clone(), paths, comps)
    }
}

} // verus!
