//! Field projection of response bodies: keeping only named fields, or
//! dropping named fields, in every object of a JSON document.

use vstd::prelude::*;
use crate::json::{JsonValue, Json, view_entries, view_items, copy_value, group_json_view, well_formed, keys_distinct};

verus! {

broadcast use group_json_view;

/// The set of names held by `v`.
pub open spec fn name_set(v: Seq<String>) -> Set<Seq<char>> {
    Set::new(|k: Seq<char>| exists|i: int| 0 <= i < v.len() && v[i]@ == k)
}

/// The optional name set held by an optional list of names.
pub open spec fn opt_name_set(v: Option<Vec<String>>) -> Option<Set<Seq<char>>> {
    match v {
        Some(names) => Some(name_set(names@)),
        None => None,
    }
}

/// A member with key `k` survives projection: it is inclusiond (or no
/// inclusion list is given) and it is not excluded.
pub open spec fn keeps(inc: Option<Set<Seq<char>>>, exc: Option<Set<Seq<char>>>, k: Seq<char>) -> bool {
    &&& (inc matches Some(s) ==> s.contains(k))
    &&& (exc matches Some(s) ==> !s.contains(k))
}

/// The projection of a value: in every object, at every depth, only the
/// members that `keeps` admits remain; arrays are projected element-wise;
/// other values are unchanged.
pub open spec fn project(v: Json, inc: Option<Set<Seq<char>>>, exc: Option<Set<Seq<char>>>) -> Json
    decreases v,
{
    match v {
        Json::Object(es) => Json::Object(project_entries(es, inc, exc)),
        Json::Array(items) => Json::Array(project_items(items, inc, exc)),
        _ => v,
    }
}

/// Projection of a list of members, kept in order.
pub open spec fn project_entries(
    es: Seq<(Seq<char>, Json)>,
    inc: Option<Set<Seq<char>>>,
    exc: Option<Set<Seq<char>>>,
) -> Seq<(Seq<char>, Json)>
    decreases es,
{
    if es.len() == 0 {
        Seq::empty()
    } else {
        let last = es[es.len() - 1];
        let front = project_entries(es.subrange(0, es.len() - 1), inc, exc);
        if keeps(inc, exc, last.0) {
            front.push((last.0, project(last.1, inc, exc)))
        } else {
            front
        }
    }
}

/// Projection of a list of elements, element by element.
pub open spec fn project_items(
    items: Seq<Json>,
    inc: Option<Set<Seq<char>>>,
    exc: Option<Set<Seq<char>>>,
) -> Seq<Json>
    decreases items,
{
    if items.len() == 0 {
        Seq::empty()
    } else {
        project_items(items.subrange(0, items.len() - 1), inc, exc).push(
            project(items[items.len() - 1], inc, exc),
        )
    }
}

/// Whether `k` is one of `names`.
pub fn contains_name(names: &Vec<String>, k: &String) -> (r: bool)
    ensures
        r == name_set(names@).contains(k@),
{
    let mut i: usize = 0;
    while i < names.len()
        invariant
            i <= names@.len(),
            forall|j: int| 0 <= j < i ==> names@[j]@ != k@,
        decreases names@.len() - i,
    {
        if names[i] == *k {
            assert(name_set(names@).contains(k@)) by {
                assert(names@[i as int]@ == k@);
            }
            return true;
        }
        i = i + 1;
    }
    false
}

fn keeps_key(inclusion: &Option<Vec<String>>, exclude: &Option<Vec<String>>, k: &String) -> (r: bool)
    ensures
        r == keeps(opt_name_set(*inclusion), opt_name_set(*exclude), k@),
{
    let inc_ok = match inclusion {
        Some(names) => contains_name(names, k),
        None => true,
    };
    let exc_ok = match exclude {
        Some(names) => !contains_name(names, k),
        None => true,
    };
    inc_ok && exc_ok
}

/// The projection of `v`, built afresh.
pub fn projected(v: &JsonValue, inclusion: &Option<Vec<String>>, exclude: &Option<Vec<String>>) -> (r: JsonValue)
    ensures
        r@ == project(v@, opt_name_set(*inclusion), opt_name_set(*exclude)),
    decreases v,
{
    let ghost inc = opt_name_set(*inclusion);
    let ghost exc = opt_name_set(*exclude);
    match v {
        JsonValue::Object(es) => {
            let mut out: Vec<(String, JsonValue)> = Vec::new();
            let mut i: usize = 0;
            while i < es.len()
                invariant
                    *v == JsonValue::Object(*es),
                    inc == opt_name_set(*inclusion),
                    exc == opt_name_set(*exclude),
                    i <= es@.len(),
                    view_entries(out@) == project_entries(view_entries(es@).take(i as int), inc, exc),
                decreases es@.len() - i,
            {
                proof {
                    assert(decreases_to!(*v => v->Object_0));
                    assert(decreases_to!(*es => es@));
                    assert(decreases_to!(es@ => es@[i as int]));
                    assert(decreases_to!(es@[i as int] => es@[i as int].1));
                }
                let ghost prev = out@;
                let ghost whole = view_entries(es@);
                if keeps_key(inclusion, exclude, &es[i].0) {
                    let k = es[i].0.clone();
                    let c = projected(&es[i].1, inclusion, exclude);
                    out.push((k, c));
                    proof {
                        assert(view_entries(out@) =~= view_entries(prev).push(
                            (k@, c@),
                        ));
                    }
                }
                proof {
                    assert(whole.take(i + 1).subrange(0, i as int) =~= whole.take(i as int));
                }
                i = i + 1;
            }
            proof {
                assert(view_entries(es@).take(es@.len() as int) =~= view_entries(es@));
            }
            JsonValue::Object(out)
        },
        JsonValue::Array(items) => {
            let mut out: Vec<JsonValue> = Vec::new();
            let mut i: usize = 0;
            while i < items.len()
                invariant
                    *v == JsonValue::Array(*items),
                    inc == opt_name_set(*inclusion),
                    exc == opt_name_set(*exclude),
                    i <= items@.len(),
                    view_items(out@) == project_items(view_items(items@).take(i as int), inc, exc),
                decreases items@.len() - i,
            {
                proof {
                    assert(decreases_to!(*v => v->Array_0));
                    assert(decreases_to!(*items => items@));
                    assert(decreases_to!(items@ => items@[i as int]));
                }
                let ghost prev = out@;
                let ghost whole = view_items(items@);
                let c = projected(&items[i], inclusion, exclude);
                out.push(c);
                proof {
                    assert(view_items(out@) =~= view_items(prev).push(c@));
                    assert(whole.take(i + 1).subrange(0, i as int) =~= whole.take(i as int));
                }
                i = i + 1;
            }
            proof {
                assert(view_items(items@).take(items@.len() as int) =~= view_items(items@));
            }
            JsonValue::Array(out)
        },
        _ => copy_value(v),
    }
}

/// Projects `value` in place: in every object, at every depth, members not
/// named in `inclusion` (when given) and members named in `exclude` (when
/// given) are removed.
pub fn filter_value(value: &mut JsonValue, inclusion: &Option<Vec<String>>, exclude: &Option<Vec<String>>)
    ensures
        final(value)@ == project(old(value)@, opt_name_set(*inclusion), opt_name_set(*exclude)),
{
    let r = projected(value, inclusion, exclude);
    *value = r;
}


/// A response body together with the fields to keep or drop when it is
/// rendered.
#[derive(Debug)]
pub struct Projected<T> {
    data: T,
    inclusion: Option<Vec<String>>,
    exclusion: Option<Vec<String>>,
}

/// The name set of `old` (empty when absent) extended with `fields`.
pub open spec fn extended(old: Option<Vec<String>>, fields: Seq<&str>) -> Set<Seq<char>> {
    let base = match old {
        Some(v) => name_set(v@),
        None => Set::empty(),
    };
    base.union(Set::new(|k: Seq<char>| exists|i: int| 0 <= i < fields.len() && fields[i]@ == k))
}

fn extend_names(old: Option<Vec<String>>, fields: Vec<&str>) -> (r: Vec<String>)
    ensures
        name_set(r@) == extended(old, fields@),
{
    let mut names: Vec<String> = match old {
        Some(v) => v,
        None => Vec::new(),
    };
    let ghost base = names@;
    let mut i: usize = 0;
    while i < fields.len()
        invariant
            i <= fields@.len(),
            names@.len() == base.len() + i,
            forall|j: int| 0 <= j < base.len() ==> #[trigger] names@[j] == base[j],
            forall|j: int| 0 <= j < i ==> #[trigger] names@[base.len() + j]@ == fields@[j]@,
        decreases fields@.len() - i,
    {
        names.push(String::from_str(fields[i]));
        i = i + 1;
    }
    proof {
        let want = extended(old, fields@);
        assert(base == match old { Some(v) => v@, None => Seq::<String>::empty() });
        assert forall|k: Seq<char>| name_set(names@).contains(k) <==> want.contains(k) by {
            if name_set(names@).contains(k) {
                let j = choose|j: int| 0 <= j < names@.len() && names@[j]@ == k;
                if j >= base.len() {
                    assert(names@[base.len() + (j - base.len())] == names@[j]);
                    assert(fields@[j - base.len()]@ == k);
                } else {
                    assert(base[j]@ == k);
                }
            }
            if want.contains(k) {
                if exists|j: int| 0 <= j < fields@.len() && fields@[j]@ == k {
                    let j = choose|j: int| 0 <= j < fields@.len() && fields@[j]@ == k;
                    assert(names@[base.len() + j]@ == k);
                } else {
                    let j = choose|j: int| 0 <= j < base.len() && base[j]@ == k;
                    assert(names@[j]@ == k);
                }
            }
        }
        assert(name_set(names@) =~= want);
    }
    names
}

impl<T> Projected<T> {
    /// A body with no projection.
    pub fn new(data: T) -> (r: Self)
        ensures
            r.data() == data,
            r.inclusion() is None,
            r.exclusion() is None,
    {
        Projected { data, inclusion: None, exclusion: None }
    }

    /// The body.
    pub closed spec fn data(&self) -> T {
        self.data
    }

    /// The names to keep, if an inclusion list was given.
    pub closed spec fn inclusion(&self) -> Option<Vec<String>> {
        self.inclusion
    }

    /// The names to drop, if an exclusion list was given.
    pub closed spec fn exclusion(&self) -> Option<Vec<String>> {
        self.exclusion
    }

    /// The body.
    pub fn body(&self) -> (r: &T)
        ensures
            *r == self.data(),
    {
        &self.data
    }

    /// The names to keep, if any were given.
    pub fn included(&self) -> (r: &Option<Vec<String>>)
        ensures
            *r == self.inclusion(),
    {
        &self.inclusion
    }

    /// The names to drop, if any were given.
    pub fn excluded(&self) -> (r: &Option<Vec<String>>)
        ensures
            *r == self.exclusion(),
    {
        &self.exclusion
    }

    /// Adds `fields` to the names to keep.
    pub fn include_fields(self, fields: Vec<&str>) -> (r: Self)
        ensures
            r.data() == self.data(),
            r.exclusion() == self.exclusion(),
            r.inclusion() matches Some(v) && name_set(v@) == extended(self.inclusion(), fields@),
    {
        let Projected { data, inclusion, exclusion } = self;
        let names = extend_names(inclusion, fields);
        Projected { data, inclusion: Some(names), exclusion }
    }

    /// Adds `fields` to the names to drop.
    pub fn exclude(self, fields: Vec<&str>) -> (r: Self)
        ensures
            r.data() == self.data(),
            r.inclusion() == self.inclusion(),
            r.exclusion() matches Some(v) && name_set(v@) == extended(self.exclusion(), fields@),
    {
        let Projected { data, inclusion, exclusion } = self;
        let names = extend_names(exclusion, fields);
        Projected { data, inclusion, exclusion: Some(names) }
    }

    /// The response for the body serialized as `serialized`: the body
    /// projected, sent as JSON with status 200; or, where it could not be
    /// serialized, 500 with the plain-text message `Serialization error: `
    /// and the error.
    pub fn render(&self, serialized: Result<JsonValue, String>) -> (r: Result<JsonValue, (u16, String)>)
        ensures
            match serialized {
                Ok(v) => r matches Ok(p) && p@ == project(
                    v@,
                    opt_name_set(self.inclusion()),
                    opt_name_set(self.exclusion()),
                ),
                Err(e) => r matches Err((code, m)) && code == 500 && m@ == "Serialization error: "@ + e@,
            },
    {
        match serialized {
            Ok(mut v) => {
                filter_value(&mut v, &self.inclusion, &self.exclusion);
                Ok(v)
            },
            Err(e) => Err((500, crate::text::concat("Serialization error: ", e.as_str()))),
        }
    }
}

/// Every object inside `v`, at any depth, holds only members that `keeps`
/// admits.
pub open spec fn conforms(v: Json, inc: Option<Set<Seq<char>>>, exc: Option<Set<Seq<char>>>) -> bool
    decreases v,
{
    match v {
        Json::Array(items) => forall|i: int|
            0 <= i < items.len() ==> conforms(#[trigger] items[i], inc, exc),
        Json::Object(es) => forall|i: int|
            0 <= i < es.len() ==> keeps(inc, exc, es[i].0) && conforms(#[trigger] es[i].1, inc, exc),
        _ => true,
    }
}

proof fn lemma_items_conform(items: Seq<Json>, inc: Option<Set<Seq<char>>>, exc: Option<Set<Seq<char>>>)
    ensures
        project_items(items, inc, exc).len() == items.len(),
        forall|i: int| 0 <= i < items.len() ==> #[trigger] project_items(items, inc, exc)[i] == project(items[i], inc, exc),
        forall|i: int| 0 <= i < items.len() ==> conforms(#[trigger] project_items(items, inc, exc)[i], inc, exc),
    decreases items,
{
    if items.len() > 0 {
        let front = items.subrange(0, items.len() - 1);
        lemma_items_conform(front, inc, exc);
        lemma_project_conforms(items[items.len() - 1], inc, exc);
        assert forall|i: int| 0 <= i < items.len() implies #[trigger] project_items(items, inc, exc)[i] == project(items[i], inc, exc) by {
            if i < items.len() - 1 {
                assert(front[i] == items[i]);
            }
        }
    }
}

proof fn lemma_entries_conform(es: Seq<(Seq<char>, Json)>, inc: Option<Set<Seq<char>>>, exc: Option<Set<Seq<char>>>)
    ensures
        forall|i: int| 0 <= i < project_entries(es, inc, exc).len() ==>
            keeps(inc, exc, #[trigger] project_entries(es, inc, exc)[i].0)
            && conforms(project_entries(es, inc, exc)[i].1, inc, exc),
    decreases es,
{
    if es.len() > 0 {
        let front = es.subrange(0, es.len() - 1);
        lemma_entries_conform(front, inc, exc);
        lemma_project_conforms(es[es.len() - 1].1, inc, exc);
        let pf = project_entries(front, inc, exc);
        let pe = project_entries(es, inc, exc);
        assert forall|i: int| 0 <= i < pe.len() implies keeps(inc, exc, #[trigger] pe[i].0)
            && conforms(pe[i].1, inc, exc) by {
            if i < pf.len() {
                assert(pe[i] == pf[i]);
            }
        }
    }
}

/// Projection leaves no member that the inclusion and exclusion lists
/// forbid, in any object at any depth.
pub proof fn lemma_project_conforms(v: Json, inc: Option<Set<Seq<char>>>, exc: Option<Set<Seq<char>>>)
    ensures
        conforms(project(v, inc, exc), inc, exc),
    decreases v,
{
    match v {
        Json::Object(es) => {
            lemma_entries_conform(es, inc, exc);
            let pe = project_entries(es, inc, exc);
            assert forall|i: int| 0 <= i < pe.len() implies keeps(inc, exc, pe[i].0) && #[trigger] conforms(pe[i].1, inc, exc) by {
                assert(keeps(inc, exc, pe[i].0));
            }
        },
        Json::Array(items) => {
            lemma_items_conform(items, inc, exc);
        },
        _ => {},
    }
}

proof fn lemma_items_idempotent(items: Seq<Json>, inc: Option<Set<Seq<char>>>, exc: Option<Set<Seq<char>>>)
    ensures
        project_items(project_items(items, inc, exc), inc, exc) == project_items(items, inc, exc),
    decreases items,
{
    if items.len() > 0 {
        let front = items.subrange(0, items.len() - 1);
        lemma_items_idempotent(front, inc, exc);
        lemma_project_idempotent(items[items.len() - 1], inc, exc);
        let pf = project_items(front, inc, exc);
        let pi = project_items(items, inc, exc);
        assert(pi.subrange(0, pi.len() - 1) =~= pf);
    }
}

proof fn lemma_entries_idempotent(es: Seq<(Seq<char>, Json)>, inc: Option<Set<Seq<char>>>, exc: Option<Set<Seq<char>>>)
    ensures
        project_entries(project_entries(es, inc, exc), inc, exc) == project_entries(es, inc, exc),
    decreases es,
{
    if es.len() > 0 {
        let front = es.subrange(0, es.len() - 1);
        let last = es[es.len() - 1];
        lemma_entries_idempotent(front, inc, exc);
        lemma_project_idempotent(last.1, inc, exc);
        let pf = project_entries(front, inc, exc);
        let pe = project_entries(es, inc, exc);
        if keeps(inc, exc, last.0) {
            assert(pe.subrange(0, pe.len() - 1) =~= pf);
        }
    }
}

/// Projecting a projected value changes nothing.
pub proof fn lemma_project_idempotent(v: Json, inc: Option<Set<Seq<char>>>, exc: Option<Set<Seq<char>>>)
    ensures
        project(project(v, inc, exc), inc, exc) == project(v, inc, exc),
    decreases v,
{
    match v {
        Json::Object(es) => lemma_entries_idempotent(es, inc, exc),
        Json::Array(items) => lemma_items_idempotent(items, inc, exc),
        _ => {},
    }
}

proof fn lemma_items_well_formed(items: Seq<Json>, inc: Option<Set<Seq<char>>>, exc: Option<Set<Seq<char>>>)
    requires
        forall|i: int| 0 <= i < items.len() ==> #[trigger] well_formed(items[i]),
    ensures
        forall|i: int| 0 <= i < project_items(items, inc, exc).len() ==> #[trigger] well_formed(project_items(items, inc, exc)[i]),
    decreases items,
{
    lemma_items_conform(items, inc, exc);
    assert forall|i: int| 0 <= i < project_items(items, inc, exc).len() implies #[trigger] well_formed(project_items(items, inc, exc)[i]) by {
        lemma_project_well_formed(items[i], inc, exc);
    }
}

proof fn lemma_entries_well_formed(es: Seq<(Seq<char>, Json)>, inc: Option<Set<Seq<char>>>, exc: Option<Set<Seq<char>>>)
    requires
        keys_distinct(es),
        forall|i: int| 0 <= i < es.len() ==> #[trigger] well_formed(es[i].1),
    ensures
        keys_distinct(project_entries(es, inc, exc)),
        forall|i: int| 0 <= i < project_entries(es, inc, exc).len() ==> #[trigger] well_formed(project_entries(es, inc, exc)[i].1),
        forall|i: int| 0 <= i < project_entries(es, inc, exc).len() ==> exists|j: int| 0 <= j < es.len() && es[j].0 == #[trigger] project_entries(es, inc, exc)[i].0,
    decreases es,
{
    if es.len() > 0 {
        let front = es.subrange(0, es.len() - 1);
        let last = es[es.len() - 1];
        assert forall|i: int| 0 <= i < front.len() implies #[trigger] well_formed(front[i].1) by {
            assert(front[i] == es[i]);
        }
        lemma_entries_well_formed(front, inc, exc);
        lemma_project_well_formed(last.1, inc, exc);
        let pf = project_entries(front, inc, exc);
        let pe = project_entries(es, inc, exc);
        if keeps(inc, exc, last.0) {
            assert forall|i: int| 0 <= i < pf.len() implies pf[i].0 != last.0 by {
                let j = choose|j: int| 0 <= j < front.len() && front[j].0 == #[trigger] pf[i].0;
                assert(front[j] == es[j]);
            }
            assert forall|i: int| 0 <= i < pe.len() implies exists|j: int| 0 <= j < es.len() && es[j].0 == #[trigger] pe[i].0 by {
                if i < pf.len() {
                    assert(pe[i] == pf[i]);
                    let j = choose|j: int| 0 <= j < front.len() && front[j].0 == #[trigger] pf[i].0;
                    assert(front[j] == es[j]);
                } else {
                    assert(es[es.len() - 1].0 == pe[i].0);
                }
            }
            assert forall|i: int| 0 <= i < pe.len() implies #[trigger] well_formed(pe[i].1) by {
                if i < pf.len() {
                    assert(pe[i] == pf[i]);
                }
            }
        } else {
            assert(pe == pf);
            assert forall|i: int| 0 <= i < pe.len() implies #[trigger] well_formed(pe[i].1) by {
                assert(pe[i] == pf[i]);
            }
            assert forall|i: int| 0 <= i < pe.len() implies exists|j: int| 0 <= j < es.len() && es[j].0 == #[trigger] pe[i].0 by {
                let j = choose|j: int| 0 <= j < front.len() && front[j].0 == #[trigger] pf[i].0;
                assert(front[j] == es[j]);
            }
        }
    }
}

/// Projection keeps every object's keys distinct.
pub proof fn lemma_project_well_formed(v: Json, inc: Option<Set<Seq<char>>>, exc: Option<Set<Seq<char>>>)
    requires
        well_formed(v),
    ensures
        well_formed(project(v, inc, exc)),
    decreases v,
{
    match v {
        Json::Object(es) => {
            lemma_entries_well_formed(es, inc, exc);
            let pe = project_entries(es, inc, exc);
            assert forall|i: int| 0 <= i < pe.len() implies well_formed(#[trigger] pe[i].1) by {}
        },
        Json::Array(items) => {
            lemma_items_well_formed(items, inc, exc);
            let pi = project_items(items, inc, exc);
            assert forall|i: int| 0 <= i < pi.len() implies well_formed(#[trigger] pi[i]) by {}
        },
        _ => {},
    }
}


proof fn lemma_entries_complete(es: Seq<(Seq<char>, Json)>, inc: Option<Set<Seq<char>>>, exc: Option<Set<Seq<char>>>)
    ensures
        forall|i: int| 0 <= i < es.len() && keeps(inc, exc, #[trigger] es[i].0) ==> exists|j: int|
            0 <= j < project_entries(es, inc, exc).len()
            && project_entries(es, inc, exc)[j] == (es[i].0, project(es[i].1, inc, exc)),
    decreases es,
{
    if es.len() > 0 {
        let front = es.subrange(0, es.len() - 1);
        let last = es[es.len() - 1];
        lemma_entries_complete(front, inc, exc);
        let pf = project_entries(front, inc, exc);
        let pe = project_entries(es, inc, exc);
        assert forall|i: int| 0 <= i < es.len() && keeps(inc, exc, #[trigger] es[i].0) implies exists|j: int|
            0 <= j < pe.len() && pe[j] == (es[i].0, project(es[i].1, inc, exc)) by {
            if i < es.len() - 1 {
                assert(front[i] == es[i]);
                assert(keeps(inc, exc, front[i].0));
                let j = choose|j: int| 0 <= j < pf.len() && pf[j] == (front[i].0, project(front[i].1, inc, exc));
                assert(pe[j] == pf[j]);
            } else {
                assert(pe[pe.len() - 1] == (last.0, project(last.1, inc, exc)));
            }
        }
    }
}

/// Projection drops no member that the inclusion and exclusion lists
/// admit, whatever its value: each such member of an object stays, under
/// its key, with its value projected in turn.
pub proof fn lemma_project_keeps_admitted(es: Seq<(Seq<char>, Json)>, inc: Option<Set<Seq<char>>>, exc: Option<Set<Seq<char>>>)
    ensures
        project(Json::Object(es), inc, exc) is Object,
        forall|i: int| 0 <= i < es.len() && keeps(inc, exc, #[trigger] es[i].0) ==> exists|j: int|
            0 <= j < project(Json::Object(es), inc, exc)->Object_0.len()
            && project(Json::Object(es), inc, exc)->Object_0[j] == (es[i].0, project(es[i].1, inc, exc)),
{
    lemma_entries_complete(es, inc, exc);
    let v = project(Json::Object(es), inc, exc);
    let pe = project_entries(es, inc, exc);
    assert(v == Json::Object(pe));
    assert forall|i: int| 0 <= i < es.len() && keeps(inc, exc, #[trigger] es[i].0) implies exists|j: int|
        0 <= j < v->Object_0.len() && v->Object_0[j] == (es[i].0, project(es[i].1, inc, exc)) by {
        let j = choose|j: int| 0 <= j < pe.len() && pe[j] == (es[i].0, project(es[i].1, inc, exc));
        assert(v->Object_0[j] == pe[j]);
    }
}

/// Projection keeps every element of an array, in order, each projected
/// in turn.
pub proof fn lemma_project_arrays_elementwise(items: Seq<Json>, inc: Option<Set<Seq<char>>>, exc: Option<Set<Seq<char>>>)
    ensures
        project(Json::Array(items), inc, exc) is Array,
        project(Json::Array(items), inc, exc)->Array_0.len() == items.len(),
        forall|i: int| 0 <= i < items.len() ==>
            #[trigger] project(Json::Array(items), inc, exc)->Array_0[i] == project(items[i], inc, exc),
{
    lemma_items_conform(items, inc, exc);
    assert(project(Json::Array(items), inc, exc) == Json::Array(project_items(items, inc, exc)));
}

proof fn lemma_entries_filtered(es: Seq<(Seq<char>, Json)>, inc: Option<Set<Seq<char>>>, exc: Option<Set<Seq<char>>>)
    ensures
        project_entries(es, inc, exc) == es.filter(|m: (Seq<char>, Json)| keeps(inc, exc, m.0)).map_values(
            |m: (Seq<char>, Json)| (m.0, project(m.1, inc, exc)),
        ),
    decreases es.len(),
{
    let pred = |m: (Seq<char>, Json)| keeps(inc, exc, m.0);
    let f = |m: (Seq<char>, Json)| (m.0, project(m.1, inc, exc));
    reveal(Seq::filter);
    if es.len() > 0 {
        let front = es.subrange(0, es.len() - 1);
        assert(front =~= es.drop_last());
        lemma_entries_filtered(front, inc, exc);
        let ff = front.filter(pred);
        assert(es.filter(pred) == if pred(es.last()) { ff.push(es.last()) } else { ff });
        if pred(es.last()) {
            assert(ff.push(es.last()).map_values(f) =~= ff.map_values(f).push(f(es.last())));
        }
    } else {
        assert(es.filter(pred).map_values(f) =~= Seq::<(Seq<char>, Json)>::empty());
    }
}

/// The projection of an object holds exactly the members that the
/// inclusion and exclusion lists admit, in their order, each value
/// projected in turn.
pub proof fn lemma_project_object_filters(es: Seq<(Seq<char>, Json)>, inc: Option<Set<Seq<char>>>, exc: Option<Set<Seq<char>>>)
    ensures
        project(Json::Object(es), inc, exc) == Json::Object(
            es.filter(|m: (Seq<char>, Json)| keeps(inc, exc, m.0)).map_values(
                |m: (Seq<char>, Json)| (m.0, project(m.1, inc, exc)),
            ),
        ),
{
    lemma_entries_filtered(es, inc, exc);
}

} // verus!
