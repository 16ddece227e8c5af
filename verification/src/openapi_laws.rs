//! What every OpenAPI document built here satisfies.

use vstd::prelude::*;
use crate::json::{
    Json, entries_insert, has_key, key_position, keys_distinct, lookup, lemma_key_position,
    lemma_entries_insert,
};
use crate::openapi::{
    replace_all, fix_refs, definitions_prefix, components_prefix, rewrite, rewrite_items,
    rewrite_entries, openapi_document, build_paths, add_route, paths_ok, raw_document, obj1,
    operation,
};
use crate::routing::{RouteInfo, Method};

verus! {

/// `pat` occurs in `s`.
pub open spec fn occurs(s: Seq<char>, pat: Seq<char>) -> bool {
    exists|i: int| 0 <= i && i + pat.len() <= s.len() && #[trigger] s.subrange(i, i + pat.len()) == pat
}

/// No text and no key in `v`, at any depth, holds a reference into
/// `#/definitions/`.
pub open spec fn refs_fixed(v: Json) -> bool
    decreases v,
{
    match v {
        Json::Str(s) => !occurs(s, definitions_prefix()),
        Json::Array(items) => forall|i: int| 0 <= i < items.len() ==> refs_fixed(#[trigger] items[i]),
        Json::Object(es) => forall|i: int|
            0 <= i < es.len() ==> !occurs(#[trigger] es[i].0, definitions_prefix()) && refs_fixed(es[i].1),
        _ => true,
    }
}

proof fn lemma_prefix_facts()
    ensures
        definitions_prefix().len() == 14,
        components_prefix().len() == 21,
        definitions_prefix()[0] == '#',
        components_prefix()[0] == '#',
        forall|i: int| 1 <= i < 14 ==> definitions_prefix()[i] != '#',
        forall|i: int| 1 <= i < 21 ==> components_prefix()[i] != '#',
        definitions_prefix()[2] == 'd',
        components_prefix()[2] == 'c',
{
    reveal_strlit("#/definitions/");
    reveal_strlit("#/components/schemas/");
}

/// If the replaced text starts with a word free of '#', so does the text.
proof fn lemma_prefix_kept(t: Seq<char>, w: Seq<char>)
    requires
        forall|i: int| 0 <= i < w.len() ==> w[i] != '#',
        replace_all(t, definitions_prefix(), components_prefix()).len() >= w.len(),
        replace_all(t, definitions_prefix(), components_prefix()).take(w.len() as int) == w,
    ensures
        t.len() >= w.len(),
        t.take(w.len() as int) == w,
    decreases w.len(),
{
    lemma_prefix_facts();
    let pat = definitions_prefix();
    let rep = components_prefix();
    let r = replace_all(t, pat, rep);
    if w.len() > 0 {
        if t.len() == 0 {
            assert(r.len() == 0);
        } else if t.len() >= pat.len() && t.take(pat.len() as int) == pat {
            assert(r[0] == rep[0]);
            assert(r.take(w.len() as int)[0] == w[0]);
        } else {
            let t1 = t.skip(1);
            let r1 = replace_all(t1, pat, rep);
            assert(r =~= seq![t[0]] + r1);
            let w1 = w.skip(1);
            assert(r1.take(w1.len() as int) =~= r.take(w.len() as int).skip(1));
            lemma_prefix_kept(t1, w1);
            assert(r.take(w.len() as int)[0] == w[0]);
            assert(t.take(w.len() as int) =~= seq![t[0]] + t1.take(w1.len() as int));
        }
    }
}

/// Once the definition references are pointed at the components, none is
/// left.
pub proof fn lemma_fix_refs_leaves_none(s: Seq<char>)
    ensures
        !occurs(fix_refs(s), definitions_prefix()),
    decreases s.len(),
{
    lemma_prefix_facts();
    let pat = definitions_prefix();
    let rep = components_prefix();
    let r = fix_refs(s);
    if s.len() == 0 {
        assert(r.len() == 0);
    } else if s.len() >= pat.len() && s.take(pat.len() as int) == pat {
        let s1 = s.skip(pat.len() as int);
        let r1 = fix_refs(s1);
        lemma_fix_refs_leaves_none(s1);
        assert(r =~= rep + r1);
        if occurs(r, pat) {
            let i = choose|i: int| 0 <= i && i + pat.len() <= r.len() && #[trigger] r.subrange(i, i + pat.len()) == pat;
            if i == 0 {
                assert(r.subrange(0, 14)[2] == rep[2]);
            } else if i < rep.len() {
                assert(r.subrange(i, i + pat.len())[0] == r[i]);
                assert(r[i] == rep[i]);
            } else {
                assert(r1.subrange(i - rep.len(), i - rep.len() + pat.len()) =~= r.subrange(i, i + pat.len()));
            }
        }
    } else {
        let s1 = s.skip(1);
        let r1 = fix_refs(s1);
        lemma_fix_refs_leaves_none(s1);
        assert(r =~= seq![s[0]] + r1);
        if occurs(r, pat) {
            let i = choose|i: int| 0 <= i && i + pat.len() <= r.len() && #[trigger] r.subrange(i, i + pat.len()) == pat;
            if i == 0 {
                let w = pat.skip(1);
                assert(r1.take(w.len() as int) =~= r.subrange(0, pat.len() as int).skip(1));
                lemma_prefix_kept(s1, w);
                assert(s[0] == r[0]);
                assert(r.subrange(0, pat.len() as int)[0] == pat[0]);
                assert(s.take(pat.len() as int) =~= seq![s[0]] + s1.take(w.len() as int));
                assert(pat =~= seq![pat[0]] + w);
            } else {
                assert(r1.subrange(i - 1, i - 1 + pat.len()) =~= r.subrange(i, i + pat.len()));
            }
        }
    }
}

proof fn lemma_items_fixed(items: Seq<Json>)
    ensures
        forall|i: int| 0 <= i < rewrite_items(items).len() ==> refs_fixed(#[trigger] rewrite_items(items)[i]),
    decreases items,
{
    if items.len() > 0 {
        let front = items.subrange(0, items.len() - 1);
        lemma_items_fixed(front);
        lemma_rewrite_fixes_refs(items[items.len() - 1]);
        let rf = rewrite_items(front);
        let ri = rewrite_items(items);
        assert forall|i: int| 0 <= i < ri.len() implies refs_fixed(#[trigger] ri[i]) by {
            if i < rf.len() {
                assert(ri[i] == rf[i]);
            }
        }
    }
}

proof fn lemma_entries_fixed(es: Seq<(Seq<char>, Json)>)
    ensures
        forall|i: int| 0 <= i < rewrite_entries(es).len() ==> !occurs(#[trigger] rewrite_entries(es)[i].0, definitions_prefix())
            && refs_fixed(rewrite_entries(es)[i].1),
    decreases es,
{
    if es.len() > 0 {
        let front = es.subrange(0, es.len() - 1);
        let last = es[es.len() - 1];
        lemma_entries_fixed(front);
        lemma_rewrite_fixes_refs(last.1);
        lemma_fix_refs_leaves_none(last.0);
        let acc = rewrite_entries(front);
        let k = fix_refs(last.0);
        let v = rewrite(last.1);
        let out = rewrite_entries(es);
        assert(out == entries_insert(acc, k, v));
        assert forall|i: int| 0 <= i < out.len() implies !occurs(#[trigger] out[i].0, definitions_prefix())
            && refs_fixed(out[i].1) by {
            if has_key(acc, k) {
                let p = key_position(acc, k);
                if i != p {
                    assert(out[i] == acc[i]);
                }
            } else {
                if i < acc.len() {
                    assert(out[i] == acc[i]);
                }
            }
        }
    }
}

/// After rewriting, no text and no key at any depth refers into
/// `#/definitions/`.
pub proof fn lemma_rewrite_fixes_refs(v: Json)
    ensures
        refs_fixed(rewrite(v)),
    decreases v,
{
    match v {
        Json::Str(s) => lemma_fix_refs_leaves_none(s),
        Json::Array(items) => {
            lemma_items_fixed(items);
            let ri = rewrite_items(items);
            assert forall|i: int| 0 <= i < ri.len() implies refs_fixed(#[trigger] ri[i]) by {}
        },
        Json::Object(es) => {
            lemma_entries_fixed(es);
            let re = rewrite_entries(es);
            assert forall|i: int| 0 <= i < re.len() implies !occurs(#[trigger] re[i].0, definitions_prefix())
                && refs_fixed(re[i].1) by {}
        },
        _ => {},
    }
}

/// The document of any application refers nowhere into
/// `#/definitions/`: every such reference was pointed at
/// `#/components/schemas/`.
pub proof fn lemma_document_refs_fixed(title: Seq<char>, version: Seq<char>, routes: Seq<RouteInfo>)
    ensures
        refs_fixed(openapi_document(title, version, routes)),
{
    let pc = build_paths(routes);
    lemma_rewrite_fixes_refs(raw_document(title, version, pc.0, pc.1));
}

/// `s` holds no '#'.
pub open spec fn no_hash(s: Seq<char>) -> bool {
    forall|i: int| 0 <= i < s.len() ==> s[i] != '#'
}

/// Texts without '#' hold no reference to rewrite.
pub proof fn lemma_no_hash_fixed(s: Seq<char>)
    requires
        no_hash(s),
    ensures
        fix_refs(s) == s,
    decreases s.len(),
{
    lemma_prefix_facts();
    let pat = definitions_prefix();
    if s.len() > 0 {
        if s.len() >= pat.len() {
            assert(s.take(pat.len() as int)[0] == s[0]);
        }
        let s1 = s.skip(1);
        lemma_no_hash_fixed(s1);
        assert(s =~= seq![s[0]] + s1);
    }
}

/// The members with each value rewritten and each key kept.
pub open spec fn map_rewrite(es: Seq<(Seq<char>, Json)>) -> Seq<(Seq<char>, Json)> {
    es.map_values(|e: (Seq<char>, Json)| (e.0, rewrite(e.1)))
}

/// Objects whose keys are distinct and free of '#' keep their keys when
/// rewritten; only the values are rewritten.
pub proof fn lemma_rewrite_plain_keys(es: Seq<(Seq<char>, Json)>)
    requires
        keys_distinct(es),
        forall|i: int| 0 <= i < es.len() ==> no_hash(#[trigger] es[i].0),
    ensures
        rewrite_entries(es) == map_rewrite(es),
    decreases es,
{
    if es.len() > 0 {
        let front = es.subrange(0, es.len() - 1);
        let last = es[es.len() - 1];
        assert forall|i: int| 0 <= i < front.len() implies no_hash(#[trigger] front[i].0) by {
            assert(front[i] == es[i]);
        }
        lemma_rewrite_plain_keys(front);
        lemma_no_hash_fixed(last.0);
        let acc = map_rewrite(front);
        assert(!has_key(acc, last.0)) by {
            if has_key(acc, last.0) {
                let i = choose|i: int| 0 <= i < acc.len() && acc[i].0 == last.0;
                assert(acc[i].0 == es[i].0);
            }
        }
        assert(rewrite_entries(es) =~= map_rewrite(es));
    }
}

/// `k` is the lower-case name of some method.
pub open spec fn is_method_name(k: Seq<char>) -> bool {
    exists|m: Method| k == m.lower_name()
}

proof fn lemma_method_names_plain(m: Method)
    ensures
        no_hash(m.lower_name()),
{
    reveal_strlit("get");
    reveal_strlit("post");
    reveal_strlit("put");
    reveal_strlit("delete");
    reveal_strlit("patch");
}

/// Every route's path is a key of the paths object, and its path item
/// documents the route's method.
pub open spec fn route_documented(paths: Seq<(Seq<char>, Json)>, path: Seq<char>, method: Seq<char>) -> bool {
    &&& has_key(paths, path)
    &&& paths[key_position(paths, path)].1 matches Json::Object(ms) && has_key(ms, method)
}

/// What holds of the paths object built for a list of routes.
pub open spec fn paths_invariant(paths: Seq<(Seq<char>, Json)>, routes: Seq<RouteInfo>) -> bool {
    &&& paths_ok(paths)
    &&& forall|i: int| 0 <= i < routes.len() ==> route_documented(paths, (#[trigger] routes[i]).path, routes[i].method.lower_name())
    &&& forall|j: int| 0 <= j < paths.len() ==> exists|i: int| 0 <= i < routes.len() && (#[trigger] paths[j]).0 == routes[i].path
    &&& forall|j: int| 0 <= j < paths.len() ==> ((#[trigger] paths[j]).1 matches Json::Object(ms) && forall|q: int| 0 <= q < ms.len() ==> is_method_name(#[trigger] ms[q].0))
}

proof fn lemma_build_paths(routes: Seq<RouteInfo>)
    ensures
        paths_invariant(build_paths(routes).0, routes),
    decreases routes.len(),
{
    if routes.len() > 0 {
        let front = routes.drop_last();
        lemma_build_paths(front);
        let prev = build_paths(front);
        let r = routes.last();
        let oc = operation(r, prev.1);
        let p = r.path;
        let m = r.method.lower_name();
        let newp = add_route(prev.0, p, m, oc.0);
        assert(build_paths(routes).0 == newp);
        let pp = prev.0;
        if has_key(pp, p) {
            let pos = key_position(pp, p);
            let ms = pp[pos].1->Object_0;
            lemma_entries_insert(ms, m, oc.0);
            let x = Json::Object(entries_insert(ms, m, oc.0));
            assert(newp == entries_insert(pp, p, x));
            lemma_entries_insert(pp, p, x);
            assert(newp == pp.update(pos, (p, x)));
            assert(paths_ok(newp)) by {
                assert forall|j: int| 0 <= j < newp.len() implies ((#[trigger] newp[j]).1 matches Json::Object(ms2) && keys_distinct(ms2)) by {
                    if j != pos {
                        assert(newp[j] == pp[j]);
                    }
                }
            }
            assert forall|i: int| 0 <= i < routes.len() implies route_documented(newp, (#[trigger] routes[i]).path, routes[i].method.lower_name()) by {
                let q = routes[i].path;
                let mi = routes[i].method.lower_name();
                if i < front.len() {
                    assert(front[i] == routes[i]);
                    assert(route_documented(pp, q, mi));
                    let qp = key_position(pp, q);
                    lemma_key_position(pp, qp);
                    if q == p {
                        lemma_key_position(newp, pos);
                    } else {
                        assert(newp[qp] == pp[qp]);
                        lemma_key_position(newp, qp);
                    }
                } else {
                    lemma_key_position(newp, pos);
                }
            }
            assert forall|j: int| 0 <= j < newp.len() implies exists|i: int| 0 <= i < routes.len() && (#[trigger] newp[j]).0 == routes[i].path by {
                if j == pos {
                    assert(newp[j].0 == routes[routes.len() - 1].path);
                } else {
                    assert(newp[j] == pp[j]);
                    let i = choose|i: int| 0 <= i < front.len() && pp[j].0 == front[i].path;
                    assert(front[i] == routes[i]);
                }
            }
            assert forall|j: int| 0 <= j < newp.len() implies ((#[trigger] newp[j]).1 matches Json::Object(ms2) && forall|q: int| 0 <= q < ms2.len() ==> is_method_name(#[trigger] ms2[q].0)) by {
                if j == pos {
                    let ms2 = entries_insert(ms, m, oc.0);
                    assert forall|q: int| 0 <= q < ms2.len() implies is_method_name(#[trigger] ms2[q].0) by {
                        if ms2[q] != (m, oc.0) {
                            assert(ms2[q] == ms[q]);
                        }
                    }
                } else {
                    assert(newp[j] == pp[j]);
                }
            }
        } else {
            let x = obj1(m, oc.0);
            lemma_entries_insert(pp, p, x);
            assert(newp == pp.push((p, x)));
            assert(paths_ok(newp)) by {
                assert(keys_distinct(seq![(m, oc.0)]));
                assert forall|j: int| 0 <= j < newp.len() implies ((#[trigger] newp[j]).1 matches Json::Object(ms2) && keys_distinct(ms2)) by {
                    if j < pp.len() {
                        assert(newp[j] == pp[j]);
                    }
                }
            }
            assert forall|i: int| 0 <= i < routes.len() implies route_documented(newp, (#[trigger] routes[i]).path, routes[i].method.lower_name()) by {
                let q = routes[i].path;
                let mi = routes[i].method.lower_name();
                if i < front.len() {
                    assert(front[i] == routes[i]);
                    assert(route_documented(pp, q, mi));
                    let qp = key_position(pp, q);
                    lemma_key_position(pp, qp);
                    assert(newp[qp] == pp[qp]);
                    lemma_key_position(newp, qp);
                } else {
                    lemma_key_position(newp, pp.len() as int);
                    assert(seq![(m, oc.0)][0].0 == m);
                }
            }
            assert forall|j: int| 0 <= j < newp.len() implies exists|i: int| 0 <= i < routes.len() && (#[trigger] newp[j]).0 == routes[i].path by {
                if j == pp.len() {
                    assert(newp[j].0 == routes[routes.len() - 1].path);
                } else {
                    assert(newp[j] == pp[j]);
                    let i = choose|i: int| 0 <= i < front.len() && pp[j].0 == front[i].path;
                    assert(front[i] == routes[i]);
                }
            }
            assert forall|j: int| 0 <= j < newp.len() implies ((#[trigger] newp[j]).1 matches Json::Object(ms2) && forall|q: int| 0 <= q < ms2.len() ==> is_method_name(#[trigger] ms2[q].0)) by {
                if j < pp.len() {
                    assert(newp[j] == pp[j]);
                } else {
                    let ms2 = seq![(m, oc.0)];
                    assert forall|q: int| 0 <= q < ms2.len() implies is_method_name(#[trigger] ms2[q].0) by {
                        assert(ms2[q].0 == r.method.lower_name());
                    }
                }
            }
        }
    }
}

/// `doc` documents `method` under `path`.
pub open spec fn documents(doc: Json, path: Seq<char>, method: Seq<char>) -> bool {
    &&& doc matches Json::Object(top)
    &&& lookup(top, "paths"@) matches Some(Json::Object(ps))
    &&& lookup(ps, path) matches Some(Json::Object(ms))
    &&& has_key(ms, method)
}

/// Every route appears in the document: under its path, an operation for
/// its method. (Holds when no route path holds a '#'; a path that does can
/// be rewritten onto another one.)
pub proof fn lemma_every_route_documented(
    title: Seq<char>,
    version: Seq<char>,
    routes: Seq<RouteInfo>,
    i: int,
)
    requires
        0 <= i < routes.len(),
        forall|j: int| 0 <= j < routes.len() ==> no_hash(#[trigger] routes[j].path),
    ensures
        documents(openapi_document(title, version, routes), routes[i].path, routes[i].method.lower_name()),
{
    reveal_strlit("openapi");
    reveal_strlit("info");
    reveal_strlit("paths");
    reveal_strlit("components");
    lemma_build_paths(routes);
    let pc = build_paths(routes);
    let paths = pc.0;
    let raw = raw_document(title, version, paths, pc.1);
    let top = raw->Object_0;
    assert("openapi"@.len() == 7 && "info"@.len() == 4 && "paths"@.len() == 5 && "components"@.len() == 10);
    assert(keys_distinct(top)) by {
        assert forall|a: int, b: int| 0 <= a < b < top.len() implies top[a].0 != top[b].0 by {
            assert(top[a].0.len() != top[b].0.len());
        }
    }
    assert forall|j: int| 0 <= j < top.len() implies no_hash(#[trigger] top[j].0) by {}
    lemma_rewrite_plain_keys(top);
    let rtop = map_rewrite(top);
    assert(openapi_document(title, version, routes) == Json::Object(rtop));
    assert(rtop[2] == ("paths"@, rewrite(Json::Object(paths))));
    lemma_key_position(rtop, 2);
    assert forall|j: int| 0 <= j < paths.len() implies no_hash(#[trigger] paths[j].0) by {
        let q = choose|q: int| 0 <= q < routes.len() && paths[j].0 == routes[q].path;
    }
    lemma_rewrite_plain_keys(paths);
    let rps = map_rewrite(paths);
    let path = routes[i].path;
    let mname = routes[i].method.lower_name();
    let pos = key_position(paths, path);
    lemma_key_position(paths, pos);
    lemma_key_position(rps, pos);
    let ms = paths[pos].1->Object_0;
    assert forall|q: int| 0 <= q < ms.len() implies no_hash(#[trigger] ms[q].0) by {
        assert(is_method_name(ms[q].0));
        let mm = choose|mm: Method| ms[q].0 == mm.lower_name();
        lemma_method_names_plain(mm);
    }
    lemma_rewrite_plain_keys(ms);
    let rms = map_rewrite(ms);
    let mq = key_position(ms, mname);
    lemma_key_position(ms, mq);
    assert(rms[mq].0 == mname);
}

} // verus!
