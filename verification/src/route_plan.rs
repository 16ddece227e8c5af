//! What the route attributes (`#[get(..)]` and the others) derive from a
//! handler's signature: its state type, the schemas documented for its
//! request, query and response, and how the route is registered.

use vstd::prelude::*;
use crate::text::concat;

verus! {

broadcast use vstd::string::group_string_axioms;

/// The outer shape of a type written as a path: the name of its last
/// segment and, where that segment's first generic argument is a type, that
/// type as written.
#[derive(Debug)]
pub struct TypeShape {
    pub name: String,
    pub first_type_arg: Option<String>,
}

/// The view of a type shape: its name and first type argument.
pub open spec fn shape_view(t: TypeShape) -> (Seq<char>, Option<Seq<char>>) {
    (t.name@, match t.first_type_arg {
        Some(a) => Some(a@),
        None => None,
    })
}

/// The extractors and wrappers whose inner type documents the route.
pub open spec fn is_extractor_name(n: Seq<char>) -> bool {
    n == "Json"@ || n == "ValidatedJson"@ || n == "Path"@ || n == "Query"@
}

/// The extractor a type is, with its inner type: `Json`, `ValidatedJson`,
/// `Path` or `Query` with a type argument.
pub open spec fn extractor_of(t: Option<(Seq<char>, Option<Seq<char>>)>) -> Option<(Seq<char>, Seq<char>)> {
    match t {
        Some((n, Some(inner))) => if is_extractor_name(n) {
            Some((n, inner))
        } else {
            None
        },
        _ => None,
    }
}

/// The views of a handler's parameters: `None` for a parameter whose type
/// is not a path.
pub open spec fn params_view(ps: Seq<Option<TypeShape>>) -> Seq<Option<(Seq<char>, Option<Seq<char>>)>> {
    ps.map_values(|p: Option<TypeShape>| match p {
        Some(t) => Some(shape_view(t)),
        None => None,
    })
}

/// The state type of a parameter of the form `State<T>`.
pub open spec fn state_of(p: Option<(Seq<char>, Option<Seq<char>>)>) -> Option<Seq<char>> {
    match p {
        Some((n, Some(inner))) => if n == "State"@ {
            Some(inner)
        } else {
            None
        },
        _ => None,
    }
}

/// The first value that `f` gives for the parameters, in order.
pub open spec fn first_some<A, B>(ps: Seq<A>, f: spec_fn(A) -> Option<B>) -> Option<B>
    decreases ps.len(),
{
    if ps.len() == 0 {
        None
    } else {
        match f(ps[0]) {
            Some(b) => Some(b),
            None => first_some(ps.drop_first(), f),
        }
    }
}

/// The handler's state type: that of its first `State<T>` parameter, else
/// `()`.
pub open spec fn state_type(ps: Seq<Option<(Seq<char>, Option<Seq<char>>)>>) -> Seq<char> {
    match first_some(ps, |p| state_of(p)) {
        Some(t) => t,
        None => "()"@,
    }
}

/// The request body type of a parameter that is `Json<T>` or
/// `ValidatedJson<T>`.
pub open spec fn request_of(p: Option<(Seq<char>, Option<Seq<char>>)>) -> Option<Seq<char>> {
    match extractor_of(p) {
        Some((n, inner)) => if n == "Json"@ || n == "ValidatedJson"@ {
            Some(inner)
        } else {
            None
        },
        None => None,
    }
}

/// The query type of a parameter that is `Query<T>`.
pub open spec fn query_of(p: Option<(Seq<char>, Option<Seq<char>>)>) -> Option<Seq<char>> {
    match extractor_of(p) {
        Some((n, inner)) => if n == "Query"@ {
            Some(inner)
        } else {
            None
        },
        None => None,
    }
}

/// The response type of a handler that returns `Json<T>`.
pub open spec fn response_of(output: Option<(Seq<char>, Option<Seq<char>>)>) -> Option<Seq<char>> {
    match extractor_of(output) {
        Some((n, inner)) => if n == "Json"@ {
            Some(inner)
        } else {
            None
        },
        None => None,
    }
}

/// How a route is registered for automatic discovery.
#[derive(Debug)]
pub enum Registration {
    /// In the named registry, as a route without state.
    Stateless(String),
    /// In the named registry, as a route with state.
    Stateful(String),
    /// In the default registry of routes without state.
    Default,
    /// Not at all: a route with state must be added by hand.
    Unregistered,
}

/// What the attribute derives for a handler.
#[derive(Debug)]
pub struct RoutePlan {
    /// The name of the function that builds the route: the handler's name
    /// followed by `_route`.
    pub route_fn: String,
    pub state_type: String,
    pub request_schema: Option<String>,
    pub query_schema: Option<String>,
    pub response_schema: Option<String>,
    pub registration: Registration,
}

/// The view of an optional string.
pub open spec fn opt_seq(o: Option<String>) -> Option<Seq<char>> {
    match o {
        Some(s) => Some(s@),
        None => None,
    }
}

/// The registration of a route: in the registry named by the attribute,
/// with or without state; else, for a route without state, in the default
/// registry; else none.
pub open spec fn registration_of(registry: Option<Seq<char>>, state: Seq<char>) -> (u8, Option<Seq<char>>) {
    match registry {
        Some(r) => if state == "()"@ {
            (0u8, Some(r))
        } else {
            (1u8, Some(r))
        },
        None => if state == "()"@ {
            (2u8, None)
        } else {
            (3u8, None)
        },
    }
}

/// The view of a registration: its kind (stateless, stateful, default,
/// none) and registry.
pub open spec fn registration_view(r: Registration) -> (u8, Option<Seq<char>>) {
    match r {
        Registration::Stateless(n) => (0u8, Some(n@)),
        Registration::Stateful(n) => (1u8, Some(n@)),
        Registration::Default => (2u8, None),
        Registration::Unregistered => (3u8, None),
    }
}

fn shape_extractor(t: &TypeShape) -> (r: Option<(String, String)>)
    ensures
        match r {
            Some((n, i)) => extractor_of(Some(shape_view(*t))) == Some((n@, i@)),
            None => extractor_of(Some(shape_view(*t))) is None,
        },
{
    match &t.first_type_arg {
        Some(inner) => {
            let n = &t.name;
            if *n == String::from_str("Json") || *n == String::from_str("ValidatedJson")
                || *n == String::from_str("Path") || *n == String::from_str("Query") {
                Some((n.clone(), inner.clone()))
            } else {
                None
            }
        },
        None => None,
    }
}

/// Which of the parameter readers to apply.
enum Reader {
    State,
    Request,
    Query,
}

spec fn reader_fn(k: Reader) -> spec_fn(Option<(Seq<char>, Option<Seq<char>>)>) -> Option<Seq<char>> {
    match k {
        Reader::State => |p| state_of(p),
        Reader::Request => |p| request_of(p),
        Reader::Query => |p| query_of(p),
    }
}

fn read_param(p: &Option<TypeShape>, k: &Reader) -> (r: Option<String>)
    ensures
        opt_seq(r) == (reader_fn(*k))(match *p {
            Some(t) => Some(shape_view(t)),
            None => None,
        }),
{
    match p {
        None => None,
        Some(t) => match k {
            Reader::State => {
                if t.name == String::from_str("State") {
                    match &t.first_type_arg {
                        Some(a) => Some(a.clone()),
                        None => None,
                    }
                } else {
                    None
                }
            },
            Reader::Request => match shape_extractor(t) {
                Some((n, i)) => if n == String::from_str("Json") || n == String::from_str("ValidatedJson") {
                    Some(i)
                } else {
                    None
                },
                None => None,
            },
            Reader::Query => match shape_extractor(t) {
                Some((n, i)) => if n == String::from_str("Query") {
                    Some(i)
                } else {
                    None
                },
                None => None,
            },
        },
    }
}

proof fn lemma_first_some_skip<A, B>(ps: Seq<A>, f: spec_fn(A) -> Option<B>, i: int)
    requires
        0 <= i < ps.len(),
        forall|j: int| 0 <= j < i ==> f(ps[j]) is None,
    ensures
        first_some(ps, f) == first_some(ps.subrange(i, ps.len() as int), f),
    decreases i,
{
    if i > 0 {
        let t = ps.drop_first();
        assert forall|j: int| 0 <= j < i - 1 implies f(t[j]) is None by {
            assert(t[j] == ps[j + 1]);
        }
        lemma_first_some_skip(t, f, i - 1);
        assert(t.subrange(i - 1, t.len() as int) =~= ps.subrange(i, ps.len() as int));
    } else {
        assert(ps.subrange(0, ps.len() as int) =~= ps);
    }
}

proof fn lemma_first_some_none<A, B>(ps: Seq<A>, f: spec_fn(A) -> Option<B>)
    requires
        forall|j: int| 0 <= j < ps.len() ==> f(ps[j]) is None,
    ensures
        first_some(ps, f) is None,
    decreases ps.len(),
{
    if ps.len() > 0 {
        let t = ps.drop_first();
        assert forall|j: int| 0 <= j < t.len() implies f(t[j]) is None by {
            assert(t[j] == ps[j + 1]);
        }
        lemma_first_some_none(t, f);
    }
}

/// The first value a reader gives for the parameters.
fn first_read(params: &Vec<Option<TypeShape>>, k: Reader) -> (r: Option<String>)
    ensures
        opt_seq(r) == first_some(params_view(params@), reader_fn(k)),
{
    let ghost pv = params_view(params@);
    let mut i: usize = 0;
    while i < params.len()
        invariant
            i <= params@.len(),
            pv == params_view(params@),
            pv.len() == params@.len(),
            forall|j: int| 0 <= j < i ==> (reader_fn(k))(#[trigger] pv[j]) is None,
        decreases params@.len() - i,
    {
        let r = read_param(&params[i], &k);
        assert(pv[i as int] == match params@[i as int] {
            Some(t) => Some(shape_view(t)),
            None => None,
        });
        if r.is_some() {
            proof {
                lemma_first_some_skip(pv, reader_fn(k), i as int);
            }
            return r;
        }
        i = i + 1;
    }
    proof {
        lemma_first_some_none(pv, reader_fn(k));
    }
    None
}

/// What the route attribute derives for the handler `fn_name` with the
/// given parameters and return type, and the registry named in the
/// attribute, if any.
pub fn plan_route(
    fn_name: &str,
    params: &Vec<Option<TypeShape>>,
    output: &Option<TypeShape>,
    registry: Option<&str>,
) -> (r: RoutePlan)
    ensures
        r.route_fn@ == fn_name@ + "_route"@,
        r.state_type@ == state_type(params_view(params@)),
        opt_seq(r.request_schema) == first_some(params_view(params@), |p| request_of(p)),
        opt_seq(r.query_schema) == first_some(params_view(params@), |p| query_of(p)),
        opt_seq(r.response_schema) == response_of(match *output {
            Some(t) => Some(shape_view(t)),
            None => None,
        }),
        registration_view(r.registration) == registration_of(
            match registry {
                Some(s) => Some(s@),
                None => None,
            },
            r.state_type@,
        ),
{
    let state = match first_read(params, Reader::State) {
        Some(s) => s,
        None => String::from_str("()"),
    };
    assert(reader_fn(Reader::State) == |p| state_of(p));
    let request_schema = first_read(params, Reader::Request);
    assert(reader_fn(Reader::Request) == |p| request_of(p));
    let query_schema = first_read(params, Reader::Query);
    assert(reader_fn(Reader::Query) == |p| query_of(p));
    let response_schema = match output {
        Some(t) => match shape_extractor(t) {
            Some((n, i)) => if n == String::from_str("Json") {
                Some(i)
            } else {
                None
            },
            None => None,
        },
        None => None,
    };
    let unit = state == String::from_str("()");
    let registration = match registry {
        Some(reg) => if unit {
            Registration::Stateless(String::from_str(reg))
        } else {
            Registration::Stateful(String::from_str(reg))
        },
        None => if unit {
            Registration::Default
        } else {
            Registration::Unregistered
        },
    };
    RoutePlan {
        route_fn: concat(fn_name, "_route"),
        state_type: state,
        request_schema,
        query_schema,
        response_schema,
        registration,
    }
}

/// The parameter's type is a path named `name` with a type argument.
pub open spec fn param_named(p: Option<(Seq<char>, Option<Seq<char>>)>, name: Seq<char>) -> bool {
    p matches Some((n, Some(_))) && n == name
}

proof fn lemma_first_some_first<A, B>(ps: Seq<A>, f: spec_fn(A) -> Option<B>)
    ensures
        first_some(ps, f) matches Some(b) ==> exists|i: int|
            0 <= i < ps.len() && f(ps[i]) == Some(b) && forall|j: int| 0 <= j < i ==> (#[trigger] f(ps[j])) is None,
        first_some(ps, f) is None <==> forall|i: int| 0 <= i < ps.len() ==> (#[trigger] f(ps[i])) is None,
    decreases ps.len(),
{
    if ps.len() > 0 {
        let t = ps.drop_first();
        lemma_first_some_first(t, f);
        assert forall|k: int| 0 <= k < t.len() implies t[k] == ps[k + 1] by {}
        match f(ps[0]) {
            Some(b) => {
                assert(first_some(ps, f) == Some(b));
                assert(f(ps[0]) == Some(b) && forall|j: int| 0 <= j < 0 ==> (#[trigger] f(ps[j])) is None);
            },
            None => {
                assert(first_some(ps, f) == first_some(t, f));
                if let Some(b) = first_some(t, f) {
                    let i = choose|i: int|
                        0 <= i < t.len() && f(t[i]) == Some(b) && forall|j: int| 0 <= j < i ==> (#[trigger] f(t[j])) is None;
                    assert forall|j: int| 0 <= j < i + 1 implies (#[trigger] f(ps[j])) is None by {
                        if j > 0 {
                            assert(ps[j] == t[j - 1]);
                        }
                    }
                    assert(f(ps[i + 1]) == Some(b));
                } else {
                    assert forall|i: int| 0 <= i < ps.len() implies (#[trigger] f(ps[i])) is None by {
                        if i > 0 {
                            assert(ps[i] == t[i - 1]);
                        }
                    }
                }
            },
        }
    }
}

/// The query schema planned for a handler is the type argument of its
/// first `Query<T>` parameter, and there is one only where some parameter
/// is `Query<T>`.
pub proof fn lemma_query_schema_from_query_param(pv: Seq<Option<(Seq<char>, Option<Seq<char>>)>>)
    ensures
        first_some(pv, |p| query_of(p)) matches Some(t) ==> exists|i: int|
            0 <= i < pv.len() && pv[i] == Some(("Query"@, Some(t)))
            && forall|j: int| 0 <= j < i ==> !param_named(#[trigger] pv[j], "Query"@),
        first_some(pv, |p| query_of(p)) is None <==> forall|i: int| 0 <= i < pv.len() ==> !param_named(#[trigger] pv[i], "Query"@),
{
    let f = |p| query_of(p);
    lemma_first_some_first(pv, f);
    if let Some(t) = first_some(pv, f) {
        let i = choose|i: int|
            0 <= i < pv.len() && f(pv[i]) == Some(t) && forall|j: int| 0 <= j < i ==> (#[trigger] f(pv[j])) is None;
        assert(pv[i] == Some(("Query"@, Some(t))));
        assert forall|j: int| 0 <= j < i implies !param_named(#[trigger] pv[j], "Query"@) by {
            assert(f(pv[j]) is None);
        }
        let k = choose|k: int| 0 <= k < pv.len() && !((#[trigger] f(pv[k])) is None);
        assert(param_named(pv[k], "Query"@));
    } else {
        assert forall|i: int| 0 <= i < pv.len() implies !param_named(#[trigger] pv[i], "Query"@) by {
            assert(f(pv[i]) is None);
        }
    }
}

/// The request schema planned for a handler is the type argument of its
/// first `Json<T>` or `ValidatedJson<T>` parameter, and there is one only
/// where some parameter is one of these.
pub proof fn lemma_request_schema_from_body_param(pv: Seq<Option<(Seq<char>, Option<Seq<char>>)>>)
    ensures
        first_some(pv, |p| request_of(p)) matches Some(t) ==> exists|i: int|
            0 <= i < pv.len() && (pv[i] == Some(("Json"@, Some(t))) || pv[i] == Some(("ValidatedJson"@, Some(t))))
            && forall|j: int| 0 <= j < i ==> !param_named(#[trigger] pv[j], "Json"@) && !param_named(pv[j], "ValidatedJson"@),
        first_some(pv, |p| request_of(p)) is None <==> forall|i: int|
            0 <= i < pv.len() ==> !param_named(#[trigger] pv[i], "Json"@) && !param_named(pv[i], "ValidatedJson"@),
{
    let f = |p| request_of(p);
    lemma_first_some_first(pv, f);
    if let Some(t) = first_some(pv, f) {
        let i = choose|i: int|
            0 <= i < pv.len() && f(pv[i]) == Some(t) && forall|j: int| 0 <= j < i ==> (#[trigger] f(pv[j])) is None;
        assert(pv[i] == Some(("Json"@, Some(t))) || pv[i] == Some(("ValidatedJson"@, Some(t))));
        assert forall|j: int| 0 <= j < i implies !param_named(#[trigger] pv[j], "Json"@) && !param_named(pv[j], "ValidatedJson"@) by {
            assert(f(pv[j]) is None);
        }
        let k = choose|k: int| 0 <= k < pv.len() && !((#[trigger] f(pv[k])) is None);
        assert(param_named(pv[k], "Json"@) || param_named(pv[k], "ValidatedJson"@));
    } else {
        assert forall|i: int| 0 <= i < pv.len() implies !param_named(#[trigger] pv[i], "Json"@) && !param_named(pv[i], "ValidatedJson"@) by {
            assert(f(pv[i]) is None);
        }
    }
}

/// The state type planned for a handler is the type argument of its first
/// `State<T>` parameter, and `()` where no parameter is `State<T>`.
pub proof fn lemma_state_type_from_state_param(pv: Seq<Option<(Seq<char>, Option<Seq<char>>)>>)
    ensures
        (exists|i: int| 0 <= i < pv.len() && param_named(#[trigger] pv[i], "State"@)) ==> exists|i: int|
            0 <= i < pv.len() && pv[i] == Some(("State"@, Some(state_type(pv))))
            && forall|j: int| 0 <= j < i ==> !param_named(#[trigger] pv[j], "State"@),
        (forall|i: int| 0 <= i < pv.len() ==> !param_named(#[trigger] pv[i], "State"@)) ==> state_type(pv) == "()"@,
{
    let f = |p| state_of(p);
    lemma_first_some_first(pv, f);
    if let Some(t) = first_some(pv, f) {
        let i = choose|i: int|
            0 <= i < pv.len() && f(pv[i]) == Some(t) && forall|j: int| 0 <= j < i ==> (#[trigger] f(pv[j])) is None;
        assert(state_type(pv) == t);
        assert(pv[i] == Some(("State"@, Some(t))));
        assert forall|j: int| 0 <= j < i implies !param_named(#[trigger] pv[j], "State"@) by {
            assert(f(pv[j]) is None);
        }
        let k = choose|k: int| 0 <= k < pv.len() && !((#[trigger] f(pv[k])) is None);
        assert(param_named(pv[k], "State"@));
    } else {
        assert forall|i: int| 0 <= i < pv.len() implies !param_named(#[trigger] pv[i], "State"@) by {
            assert(f(pv[i]) is None);
        }
        if exists|i: int| 0 <= i < pv.len() && param_named(#[trigger] pv[i], "State"@) {
            let i = choose|i: int| 0 <= i < pv.len() && param_named(#[trigger] pv[i], "State"@);
            assert(f(pv[i]) is Some);
        }
    }
}

/// The response schema planned for a handler is `T` exactly where it
/// returns `Json<T>`.
pub proof fn lemma_response_schema_from_output(output: Option<(Seq<char>, Option<Seq<char>>)>, t: Seq<char>)
    ensures
        response_of(output) == Some(t) <==> output == Some(("Json"@, Some(t))),
{
}

} // verus!
