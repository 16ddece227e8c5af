//! Route tables: single routes, routers that group routes under a common
//! prefix and tags, and the application that collects them.

use vstd::prelude::*;
use crate::json::{JsonValue, Json};

verus! {

/// The HTTP methods a route can answer.
#[derive(Clone, Copy, Debug, PartialEq, Eq, Structural)]
pub enum Method {
    Get,
    Post,
    Put,
    Delete,
    Patch,
}

impl Method {
    /// The method's name as it appears in a request line.
    pub open spec fn upper_name(self) -> Seq<char> {
        match self {
            Method::Get => "GET"@,
            Method::Post => "POST"@,
            Method::Put => "PUT"@,
            Method::Delete => "DELETE"@,
            Method::Patch => "PATCH"@,
        }
    }

    /// The method's name in lower case, as an API document keys operations.
    pub open spec fn lower_name(self) -> Seq<char> {
        match self {
            Method::Get => "get"@,
            Method::Post => "post"@,
            Method::Put => "put"@,
            Method::Delete => "delete"@,
            Method::Patch => "patch"@,
        }
    }

    /// The method's name as it appears in a request line.
    pub fn as_str(&self) -> (r: &'static str)
        ensures
            r@ == self.upper_name(),
    {
        match self {
            Method::Get => "GET",
            Method::Post => "POST",
            Method::Put => "PUT",
            Method::Delete => "DELETE",
            Method::Patch => "PATCH",
        }
    }

    /// The method's name in lower case.
    pub fn to_lowercase(&self) -> (r: &'static str)
        ensures
            r@ == self.lower_name(),
    {
        match self {
            Method::Get => "get",
            Method::Post => "post",
            Method::Put => "put",
            Method::Delete => "delete",
            Method::Patch => "patch",
        }
    }
}

/// The views of a list of strings.
pub open spec fn strings_view(v: Seq<String>) -> Seq<Seq<char>> {
    v.map_values(|s: String| s@)
}

/// The view of an optional document.
pub open spec fn opt_json(o: Option<JsonValue>) -> Option<Json> {
    match o {
        Some(v) => Some(v@),
        None => None,
    }
}

/// What the framework reads of a route: its method, path, tags and the
/// schemas of its request body, response body and query parameters.
pub struct RouteInfo {
    pub method: Method,
    pub path: Seq<char>,
    pub tags: Seq<Seq<char>>,
    pub request_schema: Option<Json>,
    pub response_schema: Option<Json>,
    pub query_schema: Option<Json>,
}

/// A single route: a method and path, the handler that serves it, and the
/// schemas and tags that document it.
#[derive(Debug)]
pub struct Route<H> {
    pub method: Method,
    pub path: String,
    pub handler: H,
    pub request_schema: Option<JsonValue>,
    pub response_schema: Option<JsonValue>,
    pub query_schema: Option<JsonValue>,
    pub tags: Vec<String>,
}

impl<H> Route<H> {
    /// What the framework reads of this route.
    pub open spec fn info(self) -> RouteInfo {
        RouteInfo {
            method: self.method,
            path: self.path@,
            tags: strings_view(self.tags@),
            request_schema: opt_json(self.request_schema),
            response_schema: opt_json(self.response_schema),
            query_schema: opt_json(self.query_schema),
        }
    }

    /// A route for `method` on `path`, without schemas or tags.
    pub fn new(method: Method, path: &str, handler: H) -> (r: Self)
        ensures
            r.info() == (RouteInfo {
                method,
                path: path@,
                tags: Seq::empty(),
                request_schema: None,
                response_schema: None,
                query_schema: None,
            }),
            r.handler == handler,
    {
        let r = Route {
            method,
            path: String::from_str(path),
            handler,
            request_schema: None,
            response_schema: None,
            query_schema: None,
            tags: Vec::new(),
        };
        proof {
            assert(strings_view(r.tags@) =~= Seq::empty());
        }
        r
    }

    /// A GET route.
    pub fn get(path: &str, handler: H) -> (r: Self)
        ensures
            r.info() == (RouteInfo { method: Method::Get, path: path@, tags: Seq::empty(), request_schema: None, response_schema: None, query_schema: None }),
            r.handler == handler,
    {
        Self::new(Method::Get, path, handler)
    }

    /// A POST route.
    pub fn post(path: &str, handler: H) -> (r: Self)
        ensures
            r.info() == (RouteInfo { method: Method::Post, path: path@, tags: Seq::empty(), request_schema: None, response_schema: None, query_schema: None }),
            r.handler == handler,
    {
        Self::new(Method::Post, path, handler)
    }

    /// A PUT route.
    pub fn put(path: &str, handler: H) -> (r: Self)
        ensures
            r.info() == (RouteInfo { method: Method::Put, path: path@, tags: Seq::empty(), request_schema: None, response_schema: None, query_schema: None }),
            r.handler == handler,
    {
        Self::new(Method::Put, path, handler)
    }

    /// A DELETE route.
    pub fn delete(path: &str, handler: H) -> (r: Self)
        ensures
            r.info() == (RouteInfo { method: Method::Delete, path: path@, tags: Seq::empty(), request_schema: None, response_schema: None, query_schema: None }),
            r.handler == handler,
    {
        Self::new(Method::Delete, path, handler)
    }

    /// A PATCH route.
    pub fn patch(path: &str, handler: H) -> (r: Self)
        ensures
            r.info() == (RouteInfo { method: Method::Patch, path: path@, tags: Seq::empty(), request_schema: None, response_schema: None, query_schema: None }),
            r.handler == handler,
    {
        Self::new(Method::Patch, path, handler)
    }

    /// Documents the request body with `schema`.
    pub fn with_request_schema(self, schema: JsonValue) -> (r: Self)
        ensures
            r.info() == (RouteInfo { request_schema: Some(schema@), ..self.info() }),
            r.handler == self.handler,
    {
        Route { request_schema: Some(schema), ..self }
    }

    /// Documents the response body with `schema`.
    pub fn with_response_schema(self, schema: JsonValue) -> (r: Self)
        ensures
            r.info() == (RouteInfo { response_schema: Some(schema@), ..self.info() }),
            r.handler == self.handler,
    {
        Route { response_schema: Some(schema), ..self }
    }

    /// Documents the query parameters with `schema`.
    pub fn with_query_schema(self, schema: JsonValue) -> (r: Self)
        ensures
            r.info() == (RouteInfo { query_schema: Some(schema@), ..self.info() }),
            r.handler == self.handler,
    {
        Route { query_schema: Some(schema), ..self }
    }

    /// Adds a tag.
    pub fn tag(self, tag: &str) -> (r: Self)
        ensures
            r.info() == (RouteInfo { tags: self.info().tags.push(tag@), ..self.info() }),
            r.handler == self.handler,
    {
        let mut r = self;
        let ghost old_tags = r.tags@;
        r.tags.push(String::from_str(tag));
        proof {
            assert(strings_view(r.tags@) =~= strings_view(old_tags).push(tag@));
        }
        r
    }

    /// The same route served by another handler.
    pub fn with_handler<G>(self, handler: G) -> (r: Route<G>)
        ensures
            r.info() == self.info(),
            r.handler == handler,
    {
        Route {
            method: self.method,
            path: self.path,
            handler,
            request_schema: self.request_schema,
            response_schema: self.response_schema,
            query_schema: self.query_schema,
            tags: self.tags,
        }
    }
}

/// What the framework reads of the routes of a list.
pub open spec fn infos<H>(rs: Seq<Route<H>>) -> Seq<RouteInfo> {
    rs.map_values(|r: Route<H>| r.info())
}

/// The handlers of a list of routes.
pub open spec fn handlers<H>(rs: Seq<Route<H>>) -> Seq<H> {
    rs.map_values(|r: Route<H>| r.handler)
}

/// A route as a router with `prefix` and `tags` records it: the prefix is
/// put before its path and the router's tags after its own.
pub open spec fn adopted(info: RouteInfo, prefix: Seq<char>, tags: Seq<Seq<char>>) -> RouteInfo {
    RouteInfo { path: prefix + info.path, tags: info.tags + tags, ..info }
}

/// A directory served as static files under a path.
#[derive(Debug)]
pub struct Mount {
    pub path: String,
    pub directory: String,
}

impl Mount {
    /// A mount of `directory` under `path`.
    pub fn new(path: &str, directory: &str) -> (m: Self)
        ensures
            m.path@ == path@,
            m.directory@ == directory@,
    {
        Mount { path: String::from_str(path), directory: String::from_str(directory) }
    }
}

/// The (path, directory) pairs of a list of mounts.
pub open spec fn mount_views(ms: Seq<Mount>) -> Seq<(Seq<char>, Seq<char>)> {
    ms.map_values(|m: Mount| (m.path@, m.directory@))
}

/// The mounts of a list with `prefix` put before each path.
pub open spec fn prefixed_mounts(ms: Seq<(Seq<char>, Seq<char>)>, prefix: Seq<char>) -> Seq<(Seq<char>, Seq<char>)> {
    ms.map_values(|m: (Seq<char>, Seq<char>)| (prefix + m.0, m.1))
}

/// A group of routes sharing a path prefix and tags.
#[derive(Debug)]
pub struct APIRouter<H> {
    pub prefix: String,
    pub tags: Vec<String>,
    pub routes: Vec<Route<H>>,
    pub mounts: Vec<Mount>,
}

/// Anything that can be added to a router or an application: a route, a
/// static-file mount, or a whole router.
#[derive(Debug)]
pub enum Routable<H> {
    Route(Route<H>),
    Mount(Mount),
    Router(APIRouter<H>),
}

fn concat_strings(a: &String, b: &String) -> (r: String)
    ensures
        r@ == a@ + b@,
{
    let mut r = a.clone();
    r.append(b.as_str());
    r
}

fn adopt<H>(prefix: &String, tags: &Vec<String>, r: Route<H>) -> (out: Route<H>)
    ensures
        out.info() == adopted(r.info(), prefix@, strings_view(tags@)),
        out.handler == r.handler,
{
    let Route { method, path, handler, request_schema, response_schema, query_schema, tags: own } = r;
    let new_path = concat_strings(prefix, &path);
    let mut all = own;
    let ghost own_v = all@;
    let mut i: usize = 0;
    while i < tags.len()
        invariant
            i <= tags@.len(),
            all@.len() == own_v.len() + i,
            forall|j: int| 0 <= j < own_v.len() ==> #[trigger] all@[j] == own_v[j],
            forall|j: int| 0 <= j < i ==> #[trigger] all@[own_v.len() + j]@ == tags@[j]@,
        decreases tags@.len() - i,
    {
        all.push(tags[i].clone());
        i = i + 1;
    }
    proof {
        assert forall|j: int| 0 <= j < all@.len() implies #[trigger] strings_view(all@)[j] == (strings_view(own_v) + strings_view(tags@))[j] by {
            if j >= own_v.len() {
                assert(all@[own_v.len() + (j - own_v.len())] == all@[j]);
            }
        }
        assert(strings_view(all@) =~= strings_view(own_v) + strings_view(tags@));
    }
    Route { method, path: new_path, handler, request_schema, response_schema, query_schema, tags: all }
}

fn prefix_mount(prefix: &String, m: Mount) -> (out: Mount)
    ensures
        out.path@ == prefix@ + m.path@,
        out.directory@ == m.directory@,
{
    Mount { path: concat_strings(prefix, &m.path), directory: m.directory }
}

impl<H> APIRouter<H> {
    /// An empty router with no prefix and no tags.
    pub fn new() -> (r: Self)
        ensures
            r.prefix@ == Seq::<char>::empty(),
            r.tags@.len() == 0,
            r.routes@.len() == 0,
            r.mounts@.len() == 0,
    {
        APIRouter { prefix: String::new(), tags: Vec::new(), routes: Vec::new(), mounts: Vec::new() }
    }

    /// Sets the prefix put before the paths of the routes and mounts added
    /// from now on.
    pub fn prefix(self, prefix: &str) -> (r: Self)
        ensures
            r.prefix@ == prefix@,
            r.tags == self.tags,
            r.routes == self.routes,
            r.mounts == self.mounts,
    {
        APIRouter { prefix: String::from_str(prefix), ..self }
    }

    /// Adds a tag given to the routes added from now on.
    pub fn tag(self, tag: &str) -> (r: Self)
        ensures
            r.prefix == self.prefix,
            strings_view(r.tags@) == strings_view(self.tags@).push(tag@),
            r.routes == self.routes,
            r.mounts == self.mounts,
    {
        let mut r = self;
        let ghost old_tags = r.tags@;
        r.tags.push(String::from_str(tag));
        proof {
            assert(strings_view(r.tags@) =~= strings_view(old_tags).push(tag@));
        }
        r
    }

    /// Serves `directory` under the prefix followed by `path`.
    pub fn mount(self, path: &str, directory: &str) -> (r: Self)
        ensures
            r.prefix == self.prefix,
            r.tags == self.tags,
            r.routes == self.routes,
            mount_views(r.mounts@) == mount_views(self.mounts@).push((self.prefix@ + path@, directory@)),
    {
        let mut r = self;
        let ghost old_m = r.mounts@;
        let m = prefix_mount(&r.prefix, Mount::new(path, directory));
        r.mounts.push(m);
        proof {
            assert(mount_views(r.mounts@) =~= mount_views(old_m).push((r.prefix@ + path@, directory@)));
        }
        r
    }

    /// Adds a route, a mount or a router. Paths get this router's prefix put
    /// in front; routes get this router's tags after their own.
    pub fn route(self, item: Routable<H>) -> (r: Self)
        ensures
            r.prefix == self.prefix,
            r.tags == self.tags,
            match item {
                Routable::Route(rt) => {
                    &&& infos(r.routes@) == infos(self.routes@).push(adopted(rt.info(), self.prefix@, strings_view(self.tags@)))
                    &&& handlers(r.routes@) == handlers(self.routes@).push(rt.handler)
                    &&& r.mounts == self.mounts
                },
                Routable::Mount(m) => {
                    &&& r.routes == self.routes
                    &&& mount_views(r.mounts@) == mount_views(self.mounts@).push((self.prefix@ + m.path@, m.directory@))
                },
                Routable::Router(inner) => {
                    &&& infos(r.routes@) == infos(self.routes@) + infos(inner.routes@).map_values(
                        |i: RouteInfo| adopted(i, self.prefix@, strings_view(self.tags@)))
                    &&& handlers(r.routes@) == handlers(self.routes@) + handlers(inner.routes@)
                    &&& mount_views(r.mounts@) == mount_views(self.mounts@) + prefixed_mounts(
                        mount_views(inner.mounts@), self.prefix@)
                },
            },
    {
        let APIRouter { prefix, tags, routes, mounts } = self;
        let mut routes = routes;
        let mut mounts = mounts;
        let ghost old_routes = routes@;
        let ghost old_mounts = mounts@;
        match item {
            Routable::Route(rt) => {
                let a = adopt(&prefix, &tags, rt);
                routes.push(a);
                proof {
                    assert(infos(routes@) =~= infos(old_routes).push(a.info()));
                    assert(handlers(routes@) =~= handlers(old_routes).push(a.handler));
                }
            },
            Routable::Mount(m) => {
                let pm = prefix_mount(&prefix, m);
                mounts.push(pm);
                proof {
                    assert(mount_views(mounts@) =~= mount_views(old_mounts).push((pm.path@, pm.directory@)));
                }
            },
            Routable::Router(inner) => {
                let APIRouter { prefix: _, tags: _, routes: inner_routes, mounts: inner_mounts } = inner;
                let ghost ir = inner_routes@;
                let ghost im = inner_mounts@;
                let _n_routes = inner_routes.len();
                let _n_mounts = inner_mounts.len();
                let mut rest = inner_routes;
                let mut k: usize = 0;
                while rest.len() > 0
                    invariant
                        k <= ir.len(),
                        ir.len() <= usize::MAX,
                        rest@ == ir.subrange(k as int, ir.len() as int),
                        routes@.len() == old_routes.len() + k,
                        forall|j: int| 0 <= j < old_routes.len() ==> #[trigger] routes@[j] == old_routes[j],
                        forall|j: int| 0 <= j < k ==> (#[trigger] routes@[old_routes.len() + j]).info() == adopted(ir[j].info(), prefix@, strings_view(tags@))
                            && routes@[old_routes.len() + j].handler == ir[j].handler,
                    decreases rest@.len(),
                {
                    let rt = rest.remove(0);
                    let a = adopt(&prefix, &tags, rt);
                    routes.push(a);
                    k = k + 1;
                }
                let mut rest_m = inner_mounts;
                let mut q: usize = 0;
                while rest_m.len() > 0
                    invariant
                        q <= im.len(),
                        im.len() <= usize::MAX,
                        rest_m@ == im.subrange(q as int, im.len() as int),
                        mounts@.len() == old_mounts.len() + q,
                        forall|j: int| 0 <= j < old_mounts.len() ==> #[trigger] mounts@[j] == old_mounts[j],
                        forall|j: int| 0 <= j < q ==> (#[trigger] mounts@[old_mounts.len() + j]).path@ == prefix@ + im[j].path@
                            && mounts@[old_mounts.len() + j].directory@ == im[j].directory@,
                    decreases rest_m@.len(),
                {
                    let m = rest_m.remove(0);
                    let pm = prefix_mount(&prefix, m);
                    mounts.push(pm);
                    q = q + 1;
                }
                proof {
                    assert(k == ir.len());
                    assert(q == im.len());
                    let want = infos(old_routes) + infos(ir).map_values(|i: RouteInfo| adopted(i, prefix@, strings_view(tags@)));
                    assert forall|j: int| 0 <= j < routes@.len() implies #[trigger] infos(routes@)[j] == want[j] by {
                        if j >= old_routes.len() {
                            assert(routes@[old_routes.len() + (j - old_routes.len())] == routes@[j]);
                        }
                    }
                    assert(infos(routes@) =~= want);
                    let wh = handlers(old_routes) + handlers(ir);
                    assert forall|j: int| 0 <= j < routes@.len() implies #[trigger] handlers(routes@)[j] == wh[j] by {
                        if j >= old_routes.len() {
                            assert(routes@[old_routes.len() + (j - old_routes.len())] == routes@[j]);
                        }
                    }
                    assert(handlers(routes@) =~= wh);
                    let wm = mount_views(old_mounts) + prefixed_mounts(mount_views(im), prefix@);
                    assert forall|j: int| 0 <= j < mounts@.len() implies #[trigger] mount_views(mounts@)[j] == wm[j] by {
                        if j >= old_mounts.len() {
                            assert(mounts@[old_mounts.len() + (j - old_mounts.len())] == mounts@[j]);
                        }
                    }
                    assert(mount_views(mounts@) =~= wm);
                }
            },
        }
        APIRouter { prefix, tags, routes, mounts }
    }
}

/// The application: its routes, its static-file mounts, and the title and
/// version that its API document announces.
#[derive(Debug)]
pub struct RustAPI<H> {
    pub routes: Vec<Route<H>>,
    pub mounts: Vec<Mount>,
    pub title: String,
    pub version: String,
}

impl<H> RustAPI<H> {
    /// An application with no routes, titled "RustAPI", version "0.1.0".
    pub fn new() -> (r: Self)
        ensures
            r.routes@.len() == 0,
            r.mounts@.len() == 0,
            r.title@ == "RustAPI"@,
            r.version@ == "0.1.0"@,
    {
        RustAPI {
            routes: Vec::new(),
            mounts: Vec::new(),
            title: String::from_str("RustAPI"),
            version: String::from_str("0.1.0"),
        }
    }

    /// Sets the title of the API document.
    pub fn title(self, title: &str) -> (r: Self)
        ensures
            r.title@ == title@,
            r.version == self.version,
            r.routes == self.routes,
            r.mounts == self.mounts,
    {
        RustAPI { title: String::from_str(title), ..self }
    }

    /// Sets the version of the API document.
    pub fn version(self, version: &str) -> (r: Self)
        ensures
            r.version@ == version@,
            r.title == self.title,
            r.routes == self.routes,
            r.mounts == self.mounts,
    {
        RustAPI { version: String::from_str(version), ..self }
    }

    /// Serves `directory` under `path`.
    pub fn mount(self, path: &str, directory: &str) -> (r: Self)
        ensures
            r.title == self.title,
            r.version == self.version,
            r.routes == self.routes,
            mount_views(r.mounts@) == mount_views(self.mounts@).push((path@, directory@)),
    {
        let mut r = self;
        let ghost old_m = r.mounts@;
        r.mounts.push(Mount::new(path, directory));
        proof {
            assert(mount_views(r.mounts@) =~= mount_views(old_m).push((path@, directory@)));
        }
        r
    }

    /// Adds a route, a mount, or all routes and mounts of a router, as they
    /// stand.
    pub fn route(self, item: Routable<H>) -> (r: Self)
        ensures
            r.title == self.title,
            r.version == self.version,
            match item {
                Routable::Route(rt) => {
                    &&& r.routes@ == self.routes@.push(rt)
                    &&& r.mounts == self.mounts
                },
                Routable::Mount(m) => {
                    &&& r.routes == self.routes
                    &&& r.mounts@ == self.mounts@.push(m)
                },
                Routable::Router(inner) => {
                    &&& r.routes@ == self.routes@ + inner.routes@
                    &&& r.mounts@ == self.mounts@ + inner.mounts@
                },
            },
    {
        let mut r = self;
        match item {
            Routable::Route(rt) => {
                r.routes.push(rt);
            },
            Routable::Mount(m) => {
                r.mounts.push(m);
            },
            Routable::Router(inner) => {
                let APIRouter { prefix: _, tags: _, routes: inner_routes, mounts: inner_mounts } = inner;
                let mut ir = inner_routes;
                let mut im = inner_mounts;
                r.routes.append(&mut ir);
                r.mounts.append(&mut im);
            },
        }
        r
    }
}

/// Routers compose: a route added to a router that is itself added to
/// another router gets the outer prefix, then the inner prefix, before its
/// path, and its own tags, then the inner tags, then the outer tags.
pub proof fn lemma_nested_routers(
    info: RouteInfo,
    outer_prefix: Seq<char>,
    outer_tags: Seq<Seq<char>>,
    inner_prefix: Seq<char>,
    inner_tags: Seq<Seq<char>>,
)
    ensures
        adopted(adopted(info, inner_prefix, inner_tags), outer_prefix, outer_tags) == adopted(
            info,
            outer_prefix + inner_prefix,
            inner_tags + outer_tags,
        ),
{
    assert(outer_prefix + (inner_prefix + info.path) =~= (outer_prefix + inner_prefix) + info.path);
    assert((info.tags + inner_tags) + outer_tags =~= info.tags + (inner_tags + outer_tags));
}

} // verus!
