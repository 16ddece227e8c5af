//! The decisions of the command-line tool and of server start-up: which
//! binary to run, with which environment and cargo arguments, what the
//! banner says, and how a new project's manifest is completed.

use vstd::prelude::*;
use crate::json::{
    json_from_bytes, parse_json, Json, JsonValue, find_key, has_key, key_position, lookup, keys_distinct, view_entries, view_items,
    well_formed,
};
use crate::text::{concat, contains_str, contains_text, decimal, decimal_string};

verus! {

broadcast use {vstd::string::group_string_axioms, crate::json::group_json_view};

/// The dependencies that a new project's manifest is given.
pub const NEW_PROJECT_DEPENDENCIES: &'static str = "
ukiapi = { path = \"../../ukiapi\" }
ukiapi-macros = { path = \"../../ukiapi-macros\" }
tokio = { version = \"1\", features = [\"full\"] }
serde = { version = \"1\", features = [\"derive\"] }
serde_json = \"1\"
validator = { version = \"0.20\", features = [\"derive\"] }
schemars = \"0.8\"

[package.metadata.cargo-machete]
ignored = [\"schemars\", \"serde\", \"serde_json\", \"validator\"]
";

/// A new project's manifest after `cargo init`, completed: a
/// `[dependencies]` table is opened where there is none, and the framework's
/// dependencies are appended.
pub open spec fn completed_manifest(toml: Seq<char>) -> Seq<char> {
    let opened = if contains_text(toml, "[dependencies]"@) {
        toml
    } else {
        toml + "\n[dependencies]\n"@
    };
    opened + NEW_PROJECT_DEPENDENCIES@
}

/// Completes a new project's manifest.
pub fn complete_manifest(toml: &str) -> (r: String)
    ensures
        r@ == completed_manifest(toml@),
{
    let mut r = String::from_str(toml);
    if !contains_str(toml, "[dependencies]") {
        r.append("\n[dependencies]\n");
    }
    r.append(NEW_PROJECT_DEPENDENCIES);
    r
}

/// The environment handed to the application: its host and port, and the
/// number of worker threads where one is asked for.
pub open spec fn run_env(host: Seq<char>, port: u16, workers: usize) -> Seq<(Seq<char>, Seq<char>)> {
    let base = seq![("RUSTAPI_HOST"@, host), ("RUSTAPI_PORT"@, decimal(port as nat))];
    if workers > 0 {
        base.push(("TOKIO_WORKER_THREADS"@, decimal(workers as nat)))
    } else {
        base
    }
}

/// The view of a list of string pairs.
pub open spec fn pairs_view(v: Seq<(String, String)>) -> Seq<(Seq<char>, Seq<char>)> {
    v.map_values(|p: (String, String)| (p.0@, p.1@))
}

/// The view of a list of strings.
pub open spec fn strings_view(v: Seq<String>) -> Seq<Seq<char>> {
    v.map_values(|s: String| s@)
}

/// Builds the environment handed to the application.
pub fn build_env(host: &str, port: u16, workers: usize) -> (r: Vec<(String, String)>)
    ensures
        pairs_view(r@) == run_env(host@, port, workers),
{
    let mut env: Vec<(String, String)> = Vec::new();
    env.push((String::from_str("RUSTAPI_HOST"), String::from_str(host)));
    env.push((String::from_str("RUSTAPI_PORT"), decimal_string(port as u64)));
    if workers > 0 {
        env.push((String::from_str("TOKIO_WORKER_THREADS"), decimal_string(workers as u64)));
    }
    assert(pairs_view(env@) =~= run_env(host@, port, workers));
    env
}

/// The binaries of the command-line tool itself, which are never the
/// application.
pub open spec fn tool_bin(n: Seq<char>) -> bool {
    n == "rustapi"@ || n == "rustapi-new"@
}

/// The member `k` of an object.
pub open spec fn member(j: Json, k: Seq<char>) -> Option<Json> {
    match j {
        Json::Object(es) => lookup(es, k),
        _ => None,
    }
}

/// A target whose kinds include `bin`.
pub open spec fn is_bin_target(t: Json) -> bool {
    match member(t, "kind"@) {
        Some(Json::Array(ks)) => ks.contains(Json::Str("bin"@)),
        _ => false,
    }
}

/// The name of a target that is an application binary, if it is one.
pub open spec fn app_bin_name(t: Json) -> Option<Seq<char>> {
    if is_bin_target(t) {
        match member(t, "name"@) {
            Some(Json::Str(n)) => if tool_bin(n) { None } else { Some(n) },
            _ => None,
        }
    } else {
        None
    }
}

/// The names of the application binaries among targets, in order.
pub open spec fn target_bins(ts: Seq<Json>) -> Seq<Seq<char>>
    decreases ts.len(),
{
    if ts.len() == 0 {
        Seq::empty()
    } else {
        let rest = target_bins(ts.drop_last());
        match app_bin_name(ts.last()) {
            Some(n) => rest.push(n),
            None => rest,
        }
    }
}

/// The names of the application binaries of a package.
pub open spec fn package_bins(p: Json) -> Seq<Seq<char>> {
    match member(p, "targets"@) {
        Some(Json::Array(ts)) => target_bins(ts),
        _ => Seq::empty(),
    }
}

/// The names of the application binaries of all packages, in order.
pub open spec fn packages_bins(ps: Seq<Json>) -> Seq<Seq<char>>
    decreases ps.len(),
{
    if ps.len() == 0 {
        Seq::empty()
    } else {
        packages_bins(ps.drop_last()) + package_bins(ps.last())
    }
}

/// The binary to run among the application's binaries: the only one; else
/// the one named like the directory; else `example`; else the first. With
/// none there is nothing to run.
pub open spec fn pick_bin(bins: Seq<Seq<char>>, dir: Seq<char>) -> Option<Seq<char>> {
    if bins.len() == 0 {
        None
    } else if bins.len() == 1 {
        Some(bins[0])
    } else if bins.contains(dir) {
        Some(dir)
    } else if bins.contains("example"@) {
        Some("example"@)
    } else {
        Some(bins[0])
    }
}

/// Cargo's metadata has a `packages` array.
pub open spec fn metadata_ok(metadata: Json) -> bool {
    metadata matches Json::Object(es) && keys_distinct(es) && (lookup(es, "packages"@) matches Some(
        Json::Array(_),
    ))
}

/// The binary to run, as read from cargo's metadata.
pub open spec fn bin_to_run(metadata: Json, dir: Seq<char>) -> Option<Seq<char>> {
    match member(metadata, "packages"@) {
        Some(Json::Array(ps)) => pick_bin(packages_bins(ps), dir),
        _ => None,
    }
}

/// The keys of the value are distinct, if it is an object.
pub open spec fn keys_ok(j: Json) -> bool {
    match j {
        Json::Object(es) => keys_distinct(es),
        _ => true,
    }
}

/// Every element of the array is well formed.
pub open spec fn all_well_formed(items: Seq<Json>) -> bool {
    forall|j: int| 0 <= j < items.len() ==> well_formed(#[trigger] items[j])
}

/// The member `k` of a value, if it is an object that has one.
fn get_member<'a>(v: &'a JsonValue, k: &str) -> (r: Option<&'a JsonValue>)
    ensures
        keys_ok(v@) ==> match r {
            Some(m) => member(v@, k@) == Some(m@),
            None => member(v@, k@) is None,
        },
{
    match v {
        JsonValue::Object(es) => {
            let key = String::from_str(k);
            match find_key(es, &key) {
                Some(i) => {
                    proof {
                        let ev = view_entries(es@);
                        assert(ev[i as int].0 == k@);
                        assert(has_key(ev, k@));
                        if keys_distinct(ev) {
                            assert(key_position(ev, k@) == i as int);
                        }
                    }
                    Some(&es[i].1)
                },
                None => {
                    proof {
                        let ev = view_entries(es@);
                        assert(!has_key(ev, k@)) by {
                            if has_key(ev, k@) {
                                let p = choose|p: int| 0 <= p < ev.len() && ev[p].0 == k@;
                                assert(es@[p].0@ == ev[p].0);
                            }
                        }
                    }
                    None
                },
            }
        },
        _ => None,
    }
}

proof fn lemma_member_well_formed(v: Json, k: Seq<char>)
    requires
        well_formed(v),
    ensures
        member(v, k) matches Some(m) ==> well_formed(m),
{
    if let Json::Object(es) = v {
        if has_key(es, k) {
            let p = key_position(es, k);
            assert(well_formed(es[p].1));
        }
    }
}

/// Whether the target's kinds include `bin`.
fn has_bin_kind(t: &JsonValue) -> (r: bool)
    requires
        well_formed(t@),
    ensures
        r == is_bin_target(t@),
{
    let bin = String::from_str("bin");
    match get_member(t, "kind") {
        Some(JsonValue::Array(ks)) => {
            let ghost kv = view_items(ks@);
            assert(kv.len() == ks@.len());
            let mut i: usize = 0;
            while i < ks.len()
                invariant
                    i <= ks@.len(),
                    kv == view_items(ks@),
                    kv.len() == ks@.len(),
                    member(t@, "kind"@) == Some(Json::Array(kv)),
                    bin@ == "bin"@,
                    forall|j: int| 0 <= j < i ==> kv[j] != Json::Str("bin"@),
                decreases ks@.len() - i,
            {
                let found = match &ks[i] {
                    JsonValue::Str(s) => *s == bin,
                    _ => false,
                };
                if found {
                    assert(kv[i as int] == ks@[i as int]@);
                    assert(kv[i as int] == Json::Str("bin"@));
                    return true;
                }
                assert(kv[i as int] == ks@[i as int]@);
                i = i + 1;
            }
            proof {
                assert(!kv.contains(Json::Str("bin"@))) by {
                    if kv.contains(Json::Str("bin"@)) {
                        let j = choose|j: int| 0 <= j < kv.len() && kv[j] == Json::Str("bin"@);
                        assert(kv[j] != Json::Str("bin"@));
                    }
                }
            }
            false
        },
        _ => false,
    }
}

/// The name of the target if it is an application binary.
fn app_bin(t: &JsonValue) -> (r: Option<String>)
    requires
        well_formed(t@),
    ensures
        match r {
            Some(n) => app_bin_name(t@) == Some(n@),
            None => app_bin_name(t@) is None,
        },
{
    if !has_bin_kind(t) {
        return None;
    }
    match get_member(t, "name") {
        Some(JsonValue::Str(n)) => {
            let a = String::from_str("rustapi");
            let b = String::from_str("rustapi-new");
            if *n == a || *n == b {
                None
            } else {
                Some(n.clone())
            }
        },
        _ => None,
    }
}

/// Appends the names of the application binaries among the targets.
fn collect_target_bins(ts: &Vec<JsonValue>, out: &mut Vec<String>)
    requires
        forall|i: int| 0 <= i < ts@.len() ==> well_formed(#[trigger] ts@[i]@),
    ensures
        strings_view(final(out)@) == strings_view(old(out)@) + target_bins(view_items(ts@)),
{
    let ghost start = strings_view(out@);
    let ghost tv = view_items(ts@);
    assert(tv.len() == ts@.len());
    let mut i: usize = 0;
    assert(tv.take(0) =~= Seq::<Json>::empty());
    assert(start + Seq::<Seq<char>>::empty() =~= start);
    while i < ts.len()
        invariant
            i <= ts@.len(),
            tv == view_items(ts@),
            tv.len() == ts@.len(),
            forall|j: int| 0 <= j < ts@.len() ==> well_formed(#[trigger] ts@[j]@),
            strings_view(out@) == start + target_bins(tv.take(i as int)),
        decreases ts@.len() - i,
    {
        assert(tv.take(i + 1).drop_last() =~= tv.take(i as int));
        assert(tv[i as int] == ts@[i as int]@);
        assert(tv.take(i + 1).last() == ts@[i as int]@);
        assert(well_formed(ts@[i as int]@));
        let ghost before = out@;
        match app_bin(&ts[i]) {
            Some(n) => {
                out.push(n);
                assert(strings_view(out@) =~= strings_view(before).push(n@));
            },
            None => {},
        }
        i = i + 1;
    }
    assert(tv.take(ts@.len() as int) =~= tv);
}

/// The names of the application binaries in cargo's metadata, in order:
/// the targets of kind `bin`, but for the tool's own.
pub fn app_bins(metadata: &JsonValue) -> (r: Vec<String>)
    requires
        well_formed(metadata@),
        metadata_ok(metadata@),
    ensures
        member(metadata@, "packages"@) matches Some(Json::Array(ps)) && strings_view(r@) == packages_bins(ps),
{
    proof {
        lemma_member_well_formed(metadata@, "packages"@);
    }
    let mut out: Vec<String> = Vec::new();
    match get_member(metadata, "packages") {
        Some(JsonValue::Array(ps)) => {
            let ghost pv = view_items(ps@);
            assert(pv.len() == ps@.len());
            let mut i: usize = 0;
            assert(strings_view(out@) =~= packages_bins(pv.take(0)));
            assert(well_formed(Json::Array(pv)));
            assert forall|j: int| 0 <= j < pv.len() implies well_formed(#[trigger] pv[j]) by {
                crate::json::lemma_array_well_formed(pv, j);
            }
            assert(all_well_formed(pv));
            while i < ps.len()
                invariant
                    i <= ps@.len(),
                    pv == view_items(ps@),
                    pv.len() == ps@.len(),
                    all_well_formed(pv),
                    strings_view(out@) == packages_bins(pv.take(i as int)),
                decreases ps@.len() - i,
            {
                assert(pv.take(i + 1).drop_last() =~= pv.take(i as int));
                assert(pv[i as int] == ps@[i as int]@);
                assert(pv.take(i + 1).last() == ps@[i as int]@);
                assert(well_formed(pv[i as int]));
                proof {
                    lemma_member_well_formed(pv[i as int], "targets"@);
                }
                match get_member(&ps[i], "targets") {
                    Some(JsonValue::Array(ts)) => {
                        proof {
                            let tv = view_items(ts@);
                            assert(well_formed(Json::Array(tv)));
                            assert(all_well_formed(tv));
                            assert forall|j: int| 0 <= j < ts@.len() implies well_formed(#[trigger] ts@[j]@) by {
                                assert(tv[j] == ts@[j]@);
                            }
                        }
                        collect_target_bins(ts, &mut out);
                    },
                    _ => {
                        assert(package_bins(pv[i as int]) =~= Seq::<Seq<char>>::empty());
                    },
                }
                i = i + 1;
            }
            assert(pv.take(ps@.len() as int) =~= pv);
            out
        },
        _ => out,
    }
}

/// Picks the binary to run among the application's binaries.
pub fn choose_bin(bins: &Vec<String>, dir_name: &str) -> (r: Option<String>)
    ensures
        match r {
            Some(b) => pick_bin(strings_view(bins@), dir_name@) == Some(b@),
            None => pick_bin(strings_view(bins@), dir_name@) is None,
        },
{
    let ghost bv = strings_view(bins@);
    if bins.len() == 0 {
        return None;
    }
    assert(bv[0] == bins@[0]@);
    if bins.len() == 1 {
        return Some(bins[0].clone());
    }
    let dir = String::from_str(dir_name);
    let example = String::from_str("example");
    let mut i: usize = 0;
    while i < bins.len()
        invariant
            i <= bins@.len(),
            bv == strings_view(bins@),
            bins@.len() > 1,
            dir@ == dir_name@,
            forall|j: int| 0 <= j < i ==> bv[j] != dir_name@,
        decreases bins@.len() - i,
    {
        if bins[i] == dir {
            assert(bv[i as int] == dir_name@);
            return Some(bins[i].clone());
        }
        i = i + 1;
    }
    assert(!bv.contains(dir_name@));
    let mut i: usize = 0;
    while i < bins.len()
        invariant
            i <= bins@.len(),
            bv == strings_view(bins@),
            bins@.len() > 1,
            !bv.contains(dir_name@),
            example@ == "example"@,
            forall|j: int| 0 <= j < i ==> bv[j] != "example"@,
        decreases bins@.len() - i,
    {
        if bins[i] == example {
            assert(bv[i as int] == "example"@);
            return Some(bins[i].clone());
        }
        i = i + 1;
    }
    assert(!bv.contains("example"@));
    Some(bins[0].clone())
}

/// The binary to run, read from cargo's metadata and the name of the
/// current directory; `None` where the application has no binary.
pub fn detect_bin(metadata: &JsonValue, dir_name: &str) -> (r: Option<String>)
    requires
        well_formed(metadata@),
        metadata_ok(metadata@),
    ensures
        match r {
            Some(b) => bin_to_run(metadata@, dir_name@) == Some(b@),
            None => bin_to_run(metadata@, dir_name@) is None,
        },
{
    let bins = app_bins(metadata);
    choose_bin(&bins, dir_name)
}

/// The arguments cargo is run with: a release build, a debug build, or a
/// debug build rebuilt on changes by `cargo watch`.
pub open spec fn cargo_invocation(bin: Seq<char>, release: bool, reload: bool) -> Seq<Seq<char>> {
    if release {
        seq!["run"@, "--release"@, "--bin"@, bin]
    } else if reload {
        seq!["watch"@, "-x"@, "run --bin "@ + bin]
    } else {
        seq!["run"@, "--bin"@, bin]
    }
}

/// The arguments cargo is run with for the binary `bin`.
pub fn cargo_args(bin: &str, release: bool, reload: bool) -> (r: Vec<String>)
    ensures
        strings_view(r@) == cargo_invocation(bin@, release, reload),
{
    let mut r: Vec<String> = Vec::new();
    if release {
        r.push(String::from_str("run"));
        r.push(String::from_str("--release"));
        r.push(String::from_str("--bin"));
        r.push(String::from_str(bin));
    } else if reload {
        r.push(String::from_str("watch"));
        r.push(String::from_str("-x"));
        r.push(concat("run --bin ", bin));
    } else {
        r.push(String::from_str("run"));
        r.push(String::from_str("--bin"));
        r.push(String::from_str(bin));
    }
    assert(strings_view(r@) =~= cargo_invocation(bin@, release, reload));
    r
}

/// The address the application is reached at.
pub open spec fn http_address(host: Seq<char>, port: u16) -> Seq<char> {
    "http://"@ + host + ":"@ + decimal(port as nat)
}

/// The lines of the start-up banner, as label and value: name and
/// version, mode, address; whether reloading is on; in development, where
/// the documentation is served.
pub open spec fn banner(mode: Seq<char>, host: Seq<char>, port: u16, reload: bool, version: Seq<char>) -> Seq<(Seq<char>, Seq<char>)> {
    let dev = mode == "dev"@;
    let head = seq![
        ("🦀 RustAPI"@, "v"@ + version),
        ("mode:"@, if dev { "development"@ } else { "production"@ }),
        ("addr:"@, http_address(host, port)),
    ];
    let with_reload = if reload { head.push(("reload:"@, "enabled"@)) } else { head };
    if dev { with_reload.push(("docs:"@, http_address(host, port) + "/docs"@)) } else { with_reload }
}

/// The lines of the start-up banner.
pub fn banner_lines(mode: &str, host: &str, port: u16, reload: bool, version: &str) -> (r: Vec<(String, String)>)
    ensures
        pairs_view(r@) == banner(mode@, host@, port, reload, version@),
{
    let dev = String::from_str(mode) == String::from_str("dev");
    let mut addr = concat("http://", host);
    addr.append(":");
    let p = decimal_string(port as u64);
    addr.append(p.as_str());
    let mut r: Vec<(String, String)> = Vec::new();
    r.push((String::from_str("🦀 RustAPI"), concat("v", version)));
    r.push((String::from_str("mode:"), String::from_str(if dev { "development" } else { "production" })));
    r.push((String::from_str("addr:"), addr.clone()));
    if reload {
        r.push((String::from_str("reload:"), String::from_str("enabled")));
    }
    if dev {
        r.push((String::from_str("docs:"), concat(addr.as_str(), "/docs")));
    }
    assert(pairs_view(r@) =~= banner(mode@, host@, port, reload, version@));
    r
}

/// The address the server binds to: the configured host (else
/// `127.0.0.1`), a colon, the configured port (else `3000`).
pub open spec fn bind_address_of(host: Option<Seq<char>>, port: Option<Seq<char>>) -> Seq<char> {
    (match host {
        Some(h) => h,
        None => "127.0.0.1"@,
    }) + ":"@ + (match port {
        Some(p) => p,
        None => "3000"@,
    })
}

/// The view of an optional string slice.
pub open spec fn opt_text(o: Option<&str>) -> Option<Seq<char>> {
    match o {
        Some(s) => Some(s@),
        None => None,
    }
}

/// The address the server binds to.
pub fn bind_address(host: Option<&str>, port: Option<&str>) -> (r: String)
    ensures
        r@ == bind_address_of(opt_text(host), opt_text(port)),
{
    let mut r = String::from_str(match host {
        Some(h) => h,
        None => "127.0.0.1",
    });
    r.append(":");
    r.append(match port {
        Some(p) => p,
        None => "3000",
    });
    r
}

/// What the server announces once it listens at `addr`.
pub open spec fn startup_announcement(addr: Seq<char>) -> Seq<Seq<char>> {
    seq![
        "🚀  Listening on  http://"@ + addr,
        "📄  Swagger UI    http://"@ + addr + "/docs"@,
        "📘  ReDoc         http://"@ + addr + "/redoc"@,
        "🔧  OpenAPI JSON  http://"@ + addr + "/openapi.json"@,
    ]
}

/// The lines the server announces once it listens at `addr`.
pub fn startup_lines(addr: &str) -> (r: Vec<String>)
    ensures
        strings_view(r@) == startup_announcement(addr@),
{
    let mut r: Vec<String> = Vec::new();
    r.push(concat("🚀  Listening on  http://", addr));
    let mut s = concat("📄  Swagger UI    http://", addr);
    s.append("/docs");
    r.push(s);
    let mut s = concat("📘  ReDoc         http://", addr);
    s.append("/redoc");
    r.push(s);
    let mut s = concat("🔧  OpenAPI JSON  http://", addr);
    s.append("/openapi.json");
    r.push(s);
    assert(strings_view(r@) =~= startup_announcement(addr@));
    r
}

} // verus!

verus! {

proof fn lemma_target_bins_apps(ts: Seq<Json>)
    ensures
        forall|j: int| 0 <= j < target_bins(ts).len() ==> !tool_bin(#[trigger] target_bins(ts)[j]),
    decreases ts.len(),
{
    if ts.len() > 0 {
        let rest = ts.drop_last();
        lemma_target_bins_apps(rest);
        let r = target_bins(rest);
        match app_bin_name(ts.last()) {
            Some(n) => {
                assert(!tool_bin(n));
                assert forall|j: int| 0 <= j < r.push(n).len() implies !tool_bin(#[trigger] r.push(n)[j]) by {
                    if j < r.len() {
                        assert(r.push(n)[j] == r[j]);
                    }
                }
            },
            None => {},
        }
    }
}

proof fn lemma_packages_bins_apps(ps: Seq<Json>)
    ensures
        forall|j: int| 0 <= j < packages_bins(ps).len() ==> !tool_bin(#[trigger] packages_bins(ps)[j]),
    decreases ps.len(),
{
    if ps.len() > 0 {
        let rest = ps.drop_last();
        lemma_packages_bins_apps(rest);
        let p = ps.last();
        match member(p, "targets"@) {
            Some(Json::Array(ts)) => lemma_target_bins_apps(ts),
            _ => {},
        }
        let a = packages_bins(rest);
        let b = package_bins(p);
        assert forall|j: int| 0 <= j < (a + b).len() implies !tool_bin(#[trigger] (a + b)[j]) by {
            if j >= a.len() {
                assert((a + b)[j] == b[j - a.len()]);
            }
        }
    }
}

/// The binary that is run is one of the application's binaries, and never
/// one of the tool's own.
pub proof fn lemma_bin_to_run(metadata: Json, dir: Seq<char>)
    ensures
        bin_to_run(metadata, dir) matches Some(b) ==> !tool_bin(b) && (member(metadata, "packages"@) matches Some(
            Json::Array(ps),
        ) && packages_bins(ps).contains(b)),
{
    match member(metadata, "packages"@) {
        Some(Json::Array(ps)) => {
            let bins = packages_bins(ps);
            lemma_packages_bins_apps(ps);
            if bins.len() > 0 {
                assert(bins.contains(bins[0]));
                if bins.contains("example"@) {
                    let j = choose|j: int| 0 <= j < bins.len() && bins[j] == "example"@;
                    assert(!tool_bin(bins[j]));
                }
                if bins.contains(dir) {
                    let j = choose|j: int| 0 <= j < bins.len() && bins[j] == dir;
                    assert(!tool_bin(bins[j]));
                }
                assert(!tool_bin(bins[0]));
            }
        },
        _ => {},
    }
}

/// A completed manifest always has a `[dependencies]` table, and ends with
/// the framework's dependencies.
pub proof fn lemma_completed_manifest(toml: Seq<char>)
    ensures
        contains_text(completed_manifest(toml), "[dependencies]"@),
        completed_manifest(toml).subrange(
            completed_manifest(toml).len() - NEW_PROJECT_DEPENDENCIES@.len(),
            completed_manifest(toml).len() as int,
        ) == NEW_PROJECT_DEPENDENCIES@,
{
    let t = "[dependencies]"@;
    let d = NEW_PROJECT_DEPENDENCIES@;
    let r = completed_manifest(toml);
    let opened = if contains_text(toml, t) { toml } else { toml + "\n[dependencies]\n"@ };
    assert(r == opened + d);
    assert(r.subrange(r.len() - d.len(), r.len() as int) =~= d);
    if contains_text(toml, t) {
        let i = choose|i: int| 0 <= i && i + t.len() <= toml.len() && #[trigger] toml.subrange(i, i + t.len()) == t;
        assert(r.subrange(i, i + t.len()) =~= toml.subrange(i, i + t.len()));
    } else {
        reveal_strlit("\n[dependencies]\n");
        reveal_strlit("[dependencies]");
        let i: int = toml.len() as int + 1;
        assert(r.subrange(i, i + t.len()) =~= t);
    }
}

} // verus!

verus! {

/// Why no binary could be chosen from cargo's metadata.
#[derive(Debug)]
pub enum BinError {
    /// The output is not JSON; the message says why.
    Unparsable(String),
    /// The metadata has no `packages` array.
    NoPackages,
    /// No package has an application binary.
    NoBinary,
}

/// The view of a binary choice: the binary's name, or the kind of error
/// (0 not JSON, 1 no packages, 2 no binary).
pub open spec fn bin_choice_view(r: Result<String, BinError>) -> Result<Seq<char>, u8> {
    match r {
        Ok(b) => Ok(b@),
        Err(BinError::Unparsable(_)) => Err(0u8),
        Err(BinError::NoPackages) => Err(1u8),
        Err(BinError::NoBinary) => Err(2u8),
    }
}

/// The binary to run, read from the output of `cargo metadata`: output
/// that is not JSON, metadata without a `packages` array, and metadata
/// without an application binary are each refused; otherwise the choice of
/// `bin_to_run`.
pub open spec fn bin_from_output(stdout: Seq<u8>, dir: Seq<char>) -> Result<Seq<char>, u8> {
    match json_from_bytes(stdout) {
        None => Err(0u8),
        Some(m) => if !metadata_ok(m) {
            Err(1u8)
        } else {
            match bin_to_run(m, dir) {
                Some(b) => Ok(b),
                None => Err(2u8),
            }
        },
    }
}

/// The binary to run, read from the bytes that `cargo metadata` printed.
pub fn bin_from_metadata(stdout: &[u8], dir_name: &str) -> (r: Result<String, BinError>)
    ensures
        bin_choice_view(r) == bin_from_output(stdout@, dir_name@),
{
    let m = match parse_json(stdout) {
        Ok(m) => m,
        Err(e) => return Err(BinError::Unparsable(e)),
    };
    let has_packages = match &m {
        JsonValue::Object(_) => match get_member(&m, "packages") {
            Some(JsonValue::Array(_)) => true,
            _ => false,
        },
        _ => false,
    };
    if !has_packages {
        return Err(BinError::NoPackages);
    }
    match detect_bin(&m, dir_name) {
        Some(b) => Ok(b),
        None => Err(BinError::NoBinary),
    }
}

} // verus!
