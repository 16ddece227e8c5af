//! The health endpoint: the application's title and version, set once at
//! start-up, and the body that reports them.

use vstd::prelude::*;
use crate::json::{Json, JsonValue};
use crate::text::{decimal, decimal_string};

verus! {

/// The title and version reported by the health endpoint; each is set by
/// the first start-up that gives one and kept afterwards.
#[derive(Debug)]
pub struct HealthInfo {
    title: Option<String>,
    version: Option<String>,
}

/// The view of an optional string.
pub open spec fn opt_chars(o: Option<String>) -> Option<Seq<char>> {
    match o {
        Some(s) => Some(s@),
        None => None,
    }
}

/// The body of the health endpoint: status `ok`, the title and version,
/// and the seconds since start-up (members in the order `serde_json`
/// keeps them).
pub open spec fn health_json(title: Seq<char>, version: Seq<char>, uptime: u64) -> Json {
    Json::Object(seq![
        ("status"@, Json::Str("ok"@)),
        ("title"@, Json::Str(title)),
        ("uptime_seconds"@, Json::Number(decimal(uptime as nat))),
        ("version"@, Json::Str(version)),
    ])
}

/// A setting after a start-up that gives `v`: the one set before, if any,
/// else `v`.
pub open spec fn set_once(current: Option<Seq<char>>, v: Seq<char>) -> Option<Seq<char>> {
    if current is None {
        Some(v)
    } else {
        current
    }
}

/// The first start-up sets a setting, and later start-ups keep it.
pub proof fn lemma_first_init_wins(a: Seq<char>, b: Seq<char>)
    ensures
        set_once(None, a) == Some(a),
        set_once(set_once(None, a), b) == Some(a),
{
}

impl HealthInfo {
    /// The title, if one was set.
    pub closed spec fn title_set(&self) -> Option<Seq<char>> {
        opt_chars(self.title)
    }

    /// The version, if one was set.
    pub closed spec fn version_set(&self) -> Option<Seq<char>> {
        opt_chars(self.version)
    }

    /// The title reported: the one set, else `Ukidama`.
    pub open spec fn shown_title(&self) -> Seq<char> {
        match self.title_set() {
            Some(t) => t,
            None => "Ukidama"@,
        }
    }

    /// The version reported: the one set, else `0.0.0`.
    pub open spec fn shown_version(&self) -> Seq<char> {
        match self.version_set() {
            Some(v) => v,
            None => "0.0.0"@,
        }
    }

    /// Nothing set yet.
    pub fn new() -> (r: Self)
        ensures
            r.title_set() is None,
            r.version_set() is None,
    {
        HealthInfo { title: None, version: None }
    }

    /// Sets the title and the version, each only where none was set
    /// before.
    pub fn init(&mut self, title: &str, version: &str)
        ensures
            final(self).title_set() == set_once(old(self).title_set(), title@),
            final(self).version_set() == set_once(old(self).version_set(), version@),
    {
        if self.title.is_none() {
            self.title = Some(String::from_str(title));
        }
        if self.version.is_none() {
            self.version = Some(String::from_str(version));
        }
    }

    /// The body reported after `uptime_seconds` seconds.
    pub fn body(&self, uptime_seconds: u64) -> (j: JsonValue)
        ensures
            j@ == health_json(self.shown_title(), self.shown_version(), uptime_seconds),
    {
        let title = match &self.title {
            Some(t) => t.clone(),
            None => String::from_str("Ukidama"),
        };
        let version = match &self.version {
            Some(v) => v.clone(),
            None => String::from_str("0.0.0"),
        };
        let mut es: Vec<(String, JsonValue)> = Vec::new();
        es.push((String::from_str("status"), JsonValue::Str(String::from_str("ok"))));
        es.push((String::from_str("title"), JsonValue::Str(title)));
        es.push((String::from_str("uptime_seconds"), JsonValue::Number(decimal_string(uptime_seconds))));
        es.push((String::from_str("version"), JsonValue::Str(version)));
        proof {
            broadcast use crate::json::group_json_view;
            assert(crate::json::view_entries(es@) =~= seq![
                ("status"@, Json::Str("ok"@)),
                ("title"@, Json::Str(self.shown_title())),
                ("uptime_seconds"@, Json::Number(decimal(uptime_seconds as nat))),
                ("version"@, Json::Str(self.shown_version())),
            ]);
        }
        JsonValue::Object(es)
    }
}

} // verus!
