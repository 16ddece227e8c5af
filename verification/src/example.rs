//! The decisions of the example application: logging a user in, listing,
//! finding and creating items, and the texts its routes answer with.

use vstd::prelude::*;
use crate::auth::{encode_jwt, json_text_accepted, jwt_encoding, jwt_verified_claims, text_result};
use crate::json::json_from_text;
use crate::exception::HTTPException;
use crate::json::{Json, JsonValue};
use crate::models::{TokenResponse, TOKEN_LIFETIME};
use crate::text::{concat, contains_str, contains_text, decimal, decimal_string};

verus! {

broadcast use vstd::string::group_string_axioms;

/// The hexadecimal digit of `d` (below 16), in lower case.
pub open spec fn hex_digit(d: u32) -> char {
    if d == 0 { '0' }
    else if d == 1 { '1' }
    else if d == 2 { '2' }
    else if d == 3 { '3' }
    else if d == 4 { '4' }
    else if d == 5 { '5' }
    else if d == 6 { '6' }
    else if d == 7 { '7' }
    else if d == 8 { '8' }
    else if d == 9 { '9' }
    else if d == 10 { 'a' }
    else if d == 11 { 'b' }
    else if d == 12 { 'c' }
    else if d == 13 { 'd' }
    else if d == 14 { 'e' }
    else { 'f' }
}

/// How `serde_json` writes a character inside a string: quote and
/// backslash escaped, the control characters below the space as `\b`,
/// `\t`, `\n`, `\f`, `\r` or `\u00XX`, every other character as is.
pub open spec fn escape_char(c: char) -> Seq<char> {
    let u = c as u32;
    if c == '"' {
        seq!['\\', '"']
    } else if c == '\\' {
        seq!['\\', '\\']
    } else if u == 8 {
        seq!['\\', 'b']
    } else if u == 9 {
        seq!['\\', 't']
    } else if u == 10 {
        seq!['\\', 'n']
    } else if u == 12 {
        seq!['\\', 'f']
    } else if u == 13 {
        seq!['\\', 'r']
    } else if u < 32 {
        seq!['\\', 'u', '0', '0', hex_digit(u / 16), hex_digit(u % 16)]
    } else {
        seq![c]
    }
}

/// The characters of `s` as written inside a JSON string.
pub open spec fn escaped(s: Seq<char>) -> Seq<char>
    decreases s.len(),
{
    if s.len() == 0 {
        Seq::empty()
    } else {
        escaped(s.drop_last()) + escape_char(s.last())
    }
}

/// `s` written as a JSON string.
pub open spec fn json_string_of(s: Seq<char>) -> Seq<char> {
    seq!['"'] + escaped(s) + seq!['"']
}

/// Calls `serde_json::to_string` on the text. Claims: the result is the
/// text written as `json_string_of` says (the escaping of `format_escaped_str`
/// with its `ESCAPE` table and lower-case `HEX_DIGITS`), and it is always
/// `Ok`: serializing a `str` cannot fail (serde_json fails only where a
/// `Serialize` impl decides to, or a map has keys that are not strings).
#[verifier::external_body]
fn json_string(s: &str) -> (r: Result<String, String>)
    ensures
        r is Ok,
        r matches Ok(t) ==> t@ == json_string_of(s@),
{
    serde_json::to_string(s).map_err(|e| e.to_string())
}

/// The claims of a user's token as JSON text, with the members in the
/// order of `UserClaims`: `sub`, then `exp`.
pub open spec fn claims_json(sub: Seq<char>, exp: u64) -> Seq<char> {
    "{\"sub\":"@ + json_string_of(sub) + ",\"exp\":"@ + decimal(exp as nat) + "}"@
}

/// The claims of a user's token as JSON text.
pub fn claims_text(sub: &str, exp: u64) -> (r: String)
    ensures
        r@ == claims_json(sub@, exp),
{
    let mut r = String::from_str("{\"sub\":");
    match json_string(sub) {
        Ok(s) => r.append(s.as_str()),
        Err(_) => {},
    }
    r.append(",\"exp\":");
    let e = decimal_string(exp);
    r.append(e.as_str());
    r.append("}");
    r
}

/// The detail of a login without a configured secret.
pub open spec fn no_secret() -> Seq<char> {
    "JWT_SECRET environment variable is not set"@
}

/// A login answer, seen as the token, or the status and detail of the
/// refusal.
pub open spec fn login_view(r: Result<TokenResponse, HTTPException>) -> Result<(Seq<char>, Seq<char>), (u16, Seq<char>)> {
    match r {
        Ok(t) => Ok((t.access_token@, t.token_type@)),
        Err(e) => Err((e.status_code, e.detail@)),
    }
}

/// What signing the claims gave, answered: a bearer token, or 500 with
/// `Failed to generate token: ` and the error.
pub open spec fn login_verdict(encoded: Result<Seq<char>, Seq<char>>) -> Result<(Seq<char>, Seq<char>), (u16, Seq<char>)> {
    match encoded {
        Ok(t) => Ok((t, "Bearer"@)),
        Err(e) => Err((500u16, "Failed to generate token: "@ + e)),
    }
}

/// Answers the outcome of signing a user's claims.
pub fn login_reply(encoded: Result<String, String>) -> (r: Result<TokenResponse, HTTPException>)
    ensures
        login_view(r) == login_verdict(text_result(encoded)),
{
    match encoded {
        Ok(t) => Ok(TokenResponse::bearer(t)),
        Err(e) => Err(HTTPException { status_code: 500, detail: concat("Failed to generate token: ", e.as_str()) }),
    }
}

/// Logs `username` in at `now` (seconds since the epoch): a token whose
/// claims name the user and expire an hour later, signed with the secret;
/// without a secret, 500. With a secret, the login succeeds exactly where
/// the claims text is JSON that `serde_json` takes, and the token verifies
/// under the secret with those claims.
pub fn login(username: &str, now: u64, secret: Option<&str>) -> (r: Result<TokenResponse, HTTPException>)
    requires
        now + TOKEN_LIFETIME <= u64::MAX,
    ensures
        match secret {
            None => login_view(r) == Err::<(Seq<char>, Seq<char>), (u16, Seq<char>)>((500u16, no_secret())),
            Some(k) => {
                &&& login_view(r) == login_verdict(
                    jwt_encoding(claims_json(username@, (now + TOKEN_LIFETIME) as u64), k@),
                )
                &&& (r is Ok <==> json_text_accepted(claims_json(username@, (now + TOKEN_LIFETIME) as u64)))
                &&& r matches Ok(t) ==> jwt_verified_claims(t.access_token@, k@) == json_from_text(
                    claims_json(username@, (now + TOKEN_LIFETIME) as u64),
                )
            },
        },
{
    let exp = now + TOKEN_LIFETIME;
    let key = match secret {
        Some(k) => k,
        None => return Err(HTTPException::new(500, "JWT_SECRET environment variable is not set")),
    };
    let claims = claims_text(username, exp);
    login_reply(encode_jwt(claims.as_str(), key))
}

/// The view of a list of strings.
pub open spec fn names_view(v: Seq<String>) -> Seq<Seq<char>> {
    v.map_values(|s: String| s@)
}

/// An item's name matches the query: it holds the text looked for, or no
/// text is looked for.
pub open spec fn name_matches(name: Seq<char>, q: Option<Seq<char>>) -> bool {
    match q {
        Some(t) => contains_text(name, t),
        None => true,
    }
}

/// The positions of the items whose names match, in order.
pub open spec fn matching_positions(names: Seq<Seq<char>>, q: Option<Seq<char>>) -> Seq<int>
    decreases names.len(),
{
    if names.len() == 0 {
        Seq::empty()
    } else {
        let rest = matching_positions(names.drop_last(), q);
        if name_matches(names.last(), q) {
            rest.push(names.len() - 1)
        } else {
            rest
        }
    }
}

/// The positions listed: the first `limit` of the matching ones.
pub open spec fn listed_positions(names: Seq<Seq<char>>, q: Option<Seq<char>>, limit: nat) -> Seq<int> {
    let m = matching_positions(names, q);
    if m.len() <= limit {
        m
    } else {
        m.take(limit as int)
    }
}

/// The view of an optional string slice.
pub open spec fn opt_str_view(o: Option<&str>) -> Option<Seq<char>> {
    match o {
        Some(s) => Some(s@),
        None => None,
    }
}

/// The positions of the items listed for the query: those whose names
/// match, in order, at most `limit` of them.
pub fn list_positions(names: &Vec<String>, q: Option<&str>, limit: usize) -> (r: Vec<usize>)
    ensures
        r@.map_values(|p: usize| p as int) == listed_positions(names_view(names@), opt_str_view(q), limit as nat),
{
    let ghost nv = names_view(names@);
    let ghost qv = opt_str_view(q);
    let mut out: Vec<usize> = Vec::new();
    let mut i: usize = 0;
    assert(nv.take(0) =~= Seq::<Seq<char>>::empty());
    assert(out@.map_values(|p: usize| p as int) =~= Seq::<int>::empty());
    while i < names.len()
        invariant
            i <= names@.len(),
            nv == names_view(names@),
            nv.len() == names@.len(),
            qv == opt_str_view(q),
            out@.map_values(|p: usize| p as int) == matching_positions(nv.take(i as int), qv),
            forall|j: int| 0 <= j < out@.len() ==> out@[j] < i,
        decreases names@.len() - i,
    {
        assert(nv.take(i + 1).drop_last() =~= nv.take(i as int));
        assert(nv.take(i + 1).last() == names@[i as int]@);
        let keep = match q {
            Some(t) => contains_str(names[i].as_str(), t),
            None => true,
        };
        if keep {
            let ghost before = out@;
            out.push(i);
            assert(out@.map_values(|p: usize| p as int) =~= before.map_values(|p: usize| p as int).push(i as int));
        }
        i = i + 1;
    }
    assert(nv.take(names@.len() as int) =~= nv);
    if out.len() > limit {
        out.truncate(limit);
        assert(out@.map_values(|p: usize| p as int) =~= matching_positions(nv, qv).take(limit as int));
    }
    out
}

/// The position of the first item with the given id.
pub open spec fn first_with_id(ids: Seq<i32>, id: i32) -> Option<int> {
    if exists|j: int| 0 <= j < ids.len() && ids[j] == id {
        Some(choose|j: int| 0 <= j < ids.len() && ids[j] == id && forall|k: int| 0 <= k < j ==> ids[k] != id)
    } else {
        None
    }
}

/// A signed integer written in decimal.
pub open spec fn signed_decimal(i: int) -> Seq<char> {
    if i < 0 {
        "-"@ + decimal((-i) as nat)
    } else {
        decimal(i as nat)
    }
}

/// The refusal of an unknown item: 404 `Item <id> not found`.
pub open spec fn item_not_found(id: i32) -> (u16, Seq<char>) {
    (404u16, "Item "@ + signed_decimal(id as int) + " not found"@)
}

fn signed_text(i: i32) -> (r: String)
    ensures
        r@ == signed_decimal(i as int),
{
    if i < 0 {
        let m: i64 = -(i as i64);
        let d = decimal_string(m as u64);
        concat("-", d.as_str())
    } else {
        decimal_string(i as u64)
    }
}

/// The position of the item with the given id, or 404.
pub fn find_item(ids: &Vec<i32>, id: i32) -> (r: Result<usize, HTTPException>)
    ensures
        match first_with_id(ids@, id) {
            Some(p) => r matches Ok(i) && i == p,
            None => r matches Err(e) && (e.status_code, e.detail@) == item_not_found(id),
        },
{
    let mut i: usize = 0;
    while i < ids.len()
        invariant
            i <= ids@.len(),
            forall|k: int| 0 <= k < i ==> ids@[k] != id,
        decreases ids@.len() - i,
    {
        if ids[i] == id {
            proof {
                let c = choose|j: int| 0 <= j < ids@.len() && ids@[j] == id && forall|k: int| 0 <= k < j ==> ids@[k] != id;
                assert(0 <= i < ids@.len() && ids@[i as int] == id && forall|k: int| 0 <= k < i ==> ids@[k] != id);
                assert(c == i as int) by {
                    if c < i {
                        assert(ids@[c] != id);
                    } else if c > i {
                        assert(ids@[i as int] != id);
                    }
                }
            }
            return Ok(i);
        }
        i = i + 1;
    }
    let mut d = String::from_str("Item ");
    let t = signed_text(id);
    d.append(t.as_str());
    d.append(" not found");
    Err(HTTPException { status_code: 404, detail: d })
}

/// The id a new item gets: one more than the number of items; without the
/// server's internal secret, 500.
pub fn new_item_id(count: usize, internal_secret: Option<&str>) -> (r: Result<i32, HTTPException>)
    requires
        count < i32::MAX,
    ensures
        internal_secret is None ==> (r matches Err(e) && e.status_code == 500 && e.detail@ == "Server misconfiguration"@),
        internal_secret is Some ==> r == Ok::<i32, HTTPException>((count + 1) as i32),
{
    match internal_secret {
        Some(_) => Ok(count as i32 + 1),
        None => Err(HTTPException::new(500, "Server misconfiguration")),
    }
}

/// What the request-information route answers.
pub fn request_info_text(method: &str, path: &str) -> (r: String)
    ensures
        r@ == "Request method: "@ + method@ + ", Path: "@ + path@,
{
    let mut r = concat("Request method: ", method);
    r.append(", Path: ");
    r.append(path);
    r
}

/// An optional text as JSON: the string, or `null`.
pub open spec fn opt_text_json(o: Option<Seq<char>>) -> Json {
    match o {
        Some(t) => Json::Str(t),
        None => Json::Null,
    }
}

/// The answer to an upload: the name kept, the size, and the content type
/// (members in the order `serde_json` keeps them).
pub open spec fn upload_summary_json(filename: Seq<char>, size: usize, content_type: Option<Seq<char>>) -> Json {
    Json::Object(seq![
        ("content_type"@, opt_text_json(content_type)),
        ("filename"@, Json::Str(filename)),
        ("message"@, Json::Str("File uploaded successfully"@)),
        ("size"@, Json::Number(decimal(size as nat))),
    ])
}

/// The answer to an upload.
pub fn upload_summary(filename: &str, size: usize, content_type: Option<&str>) -> (r: JsonValue)
    ensures
        r@ == upload_summary_json(filename@, size, opt_str_view(content_type)),
{
    let ct = match content_type {
        Some(t) => JsonValue::Str(String::from_str(t)),
        None => JsonValue::Null,
    };
    let ghost ctv = opt_text_json(opt_str_view(content_type));
    assert(ct@ == ctv);
    let mut es: Vec<(String, JsonValue)> = Vec::new();
    es.push((String::from_str("content_type"), ct));
    es.push((String::from_str("filename"), JsonValue::Str(String::from_str(filename))));
    es.push((String::from_str("message"), JsonValue::Str(String::from_str("File uploaded successfully"))));
    es.push((String::from_str("size"), JsonValue::Number(decimal_string(size as u64))));
    proof {
        broadcast use crate::json::group_json_view;
        assert(crate::json::view_entries(es@) =~= seq![
            ("content_type"@, ctv),
            ("filename"@, Json::Str(filename@)),
            ("message"@, Json::Str("File uploaded successfully"@)),
            ("size"@, Json::Number(decimal(size as nat))),
        ]);
        assert(JsonValue::Object(es)@ == Json::Object(crate::json::view_entries(es@)));
    }
    JsonValue::Object(es)
}

} // verus!

verus! {

proof fn lemma_matching_positions(names: Seq<Seq<char>>, q: Option<Seq<char>>)
    ensures
        forall|j: int| 0 <= j < matching_positions(names, q).len() ==> {
            let p = #[trigger] matching_positions(names, q)[j];
            &&& 0 <= p < names.len()
            &&& name_matches(names[p], q)
        },
        forall|i: int, j: int| 0 <= i < j < matching_positions(names, q).len() ==>
            matching_positions(names, q)[i] < matching_positions(names, q)[j],
        forall|p: int| 0 <= p < names.len() && name_matches(#[trigger] names[p], q) ==>
            matching_positions(names, q).contains(p),
    decreases names.len(),
{
    if names.len() > 0 {
        let rest = names.drop_last();
        lemma_matching_positions(rest, q);
        let m = matching_positions(rest, q);
        let n = names.len() - 1;
        assert forall|j: int| 0 <= j < m.len() implies m[j] < n && names[m[j]] == rest[m[j]] by {}
        if name_matches(names.last(), q) {
            let mm = m.push(n);
            assert forall|p: int| 0 <= p < names.len() && name_matches(#[trigger] names[p], q) implies mm.contains(p) by {
                if p < n {
                    assert(rest[p] == names[p]);
                    assert(m.contains(p));
                    let j = choose|j: int| 0 <= j < m.len() && m[j] == p;
                    assert(mm[j] == p);
                } else {
                    assert(mm[m.len() as int] == p);
                }
            }
        } else {
            assert forall|p: int| 0 <= p < names.len() && name_matches(#[trigger] names[p], q) implies m.contains(p) by {
                assert(p != n);
                assert(rest[p] == names[p]);
            }
        }
    }
}

/// The items listed are exactly the first `limit` items whose names match
/// the query, in their order: each listed item matches, positions
/// increase, at most `limit` are listed, and where fewer than `limit` are,
/// every matching item is.
pub proof fn lemma_listing(names: Seq<Seq<char>>, q: Option<Seq<char>>, limit: nat)
    ensures
        listed_positions(names, q, limit).len() <= limit,
        forall|j: int| 0 <= j < listed_positions(names, q, limit).len() ==> {
            let p = #[trigger] listed_positions(names, q, limit)[j];
            &&& 0 <= p < names.len()
            &&& name_matches(names[p], q)
        },
        forall|i: int, j: int| 0 <= i < j < listed_positions(names, q, limit).len() ==>
            listed_positions(names, q, limit)[i] < listed_positions(names, q, limit)[j],
        listed_positions(names, q, limit).len() < limit ==> forall|p: int|
            0 <= p < names.len() && name_matches(#[trigger] names[p], q) ==> listed_positions(names, q, limit).contains(p),
{
    lemma_matching_positions(names, q);
    let m = matching_positions(names, q);
    let l = listed_positions(names, q, limit);
    if m.len() > limit {
        assert forall|j: int| 0 <= j < l.len() implies l[j] == m[j] by {}
    }
}

} // verus!

verus! {

proof fn lemma_escape_char_printable(c: char)
    ensures
        forall|i: int| 0 <= i < escape_char(c).len() ==> (#[trigger] escape_char(c)[i]) as u32 >= 32,
{
    let u = c as u32;
    if u < 32 && u != 8 && u != 9 && u != 10 && u != 12 && u != 13 {
        let a = u / 16;
        let b = u % 16;
        assert(hex_digit(a) as u32 >= 48);
        assert(hex_digit(b) as u32 >= 48);
    }
}

/// A JSON string as written here holds no control character below the
/// space: each one is escaped.
pub proof fn lemma_json_string_printable(s: Seq<char>)
    ensures
        forall|i: int| 0 <= i < json_string_of(s).len() ==> (#[trigger] json_string_of(s)[i]) as u32 >= 32,
{
    lemma_escaped_printable(s);
    let e = escaped(s);
    let j = seq!['"'] + e + seq!['"'];
    assert forall|i: int| 0 <= i < j.len() implies (#[trigger] j[i]) as u32 >= 32 by {
        if 1 <= i < j.len() - 1 {
            assert(j[i] == e[i - 1]);
        }
    }
}

proof fn lemma_escaped_printable(s: Seq<char>)
    ensures
        forall|i: int| 0 <= i < escaped(s).len() ==> (#[trigger] escaped(s)[i]) as u32 >= 32,
    decreases s.len(),
{
    if s.len() > 0 {
        let rest = s.drop_last();
        lemma_escaped_printable(rest);
        lemma_escape_char_printable(s.last());
        let a = escaped(rest);
        let b = escape_char(s.last());
        assert forall|i: int| 0 <= i < (a + b).len() implies (#[trigger] (a + b)[i]) as u32 >= 32 by {
            if i >= a.len() {
                assert((a + b)[i] == b[i - a.len()]);
            }
        }
    }
}

} // verus!
