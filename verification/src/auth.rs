//! Bearer-token authentication: reading the `Authorization` header, and
//! signing and checking JSON Web Tokens.

use vstd::prelude::*;
use vstd::string::StrSliceExecFns;
use crate::exception::HTTPException;
use crate::json::{json_from_text, json_value_of, Json, JsonValue};
use crate::text::{chars_of, concat};

verus! {

broadcast use vstd::string::group_string_axioms;

/// The detail of the answer to a request without an `Authorization` header.
pub open spec fn missing_header() -> Seq<char> {
    "Missing Authorization header"@
}

/// The detail of the answer to an `Authorization` header that is not of the
/// bearer scheme.
pub open spec fn bad_scheme() -> Seq<char> {
    "Invalid Authorization header format. Expected 'Bearer <token>'"@
}

/// The secret tokens are checked with: the configured one, else
/// `secret`.
pub open spec fn jwt_auth_key(secret: Option<Seq<char>>) -> Seq<char> {
    match secret {
        Some(k) => k,
        None => "secret"@,
    }
}

/// The code of a character folded to ASCII lower case: `A` to `Z` become
/// `a` to `z`, every other character stays.
pub open spec fn ascii_lower_code(c: char) -> u32 {
    if 65 <= (c as u32) <= 90 {
        ((c as u32) + 32) as u32
    } else {
        c as u32
    }
}

/// The scheme that starts a bearer credential, with the space after it.
pub open spec fn bearer_scheme() -> Seq<char> {
    seq!['b', 'e', 'a', 'r', 'e', 'r', ' ']
}

/// The header starts with `bearer ` in any mix of ASCII case.
pub open spec fn has_bearer_scheme(h: Seq<char>) -> bool {
    &&& h.len() >= 7
    &&& forall|i: int| 0 <= i < 7 ==> #[trigger] ascii_lower_code(h[i]) == ascii_lower_code(bearer_scheme()[i])
}

/// A character of the Unicode property White_Space.
pub open spec fn is_white_space(c: char) -> bool {
    let u = c as u32;
    ||| 9 <= u <= 13
    ||| u == 32
    ||| u == 0x85
    ||| u == 0xA0
    ||| u == 0x1680
    ||| 0x2000 <= u <= 0x200A
    ||| u == 0x2028
    ||| u == 0x2029
    ||| u == 0x202F
    ||| u == 0x205F
    ||| u == 0x3000
}

/// `s` without its leading white space.
pub open spec fn trim_start(s: Seq<char>) -> Seq<char>
    decreases s.len(),
{
    if s.len() > 0 && is_white_space(s[0]) {
        trim_start(s.drop_first())
    } else {
        s
    }
}

/// `s` without its trailing white space.
pub open spec fn trim_end(s: Seq<char>) -> Seq<char>
    decreases s.len(),
{
    if s.len() > 0 && is_white_space(s.last()) {
        trim_end(s.drop_last())
    } else {
        s
    }
}

/// `s` without leading and trailing white space.
pub open spec fn trim(s: Seq<char>) -> Seq<char> {
    trim_end(trim_start(s))
}

/// What a bearer credential yields: the token (what follows `bearer `,
/// trimmed), or the status code and detail of the refusal.
pub open spec fn bearer_token(header: Option<Seq<char>>) -> Result<Seq<char>, (u16, Seq<char>)> {
    match header {
        None => Err((401u16, missing_header())),
        Some(h) => if has_bearer_scheme(h) {
            Ok(trim(h.subrange(7, h.len() as int)))
        } else {
            Err((401u16, bad_scheme()))
        },
    }
}

/// The view of an optional string.
pub open spec fn opt_str(o: Option<&str>) -> Option<Seq<char>> {
    match o {
        Some(s) => Some(s@),
        None => None,
    }
}

/// A result that is text or an exception, seen as text or a status code
/// and detail.
pub open spec fn text_outcome<T: View<V = Seq<char>>>(r: Result<T, HTTPException>) -> Result<Seq<char>, (u16, Seq<char>)> {
    match r {
        Ok(t) => Ok(t@),
        Err(e) => Err((e.status_code, e.detail@)),
    }
}

fn lower_code(c: char) -> (u: u32)
    ensures
        u == ascii_lower_code(c),
{
    let a = c as u32;
    if 65 <= a && a <= 90 {
        a + 32
    } else {
        a
    }
}

fn scheme_char(i: usize) -> (c: char)
    requires
        i < 7,
    ensures
        c == bearer_scheme()[i as int],
{
    if i == 0 { 'b' }
    else if i == 1 { 'e' }
    else if i == 2 { 'a' }
    else if i == 3 { 'r' }
    else if i == 4 { 'e' }
    else if i == 5 { 'r' }
    else { ' ' }
}

/// Whether `c` is white space in Unicode's sense.
pub fn white_space(c: char) -> (r: bool)
    ensures
        r == is_white_space(c),
{
    let u = c as u32;
    (9 <= u && u <= 13) || u == 32 || u == 0x85 || u == 0xA0 || u == 0x1680
        || (0x2000 <= u && u <= 0x200A) || u == 0x2028 || u == 0x2029 || u == 0x202F
        || u == 0x205F || u == 0x3000
}

fn starts_with_bearer(v: &Vec<char>) -> (r: bool)
    ensures
        r == has_bearer_scheme(v@),
{
    if v.len() < 7 {
        return false;
    }
    let mut i: usize = 0;
    while i < 7
        invariant
            v.len() >= 7,
            i <= 7,
            forall|k: int| 0 <= k < i ==> #[trigger] ascii_lower_code(v@[k]) == ascii_lower_code(bearer_scheme()[k]),
        decreases 7 - i,
    {
        if lower_code(v[i]) != lower_code(scheme_char(i)) {
            return false;
        }
        i = i + 1;
    }
    true
}

/// The bounds, within `v`, of `v[from..]` trimmed of white space.
fn trimmed_bounds(v: &Vec<char>, from: usize) -> (r: (usize, usize))
    requires
        from <= v.len(),
    ensures
        from <= r.0 <= r.1 <= v.len(),
        v@.subrange(r.0 as int, r.1 as int) == trim(v@.subrange(from as int, v.len() as int)),
{
    let n = v.len();
    let ghost s = v@.subrange(from as int, n as int);
    let mut i = from;
    while i < n && white_space(v[i])
        invariant
            from <= i <= n,
            n == v.len(),
            s == v@.subrange(from as int, n as int),
            trim_start(s) == trim_start(v@.subrange(i as int, n as int)),
        decreases n - i,
    {
        assert(v@.subrange(i as int, n as int).drop_first() =~= v@.subrange(i + 1, n as int));
        i = i + 1;
    }
    assert(trim_start(s) == v@.subrange(i as int, n as int));
    let mut j = n;
    while j > i && white_space(v[j - 1])
        invariant
            from <= i <= j <= n,
            n == v.len(),
            trim(s) == trim_end(v@.subrange(i as int, j as int)),
        decreases j,
    {
        assert(v@.subrange(i as int, j as int).drop_last() =~= v@.subrange(i as int, j - 1));
        j = j - 1;
    }
    (i, j)
}

/// Reads bearer credentials from the `Authorization` header.
#[derive(Debug)]
pub struct HTTPBearer;

impl HTTPBearer {
    /// The token of an `Authorization` header, given as text (`None` where
    /// the request has none, or none that is text): what follows
    /// `Bearer ` (the scheme in any ASCII case), trimmed of white space.
    /// A missing header, or one of another scheme, is refused with 401.
    pub fn extract<'a>(header: Option<&'a str>) -> (r: Result<&'a str, HTTPException>)
        ensures
            text_outcome(r) == bearer_token(opt_str(header)),
    {
        match header {
            None => Err(HTTPException::new(401, "Missing Authorization header")),
            Some(h) => {
                let v = chars_of(h);
                if !starts_with_bearer(&v) {
                    return Err(HTTPException::new(
                        401,
                        "Invalid Authorization header format. Expected 'Bearer <token>'",
                    ));
                }
                let (i, j) = trimmed_bounds(&v, 7);
                Ok(h.substring_char(i, j))
            },
        }
    }
}

/// The OAuth2 password flow: a bearer token, with the URL where a client
/// obtains one.
#[derive(Debug)]
pub struct OAuth2PasswordBearer {
    pub token_url: String,
}

impl OAuth2PasswordBearer {
    /// Creates the flow for the given token URL.
    pub fn new(token_url: &str) -> (r: Self)
        ensures
            r.token_url@ == token_url@,
    {
        OAuth2PasswordBearer { token_url: String::from_str(token_url) }
    }

    /// The bearer token of the request, as `HTTPBearer::extract` reads it.
    pub fn resolve(header: Option<&str>) -> (r: Result<String, HTTPException>)
        ensures
            text_outcome(r) == bearer_token(opt_str(header)),
    {
        match HTTPBearer::extract(header) {
            Ok(t) => Ok(String::from_str(t)),
            Err(e) => Err(e),
        }
    }
}

/// The JSON Web Token that `jsonwebtoken::encode` makes of the claims (as
/// JSON text) with the default header (HS256) and the secret, or the
/// message of its error.
pub uninterp spec fn jwt_encoding(claims: Seq<char>, secret: Seq<char>) -> Result<Seq<char>, Seq<char>>;

/// A result of text or an error message, seen as character sequences.
pub open spec fn text_result(r: Result<String, String>) -> Result<Seq<char>, Seq<char>> {
    match r {
        Ok(t) => Ok(t@),
        Err(e) => Err(e@),
    }
}

/// Whether `serde_json::value::RawValue::from_string` takes the text as
/// JSON.
pub uninterp spec fn json_text_accepted(text: Seq<char>) -> bool;

/// Signs the claims, given as JSON text, into a JSON Web Token with the
/// default header (HS256) and the secret. Calls
/// `serde_json::value::RawValue::from_string` to carry the claims as they
/// are written and `jsonwebtoken::encode` to sign them; errors are kept as
/// their messages. Claims: the result is `jwt_encoding` of the claims and
/// the secret; it fails exactly where the claims are not JSON that
/// `RawValue::from_string` takes (`encode` with the default header and a
/// key made by `EncodingKey::from_secret` has no other failure: the key
/// family matches HS256, serializing the header and the raw claims cannot
/// fail, and HMAC signing returns `Ok`); a token is three parts joined by
/// `.`, so it holds a `.`; and the token it makes verifies under the same
/// secret, its claims being the claims text as `serde_json` reads it (the
/// header is the default HS256 one, the signature is the HMAC of the
/// first two parts under the secret, and the payload is the claims text
/// itself, which `decode` reads back as a `serde_json::Value`).
#[verifier::external_body]
pub fn encode_jwt(claims: &str, secret: &str) -> (r: Result<String, String>)
    ensures
        text_result(r) == jwt_encoding(claims@, secret@),
        r is Ok <==> json_text_accepted(claims@),
        r matches Ok(t) ==> jwt_verified_claims(t@, secret@) == json_from_text(claims@),
        r matches Ok(t) ==> t@.contains('.'),
{
    let raw = serde_json::value::RawValue::from_string(claims.to_string()).map_err(|e| e.to_string())?;
    jsonwebtoken::encode(
        &jsonwebtoken::Header::default(),
        &raw,
        &jsonwebtoken::EncodingKey::from_secret(secret.as_bytes()),
    ).map_err(|e| e.to_string())
}

/// The claims, read by `serde_json` into this library's model, of a token
/// whose header names HS256 and whose signature checks under the secret;
/// `None` for any other token. This depends on the token and the secret
/// alone.
pub uninterp spec fn jwt_verified_claims(token: Seq<char>, secret: Seq<char>) -> Option<Json>;

/// The messages with which the default validation of `jsonwebtoken`
/// refuses the claims of a token that is otherwise sound: a missing `exp`,
/// an expired one, an `aud` claim where no audience is expected, or claims
/// that do not read as the claims it validates (a JSON error).
pub open spec fn validation_refusal(m: Seq<char>) -> bool {
    ||| m == "Missing required claim: exp"@
    ||| m == "ExpiredSignature"@
    ||| m == "InvalidAudience"@
    ||| "JSON error: "@.is_prefix_of(m)
}

/// What checking `token` with `secret` may give: the claims of a token that
/// is signed with the secret; or an error, which for such a token is a
/// refusal of its claims by the validation.
pub open spec fn decode_admits(token: Seq<char>, secret: Seq<char>, d: Result<Json, Seq<char>>) -> bool {
    match d {
        Ok(c) => jwt_verified_claims(token, secret) == Some(c),
        Err(m) => jwt_verified_claims(token, secret) is Some ==> validation_refusal(m),
    }
}

/// Checks a JSON Web Token with the secret and the default validation of
/// `jsonwebtoken::decode` (HS256, an `exp` claim not in the past), and
/// gives its claims (read as a `serde_json::Value`, converted into this
/// library's model), or the message of the error. Claims: a token is only
/// accepted where its header names HS256 and its signature checks under
/// the secret (`verify_signature` runs before the claims are read), and
/// the claims given are that token's, so `Ok` gives `jwt_verified_claims`
/// of the token and the secret. For such a token the only errors left are
/// those of reading the claims for validation (`JSON error: ` and the
/// reason) and of `validate` under `Validation::default()`: a missing
/// `exp`, `ExpiredSignature`, or `InvalidAudience` (no audience is set and
/// `validate_aud` is on); `nbf`, `iss` and `sub` are not checked by
/// default. Whether a signed token is accepted is not claimed: the
/// validation of `exp` reads the clock.
#[verifier::external_body]
pub fn decode_jwt(token: &str, secret: &str) -> (r: Result<JsonValue, String>)
    ensures
        r matches Ok(c) ==> jwt_verified_claims(token@, secret@) == Some(c@),
        decode_admits(token@, secret@, json_result(r)),
{
    jsonwebtoken::decode::<serde_json::Value>(
        token,
        &jsonwebtoken::DecodingKey::from_secret(secret.as_bytes()),
        &jsonwebtoken::Validation::default(),
    ).map(|data| json_value_of(&data.claims)).map_err(|e| e.to_string())
}

/// A result that is a document or an exception, seen as the document's
/// view or a status code and detail.
pub open spec fn json_outcome(r: Result<JsonValue, HTTPException>) -> Result<Json, (u16, Seq<char>)> {
    match r {
        Ok(v) => Ok(v@),
        Err(e) => Err((e.status_code, e.detail@)),
    }
}

/// A result that is a document or an error message, seen as views.
pub open spec fn json_result(r: Result<JsonValue, String>) -> Result<Json, Seq<char>> {
    match r {
        Ok(v) => Ok(v@),
        Err(e) => Err(e@),
    }
}

/// What a decoded token is answered with: its claims, or 401 with
/// `Invalid token: ` and the error.
pub open spec fn token_verdict(decoded: Result<Json, Seq<char>>) -> Result<Json, (u16, Seq<char>)> {
    match decoded {
        Ok(c) => Ok(c),
        Err(e) => Err((401u16, "Invalid token: "@ + e)),
    }
}

/// Answers the outcome of checking a token: the claims are passed on, an
/// error is refused with 401.
pub fn token_outcome(decoded: Result<JsonValue, String>) -> (r: Result<JsonValue, HTTPException>)
    ensures
        json_outcome(r) == token_verdict(json_result(decoded)),
{
    match decoded {
        Ok(c) => Ok(c),
        Err(e) => Err(HTTPException { status_code: 401, detail: concat("Invalid token: ", e.as_str()) }),
    }
}

/// A dependency that authenticates a request by its JSON Web Token.
#[derive(Debug)]
pub struct JWTAuth;

impl JWTAuth {
    /// The claims of the bearer token of the request,
    /// checked with the configured secret, or with `secret` where none is
    /// configured. A missing or malformed header is refused as
    /// `HTTPBearer::extract` refuses it; a token that does not check is
    /// refused with 401 and `Invalid token: ` followed by the reason; the
    /// claims given back are those of the request's token, signed with the
    /// secret used.
    pub fn resolve(header: Option<&str>, secret: Option<&str>) -> (r: Result<JsonValue, HTTPException>)
        ensures
            match bearer_token(opt_str(header)) {
                Err(refusal) => json_outcome(r) == Err::<Json, (u16, Seq<char>)>(refusal),
                Ok(t) => {
                    &&& r matches Ok(c) ==> jwt_verified_claims(t, jwt_auth_key(opt_str(secret))) == Some(c@)
                    &&& r matches Err(e) ==> e.status_code == 401 && "Invalid token: "@.is_prefix_of(e.detail@)
                    &&& exists|d: Result<Json, Seq<char>>|
                        decode_admits(t, jwt_auth_key(opt_str(secret)), d) && json_outcome(r) == #[trigger] token_verdict(d)
                },
            },
    {
        let token = match HTTPBearer::extract(header) {
            Ok(t) => t,
            Err(e) => return Err(e),
        };
        let key: &str = match secret {
            Some(k) => k,
            None => "secret",
        };
        let decoded = decode_jwt(token, key);
        let r = token_outcome(decoded);
        proof {
            assert(decode_admits(token@, key@, json_result(decoded)) && json_outcome(r) == token_verdict(json_result(decoded)));
            reveal_strlit("Invalid token: ");
            if r is Err {
                assert("Invalid token: "@.is_prefix_of(r->Err_0.detail@));
            }
        }
        r
    }
}

/// Without a configured secret, tokens are checked as if the secret were
/// `secret`.
pub proof fn lemma_default_secret()
    ensures
        jwt_auth_key(None) == jwt_auth_key(Some("secret"@)),
{
}

} // verus!

verus! {

proof fn lemma_trim_keeps(t: Seq<char>)
    requires
        t.len() > 0 ==> !is_white_space(t[0]) && !is_white_space(t.last()),
    ensures
        trim(t) == t,
{
    assert(trim_start(t) == t);
    assert(trim_end(t) == t);
}

/// A token sent as `Bearer <token>` is read back as it was sent, where it
/// does not start or end with white space.
pub proof fn lemma_bearer_roundtrip(t: Seq<char>)
    requires
        t.len() > 0 ==> !is_white_space(t[0]) && !is_white_space(t.last()),
    ensures
        bearer_token(Some("Bearer "@ + t)) == Ok::<Seq<char>, (u16, Seq<char>)>(t),
{
    reveal_strlit("Bearer ");
    let h = "Bearer "@ + t;
    assert(h.len() >= 7);
    assert forall|i: int| 0 <= i < 7 implies #[trigger] ascii_lower_code(h[i]) == ascii_lower_code(bearer_scheme()[i]) by {
        assert(h[i] == "Bearer "@[i]);
    }
    assert(has_bearer_scheme(h));
    assert(h.subrange(7, h.len() as int) =~= t);
    lemma_trim_keeps(t);
}

} // verus!

verus! {

proof fn lemma_trim_start_clean(s: Seq<char>)
    ensures
        trim_start(s).len() > 0 ==> !is_white_space(trim_start(s)[0]),
        trim_start(s).len() <= s.len(),
        trim_start(s) == s.subrange(s.len() - trim_start(s).len(), s.len() as int),
    decreases s.len(),
{
    if s.len() > 0 && is_white_space(s[0]) {
        lemma_trim_start_clean(s.drop_first());
        let t = trim_start(s.drop_first());
        assert(s.drop_first().subrange(s.drop_first().len() - t.len(), s.drop_first().len() as int) =~= s.subrange(
            s.len() - t.len(),
            s.len() as int,
        ));
    } else {
        assert(s.subrange(0, s.len() as int) =~= s);
    }
}

proof fn lemma_trim_end_clean(s: Seq<char>)
    requires
        s.len() > 0 ==> !is_white_space(s[0]),
    ensures
        trim_end(s).len() <= s.len(),
        trim_end(s).len() > 0 ==> !is_white_space(trim_end(s)[0]) && !is_white_space(trim_end(s).last()),
        trim_end(s) == s.subrange(0, trim_end(s).len() as int),
    decreases s.len(),
{
    if s.len() > 0 && is_white_space(s.last()) {
        let t = s.drop_last();
        if t.len() > 0 {
            assert(t[0] == s[0]);
        }
        lemma_trim_end_clean(t);
        assert(t.subrange(0, trim_end(t).len() as int) =~= s.subrange(0, trim_end(t).len() as int));
    } else {
        assert(s.subrange(0, s.len() as int) =~= s);
    }
}

/// A bearer token read from a header neither starts nor ends with white
/// space, and is a part of the header.
pub proof fn lemma_token_trimmed(h: Seq<char>)
    ensures
        bearer_token(Some(h)) matches Ok(t) ==> {
            &&& t.len() > 0 ==> !is_white_space(t[0]) && !is_white_space(t.last())
            &&& t.len() <= h.len() - 7
        },
{
    if has_bearer_scheme(h) {
        let s = h.subrange(7, h.len() as int);
        lemma_trim_start_clean(s);
        let a = trim_start(s);
        if a.len() > 0 {
            lemma_trim_end_clean(a);
        } else {
            assert(trim_end(a) == a);
        }
        let t = trim_end(a);
        if t.len() > 0 {
            assert(t[0] == a[0]);
        }
    }
}

} // verus!
