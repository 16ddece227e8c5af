use ukiapi::auth::{
    decode_jwt, encode_jwt, token_outcome, white_space, HTTPBearer, JWTAuth, OAuth2PasswordBearer,
};
use ukiapi::dependencies::security;
use ukiapi::json::JsonValue;
use ukiapi::status::UNAUTHORIZED;

struct TestDependency;

fn claims(sub: &str, exp: u64) -> String {
    format!("{{\"sub\":\"{}\",\"exp\":{}}}", sub, exp)
}

fn claim_of(claims: &JsonValue, key: &str) -> serde_json::Value {
    let members = match claims {
        JsonValue::Object(es) => es,
        _ => panic!("claims are an object"),
    };
    match members.iter().find(|(k, _)| k == key).map(|(_, v)| v) {
        Some(JsonValue::Str(s)) => serde_json::Value::String(s.clone()),
        Some(JsonValue::Number(n)) => serde_json::from_str(n).unwrap(),
        _ => serde_json::Value::Null,
    }
}

#[test]
fn test_http_bearer_extract_valid() {
    let token = HTTPBearer::extract(Some("Bearer test_token_123")).unwrap();
    assert_eq!(token, "test_token_123");
}

#[test]
fn test_http_bearer_extract_missing_header() {
    let result = HTTPBearer::extract(None);
    assert!(result.is_err());
    assert_eq!(result.unwrap_err().status_code, UNAUTHORIZED);
}

#[test]
fn test_http_bearer_extract_wrong_format() {
    let result = HTTPBearer::extract(Some("Basic dXNlcjpwYXNz"));
    assert!(result.is_err());
    assert_eq!(result.unwrap_err().status_code, UNAUTHORIZED);
}

#[test]
fn test_http_bearer_extract_with_extra_spaces() {
    let token = HTTPBearer::extract(Some("Bearer  token_with_spaces")).unwrap();
    assert_eq!(token, "token_with_spaces");
}

#[test]
fn test_encode_decode_jwt_roundtrip() {
    let secret = "test_secret";
    let token = encode_jwt(&claims("user123", 9999999999), secret).unwrap();
    let decoded = decode_jwt(&token, secret).unwrap();
    assert_eq!(claim_of(&decoded, "sub"), "user123");
    assert_eq!(claim_of(&decoded, "exp"), 9999999999u64);
}

#[test]
fn test_decode_jwt_wrong_secret() {
    let token = encode_jwt(&claims("user123", 9999999999), "correct_secret").unwrap();
    let result = decode_jwt(&token, "wrong_secret");
    assert!(result.is_err());
}

#[test]
fn test_encode_jwt_produces_valid_token() {
    let token = encode_jwt(&claims("test_user", 9999999999), "secret").unwrap();
    assert!(!token.is_empty());
    assert!(token.contains('.'));
}

#[test]
fn test_oauth2_password_bearer_new() {
    let oauth = OAuth2PasswordBearer::new("/api/login");
    assert_eq!(oauth.token_url, "/api/login");
}

#[test]
fn test_http_bearer_extract_empty_token() {
    let token = HTTPBearer::extract(Some("Bearer ")).unwrap();
    assert!(token.is_empty());
}

#[test]
fn test_http_bearer_extract_case_insensitive() {
    let token = HTTPBearer::extract(Some("bearer my_token")).unwrap();
    assert_eq!(token, "my_token");
}

#[test]
fn test_security_helper() {
    let _security = security::<TestDependency, ()>();
}

#[test]
fn bearer_refusal_details() {
    let missing = HTTPBearer::extract(None).unwrap_err();
    assert_eq!(missing.detail, "Missing Authorization header");
    let wrong = HTTPBearer::extract(Some("Token abc")).unwrap_err();
    assert_eq!(wrong.status_code, UNAUTHORIZED);
    assert_eq!(
        wrong.detail,
        "Invalid Authorization header format. Expected 'Bearer <token>'"
    );
    let short = HTTPBearer::extract(Some("Bearer")).unwrap_err();
    assert_eq!(short.status_code, UNAUTHORIZED);
}

#[test]
fn bearer_scheme_in_any_case_and_token_trimmed() {
    assert_eq!(HTTPBearer::extract(Some("BEARER abc")).unwrap(), "abc");
    assert_eq!(HTTPBearer::extract(Some("BeArEr \t abc \t")).unwrap(), "abc");
    assert_eq!(HTTPBearer::extract(Some("Bearer a b")).unwrap(), "a b");
    assert_eq!(HTTPBearer::extract(Some("Bearer \u{3000}x\u{a0}")).unwrap(), "x");
}

#[test]
fn bearer_token_read_back_as_sent() {
    for t in ["abc", "a.b.c", "x y", ""] {
        let header = format!("Bearer {}", t);
        assert_eq!(HTTPBearer::extract(Some(header.as_str())).unwrap(), t);
    }
}

#[test]
fn white_space_is_unicode_white_space() {
    for c in ['\t', '\n', '\u{b}', '\u{c}', '\r', ' ', '\u{85}', '\u{a0}', '\u{1680}', '\u{2000}', '\u{200a}', '\u{2028}', '\u{2029}', '\u{202f}', '\u{205f}', '\u{3000}'] {
        assert!(white_space(c));
        assert!(c.is_whitespace());
    }
    for c in ['a', '_', '\u{200b}', '\u{feff}'] {
        assert!(!white_space(c));
        assert_eq!(c.is_whitespace(), false);
    }
}

#[test]
fn oauth2_resolve_gives_the_token() {
    assert_eq!(OAuth2PasswordBearer::resolve(Some("Bearer t0k")).unwrap(), "t0k");
    assert_eq!(
        OAuth2PasswordBearer::resolve(None).unwrap_err().status_code,
        UNAUTHORIZED
    );
}

#[test]
fn jwt_auth_outcomes() {
    let secret = "s3cret";
    let token = encode_jwt(&claims("alice", 9999999999), secret).unwrap();
    let header = format!("Bearer {}", token);
    let ok = JWTAuth::resolve(Some(header.as_str()), Some(secret)).unwrap();
    assert_eq!(claim_of(&ok, "sub"), "alice");

    let not_default = JWTAuth::resolve(Some(header.as_str()), None).unwrap_err();
    assert_eq!(not_default.status_code, UNAUTHORIZED);

    let wrong = JWTAuth::resolve(Some(header.as_str()), Some("other")).unwrap_err();
    assert_eq!(wrong.status_code, UNAUTHORIZED);
    assert!(wrong.detail.starts_with("Invalid token: "));

    let missing = JWTAuth::resolve(None, Some(secret)).unwrap_err();
    assert_eq!(missing.detail, "Missing Authorization header");
}

#[test]
fn unset_secret_falls_back_to_secret() {
    let token = encode_jwt(&claims("carol", 9999999999), "secret").unwrap();
    let header = format!("Bearer {}", token);
    let ok = JWTAuth::resolve(Some(header.as_str()), None).unwrap();
    assert_eq!(claim_of(&ok, "sub"), "carol");
    assert_eq!(ok, JWTAuth::resolve(Some(header.as_str()), Some("secret")).unwrap());
}

#[test]
fn expired_token_is_refused() {
    let token = encode_jwt(&claims("bob", 1000), "k").unwrap();
    let header = format!("Bearer {}", token);
    let e = JWTAuth::resolve(Some(header.as_str()), Some("k")).unwrap_err();
    assert_eq!(e.status_code, UNAUTHORIZED);
    assert!(e.detail.starts_with("Invalid token: "));
}

#[test]
fn token_outcome_maps_errors() {
    let ok = token_outcome(Ok(JsonValue::Object(vec![]))).unwrap();
    assert_eq!(ok, JsonValue::Object(vec![]));
    let e = token_outcome(Err("InvalidSignature".to_string())).unwrap_err();
    assert_eq!(e.status_code, UNAUTHORIZED);
    assert_eq!(e.detail, "Invalid token: InvalidSignature");
}

#[test]
fn token_verifies_with_the_claims_as_read() {
    let token = encode_jwt(" { \"sub\" : \"d\", \"exp\": 9999999999 } ", "k").unwrap();
    let decoded = decode_jwt(&token, "k").unwrap();
    let expected: serde_json::Value = serde_json::from_str("{\"exp\":9999999999,\"sub\":\"d\"}").unwrap();
    assert_eq!(claim_of(&decoded, "sub"), expected["sub"]);
    assert_eq!(claim_of(&decoded, "exp"), expected["exp"]);
    match decoded {
        JsonValue::Object(es) => assert_eq!(es.len(), 2),
        _ => panic!("claims are an object"),
    }
}

#[test]
fn encode_rejects_claims_that_are_not_json() {
    assert!(encode_jwt("not json", "k").is_err());
}

#[test]
fn encode_is_deterministic_and_depends_on_the_secret() {
    let c = claims("u", 9999999999);
    let a = encode_jwt(&c, "k1").unwrap();
    let b = encode_jwt(&c, "k1").unwrap();
    let other = encode_jwt(&c, "k2").unwrap();
    assert_eq!(a, b);
    assert_ne!(a, other);
    assert_eq!(a.matches('.').count(), 2);
}
