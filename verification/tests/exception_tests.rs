use ukiapi::exception::{HTTPException, Response, ScopedDiError};
use ukiapi::json::JsonValue;
use ukiapi::status::{
    BAD_REQUEST, CREATED, FORBIDDEN, INTERNAL_SERVER_ERROR, NOT_FOUND, OK, UNAUTHORIZED,
};

fn detail_of(body: &JsonValue) -> Option<String> {
    match body {
        JsonValue::Object(es) => es.iter().find(|(k, _)| k == "detail").and_then(|(_, v)| match v {
            JsonValue::Str(s) => Some(s.clone()),
            _ => None,
        }),
        _ => None,
    }
}

#[test]
fn test_http_exception_new() {
    let exc = HTTPException::new(NOT_FOUND, "Resource not found");
    assert_eq!(exc.status_code, NOT_FOUND);
    assert_eq!(exc.detail, "Resource not found");
}

#[test]
fn test_http_exception_display() {
    let exc = HTTPException::new(BAD_REQUEST, "Invalid input");
    let display = exc.to_string();
    assert!(display.contains("400"));
    assert!(display.contains("Invalid input"));
}

#[test]
fn test_http_exception_into_response() {
    let exc = HTTPException::new(UNAUTHORIZED, "Unauthorized access");
    let (status, _) = exc.into_response();
    assert_eq!(status, UNAUTHORIZED);
}

#[test]
fn test_http_exception_response_body() {
    let exc = HTTPException::new(FORBIDDEN, "Forbidden resource");
    let (_, body) = exc.into_response();
    assert_eq!(detail_of(&body).unwrap(), "Forbidden resource");
}

#[test]
fn test_response_new() {
    let response = Response::new(OK, "test body");
    assert_eq!(response.status_code, OK);
    assert_eq!(response.body, "test body");
}

#[test]
fn test_response_into_response() {
    let response = Response::new(CREATED, "created resource");
    let (status, body) = response.into_response();
    assert_eq!(status, CREATED);
    assert_eq!(body, "created resource");
}

#[test]
fn test_http_exception_json_structure() {
    let exc = HTTPException::new(BAD_REQUEST, "Validation failed");
    let (_, body) = exc.into_response();
    assert!(matches!(body, JsonValue::Object(_)));
    assert!(detail_of(&body).is_some());
}

#[test]
fn exception_text_has_status_line() {
    let exc = HTTPException::new(NOT_FOUND, "gone");
    assert_eq!(exc.to_string(), "HTTPException 404 Not Found: gone");
    let odd = HTTPException::new(599, "x");
    assert_eq!(odd.to_string(), "HTTPException 599 <unknown status code>: x");
}

#[test]
fn server_errors_hide_their_detail() {
    let exc = HTTPException::new(INTERNAL_SERVER_ERROR, "db password is hunter2");
    assert_eq!(exc.response_detail(), "Internal Server Error");
    let (status, body) = exc.into_response();
    assert_eq!(status, INTERNAL_SERVER_ERROR);
    assert_eq!(
        body,
        JsonValue::Object(vec![(
            "detail".to_string(),
            JsonValue::Str("Internal Server Error".to_string())
        )])
    );
    assert_eq!(HTTPException::new(503, "busy").response_detail(), "Internal Server Error");
    assert_eq!(HTTPException::new(499, "closed").response_detail(), "closed");
    assert_eq!(HTTPException::new(600, "odd").response_detail(), "odd");
}

#[test]
fn scoped_errors_become_exceptions() {
    let e: HTTPException = ScopedDiError::Message("pool closed".to_string()).into();
    assert_eq!(e.status_code, INTERNAL_SERVER_ERROR);
    assert_eq!(e.detail, "pool closed");
    let inner = HTTPException::new(FORBIDDEN, "no");
    let e: HTTPException = ScopedDiError::Http(inner).into();
    assert_eq!(e.status_code, FORBIDDEN);
    assert_eq!(e.detail, "no");
}

#[test]
fn scoped_error_text() {
    assert_eq!(ScopedDiError::Message("m".to_string()).to_string(), "m");
    let e = ScopedDiError::Http(HTTPException::new(BAD_REQUEST, "bad"));
    assert_eq!(e.to_string(), "HTTPException: HTTPException 400 Bad Request: bad");
}
