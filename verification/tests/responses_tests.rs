use std::path::PathBuf;
use ukiapi::headers::Headers;
use ukiapi::responses::{
    FileResponse, HTMLResponse, PlainTextResponse, RedirectResponse,
    StreamingResponse,
};
use ukiapi::status::{
    CREATED, INTERNAL_SERVER_ERROR, NOT_FOUND, OK, PERMANENT_REDIRECT, SEE_OTHER,
    TEMPORARY_REDIRECT,
};

fn header<'a>(h: &'a Headers, name: &str) -> Option<&'a str> {
    h.entries().iter().find(|(k, _)| k == name).map(|(_, v)| v.as_str())
}

fn chunks() -> Vec<Result<Vec<u8>, std::io::Error>> {
    vec![Ok(vec![1, 2, 3]), Ok(vec![4, 5, 6])]
}

#[test]
fn test_html_response_new() {
    let response = HTMLResponse::new("<h1>Hello</h1>");
    assert_eq!(response.status_code, OK);
    assert_eq!(response.content, "<h1>Hello</h1>");
}

#[test]
fn test_html_response_with_status() {
    let response = HTMLResponse::new("<h1>Hello</h1>").with_status(CREATED);
    assert_eq!(response.status_code, CREATED);
}

#[test]
fn test_html_response_content_type() {
    let (head, _) = HTMLResponse::new("<h1>Hello</h1>").into_response();
    assert_eq!(
        header(&head.headers, "content-type").unwrap(),
        "text/html; charset=utf-8"
    );
}

#[test]
fn test_plaintext_response_new() {
    let response = PlainTextResponse::new("Hello, World!");
    assert_eq!(response.status_code, OK);
    assert_eq!(response.content, "Hello, World!");
}

#[test]
fn test_plaintext_response_with_status() {
    let response = PlainTextResponse::new("Not Found").with_status(NOT_FOUND);
    assert_eq!(response.status_code, NOT_FOUND);
}

#[test]
fn test_plaintext_response_content_type() {
    let (head, _) = PlainTextResponse::new("Hello").into_response();
    assert_eq!(
        header(&head.headers, "content-type").unwrap(),
        "text/plain; charset=utf-8"
    );
}

#[test]
fn test_plaintext_response_body() {
    let (_, body) = PlainTextResponse::new("Test content").into_response();
    assert_eq!(body, "Test content");
}

#[test]
fn test_redirect_response_temporary() {
    let response = RedirectResponse::temporary("/new-location");
    assert_eq!(response.status_code, TEMPORARY_REDIRECT);
    assert_eq!(response.url, "/new-location");
}

#[test]
fn test_redirect_response_permanent() {
    let response = RedirectResponse::permanent("/permanent-location");
    assert_eq!(response.status_code, PERMANENT_REDIRECT);
    assert_eq!(response.url, "/permanent-location");
}

#[test]
fn test_redirect_response_to() {
    let response = RedirectResponse::to("/see-other");
    assert_eq!(response.status_code, SEE_OTHER);
    assert_eq!(response.url, "/see-other");
}

#[test]
fn test_redirect_response_temporary_into_response() {
    let (head, _) = RedirectResponse::temporary("/temp").into_response();
    assert_eq!(head.status_code, TEMPORARY_REDIRECT);
}

#[test]
fn test_redirect_response_permanent_into_response() {
    let (head, _) = RedirectResponse::permanent("/perm").into_response();
    assert_eq!(head.status_code, PERMANENT_REDIRECT);
}

#[test]
fn test_file_response_new() {
    let response = FileResponse::new("/path/to/file.txt");
    assert_eq!(response.status_code, OK);
    assert_eq!(PathBuf::from(&response.path), PathBuf::from("/path/to/file.txt"));
    assert!(response.media_type.is_none());
}

#[test]
fn test_file_response_with_media_type() {
    let response = FileResponse::new("/path/to/file.txt").with_media_type("text/plain");
    assert_eq!(response.media_type, Some("text/plain".to_string()));
}

#[test]
fn test_file_response_missing_file() {
    // The file does not exist, so it cannot be opened.
    let (head, body) = FileResponse::new("/nonexistent/file.txt").into_response(false);
    assert_eq!(head.status_code, NOT_FOUND);
    assert_eq!(body.unwrap(), "File not found");
}

#[test]
fn test_streaming_response_new() {
    let response = StreamingResponse::new(chunks());
    assert_eq!(response.status_code, OK);
    assert_eq!(response.media_type, "application/octet-stream");
}

#[test]
fn test_streaming_response_with_media_type() {
    let response = StreamingResponse::new(chunks()).with_media_type("text/plain");
    assert_eq!(response.media_type, "text/plain");
}

#[test]
fn test_streaming_response_with_status() {
    let response = StreamingResponse::new(chunks()).with_status(206);
    assert_eq!(response.status_code, 206);
}

#[test]
fn own_headers_kept_and_content_type_forced() {
    let (head, body) = HTMLResponse::new("<p>x</p>")
        .with_header("x-trace", "abc")
        .with_header("content-type", "application/json")
        .with_header("x-trace", "def")
        .with_status(CREATED)
        .into_response();
    assert_eq!(head.status_code, CREATED);
    assert_eq!(body, "<p>x</p>");
    let names: Vec<&str> = head.headers.entries().iter().map(|(k, _)| k.as_str()).collect();
    assert_eq!(names, vec!["content-type", "x-trace"]);
    assert_eq!(header(&head.headers, "x-trace").unwrap(), "def");
    assert_eq!(
        header(&head.headers, "content-type").unwrap(),
        "text/html; charset=utf-8"
    );
}

#[test]
fn plain_text_keeps_its_type_whatever_is_set() {
    let (head, _) = PlainTextResponse::new("hi")
        .with_header("content-type", "text/html")
        .into_response();
    assert_eq!(head.headers.entries().len(), 1);
    assert_eq!(
        header(&head.headers, "content-type").unwrap(),
        "text/plain; charset=utf-8"
    );
}

#[test]
fn redirect_statuses_and_location() {
    let mut r = RedirectResponse::to("/x");
    r.status_code = 301;
    let (head, body) = r.into_response();
    assert_eq!(head.status_code, PERMANENT_REDIRECT);
    assert_eq!(header(&head.headers, "location").unwrap(), "/x");
    assert_eq!(body, "");
    let (head, _) = RedirectResponse::to("/y").into_response();
    assert_eq!(head.status_code, SEE_OTHER);
    let mut r = RedirectResponse::to("/z");
    r.status_code = 302;
    assert_eq!(r.into_response().0.status_code, SEE_OTHER);
}

#[test]
fn redirect_to_an_impossible_location() {
    let (head, body) = RedirectResponse::temporary("/a\nb").into_response();
    assert_eq!(head.status_code, INTERNAL_SERVER_ERROR);
    assert_eq!(body, "failed to parse header value");
    assert_eq!(
        header(&head.headers, "content-type").unwrap(),
        "text/plain; charset=utf-8"
    );
}

#[test]
fn file_media_type_choice() {
    assert_eq!(FileResponse::new("/a/report.pdf").media(), "application/pdf");
    assert_eq!(FileResponse::new("/a/page.HTML").media(), "text/html");
    assert_eq!(FileResponse::new("/a/noext").media(), "application/octet-stream");
    assert_eq!(
        FileResponse::new("/a/b.txt").with_media_type("text/csv").media(),
        "text/csv"
    );
    assert_eq!(
        FileResponse::new("/a/b.txt").with_media_type("bad\u{7f}").media(),
        "application/octet-stream"
    );
}

#[test]
fn opened_file_is_streamed_with_its_headers() {
    let (head, body) = FileResponse::new("/srv/logo.png")
        .with_header("cache-control", "max-age=60")
        .with_status(CREATED)
        .into_response(true);
    assert!(body.is_none());
    assert_eq!(head.status_code, CREATED);
    let entries: Vec<(String, String)> = head.headers.entries().clone();
    assert_eq!(
        entries,
        vec![
            ("cache-control".to_string(), "max-age=60".to_string()),
            ("content-type".to_string(), "image/png".to_string())
        ]
    );
}

#[test]
fn streaming_head_uses_its_media_type() {
    let (head, stream) = StreamingResponse::new(chunks()).with_media_type("text/csv").into_response();
    assert_eq!(stream.len(), 2);
    assert_eq!(header(&head.headers, "content-type").unwrap(), "text/csv");
    let (head, _) = StreamingResponse::new(chunks()).with_media_type("a\u{0}b").into_response();
    assert_eq!(
        header(&head.headers, "content-type").unwrap(),
        "application/octet-stream"
    );
}

#[test]
fn header_values_as_http_accepts_them() {
    let location = |url: &str| RedirectResponse::to(url).into_response().0.status_code;
    assert_eq!(location("/plain?q=1"), SEE_OTHER);
    assert_eq!(location("/tab\there"), SEE_OTHER);
    assert_eq!(location("/caf\u{e9}"), SEE_OTHER);
    assert_eq!(location("/line\nbreak"), INTERNAL_SERVER_ERROR);
    assert_eq!(location("/del\u{7f}"), INTERNAL_SERVER_ERROR);
}
