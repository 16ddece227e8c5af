//! Response types with a fixed body kind: HTML, plain text, redirects,
//! files and streams. Each says what status line and headers it is sent
//! with.

use vstd::prelude::*;
use crate::headers::{
    has_name, header_insert, header_lookup, header_name_ok, header_value_ok, headers_inserted,
    lemma_header_insert, lemma_headers_inserted, name_char, names_distinct, value_char, HeaderSeq,
    Headers,
};
use crate::status::valid_status;

verus! {

broadcast use vstd::string::group_string_axioms;

/// The name of the content-type header.
pub open spec fn content_type() -> Seq<char> {
    "content-type"@
}

/// The name of the location header.
pub open spec fn location() -> Seq<char> {
    "location"@
}

/// The content type of an HTML body.
pub open spec fn html_type() -> Seq<char> {
    "text/html; charset=utf-8"@
}

/// The content type of a plain-text body.
pub open spec fn text_type() -> Seq<char> {
    "text/plain; charset=utf-8"@
}

/// The content type of bytes of no known kind.
pub open spec fn octet_stream() -> Seq<char> {
    "application/octet-stream"@
}

/// The headers a response is sent with: those that its body kind sets
/// (`base`), then the response's own, in order, and last the content type,
/// which replaces any other.
pub open spec fn typed_headers(base: HeaderSeq, own: HeaderSeq, ctype: Seq<char>) -> HeaderSeq {
    header_insert(headers_inserted(base, own), content_type(), ctype)
}

/// A content type as sent: the given text where `http` accepts it as a
/// header value, else `application/octet-stream`.
pub open spec fn value_or_octet(m: Seq<char>) -> Seq<char> {
    if header_value_ok(m) {
        m
    } else {
        octet_stream()
    }
}

/// The status and headers of a response, as sent.
#[derive(Debug)]
pub struct ResponseHead {
    pub status_code: u16,
    pub headers: Headers,
}

fn content_type_name() -> (s: &'static str)
    ensures
        s@ == content_type(),
        header_name_ok(s@),
{
    let s = "content-type";
    proof {
        reveal_strlit("content-type");
        assert forall|i: int| 0 <= i < s@.len() implies name_char(#[trigger] s@[i]) by {}
    }
    s
}

fn location_name() -> (s: &'static str)
    ensures
        s@ == location(),
        header_name_ok(s@),
{
    let s = "location";
    proof {
        reveal_strlit("location");
        assert forall|i: int| 0 <= i < s@.len() implies name_char(#[trigger] s@[i]) by {}
    }
    s
}

fn html_type_value() -> (s: &'static str)
    ensures
        s@ == html_type(),
        header_value_ok(s@),
{
    let s = "text/html; charset=utf-8";
    proof {
        reveal_strlit("text/html; charset=utf-8");
        assert forall|i: int| 0 <= i < s@.len() implies value_char(#[trigger] s@[i]) by {}
    }
    s
}

fn text_type_value() -> (s: &'static str)
    ensures
        s@ == text_type(),
        header_value_ok(s@),
{
    let s = "text/plain; charset=utf-8";
    proof {
        reveal_strlit("text/plain; charset=utf-8");
        assert forall|i: int| 0 <= i < s@.len() implies value_char(#[trigger] s@[i]) by {}
    }
    s
}

fn octet_stream_value() -> (s: &'static str)
    ensures
        s@ == octet_stream(),
        header_value_ok(s@),
{
    let s = "application/octet-stream";
    proof {
        reveal_strlit("application/octet-stream");
        assert forall|i: int| 0 <= i < s@.len() implies value_char(#[trigger] s@[i]) by {}
    }
    s
}

/// Asks `http::HeaderValue::from_str` whether it accepts the text as a
/// header value. Claims: it does exactly when every character is a tab or
/// at least a space and not DEL, which is the byte check in its source
/// (the bytes of a character beyond ASCII all pass it).
#[verifier::external_body]
fn header_value_accepted(s: &str) -> (r: bool)
    ensures
        r == header_value_ok(s@),
{
    axum::http::HeaderValue::from_str(s).is_ok()
}

/// Headers of one entry, `k: v`.
fn single(k: &str, v: &str) -> (h: Headers)
    requires
        header_name_ok(k@),
        header_value_ok(v@),
    ensures
        h@ == seq![(k@, v@)],
{
    let mut h = Headers::new();
    h.insert(k, v);
    proof {
        crate::headers::lemma_header_insert(Seq::empty(), k@, v@, k@);
        assert(!crate::headers::has_name(Seq::<(Seq<char>, Seq<char>)>::empty(), k@));
        assert(h@ =~= seq![(k@, v@)]);
    }
    h
}

/// The head of a response: the base headers, then `own`, then the content
/// type.
fn typed_head(status_code: u16, base: Headers, own: &Headers, ctype: &str) -> (r: ResponseHead)
    requires
        header_value_ok(ctype@),
    ensures
        r.status_code == status_code,
        r.headers@ == typed_headers(base@, own@, ctype@),
{
    let mut headers = base;
    headers.insert_all(own);
    headers.insert(content_type_name(), ctype);
    ResponseHead { status_code, headers }
}

/// A response with an HTML body.
#[derive(Debug)]
pub struct HTMLResponse {
    pub content: String,
    pub status_code: u16,
    pub headers: Headers,
}

impl HTMLResponse {
    /// An HTML response with status 200 and no headers of its own.
    pub fn new(content: &str) -> (r: Self)
        ensures
            r.content@ == content@,
            r.status_code == 200,
            r.headers@ == Seq::<(Seq<char>, Seq<char>)>::empty(),
    {
        HTMLResponse { content: String::from_str(content), status_code: 200, headers: Headers::new() }
    }

    /// The same response with another status code.
    pub fn with_status(self, status: u16) -> (r: Self)
        requires
            valid_status(status),
        ensures
            r.status_code == status,
            r.content == self.content,
            r.headers == self.headers,
    {
        HTMLResponse { status_code: status, ..self }
    }

    /// The same response with the header `name: value` inserted.
    pub fn with_header(self, name: &str, value: &str) -> (r: Self)
        requires
            header_name_ok(name@),
            header_value_ok(value@),
        ensures
            r.headers@ == header_insert(self.headers@, name@, value@),
            r.status_code == self.status_code,
            r.content == self.content,
    {
        let mut r = self;
        r.headers.insert(name, value);
        r
    }

    /// The head and body it is sent with: its status; its headers after
    /// the HTML content type, the content type last; its content.
    pub fn into_response(self) -> (r: (ResponseHead, String))
        ensures
            r.0.status_code == self.status_code,
            r.0.headers@ == typed_headers(seq![(content_type(), html_type())], self.headers@, html_type()),
            r.1@ == self.content@,
    {
        let base = single(content_type_name(), html_type_value());
        let head = typed_head(self.status_code, base, &self.headers, html_type_value());
        (head, self.content)
    }
}

/// A response with a plain-text body.
#[derive(Debug)]
pub struct PlainTextResponse {
    pub content: String,
    pub status_code: u16,
    pub headers: Headers,
}

impl PlainTextResponse {
    /// A plain-text response with status 200 and no headers of its own.
    pub fn new(content: &str) -> (r: Self)
        ensures
            r.content@ == content@,
            r.status_code == 200,
            r.headers@ == Seq::<(Seq<char>, Seq<char>)>::empty(),
    {
        PlainTextResponse { content: String::from_str(content), status_code: 200, headers: Headers::new() }
    }

    /// The same response with another status code.
    pub fn with_status(self, status: u16) -> (r: Self)
        requires
            valid_status(status),
        ensures
            r.status_code == status,
            r.content == self.content,
            r.headers == self.headers,
    {
        PlainTextResponse { status_code: status, ..self }
    }

    /// The same response with the header `name: value` inserted.
    pub fn with_header(self, name: &str, value: &str) -> (r: Self)
        requires
            header_name_ok(name@),
            header_value_ok(value@),
        ensures
            r.headers@ == header_insert(self.headers@, name@, value@),
            r.status_code == self.status_code,
            r.content == self.content,
    {
        let mut r = self;
        r.headers.insert(name, value);
        r
    }

    /// The head and body it is sent with: its status; its headers after
    /// the plain-text content type, the content type last; its content.
    pub fn into_response(self) -> (r: (ResponseHead, String))
        ensures
            r.0.status_code == self.status_code,
            r.0.headers@ == typed_headers(seq![(content_type(), text_type())], self.headers@, text_type()),
            r.1@ == self.content@,
    {
        let base = single(content_type_name(), text_type_value());
        let head = typed_head(self.status_code, base, &self.headers, text_type_value());
        (head, self.content)
    }
}

/// The status a redirect is sent with: 301 and 308 are sent as 308
/// (permanent), 307 as 307 (temporary), any other as 303 (see other).
pub open spec fn redirect_status(code: u16) -> u16 {
    if code == 301 || code == 308 {
        308
    } else if code == 307 {
        307
    } else {
        303
    }
}

/// The answer when a redirect's URL cannot be a header value.
pub open spec fn bad_location() -> Seq<char> {
    "failed to parse header value"@
}

/// A response that sends the client to another URL.
#[derive(Debug)]
pub struct RedirectResponse {
    pub url: String,
    pub status_code: u16,
}

impl RedirectResponse {
    /// A temporary redirect (307).
    pub fn temporary(url: &str) -> (r: Self)
        ensures
            r.url@ == url@,
            r.status_code == 307,
    {
        RedirectResponse { url: String::from_str(url), status_code: 307 }
    }

    /// A permanent redirect (308).
    pub fn permanent(url: &str) -> (r: Self)
        ensures
            r.url@ == url@,
            r.status_code == 308,
    {
        RedirectResponse { url: String::from_str(url), status_code: 308 }
    }

    /// A redirect to be followed with GET (303 See Other).
    pub fn to(url: &str) -> (r: Self)
        ensures
            r.url@ == url@,
            r.status_code == 303,
    {
        RedirectResponse { url: String::from_str(url), status_code: 303 }
    }

    /// The head and body it is sent with: the redirect status and a
    /// `location` header with an empty body, or, where the URL cannot be a
    /// header value, 500 with a plain-text message.
    pub fn into_response(self) -> (r: (ResponseHead, String))
        ensures
            header_value_ok(self.url@) ==> {
                &&& r.0.status_code == redirect_status(self.status_code)
                &&& r.0.headers@ == seq![(location(), self.url@)]
                &&& r.1@ == Seq::<char>::empty()
            },
            !header_value_ok(self.url@) ==> {
                &&& r.0.status_code == 500
                &&& r.0.headers@ == seq![(content_type(), text_type())]
                &&& r.1@ == bad_location()
            },
    {
        if header_value_accepted(self.url.as_str()) {
            let code: u16 = if self.status_code == 301 || self.status_code == 308 {
                308
            } else if self.status_code == 307 {
                307
            } else {
                303
            };
            let headers = single(location_name(), self.url.as_str());
            (ResponseHead { status_code: code, headers }, String::new())
        } else {
            let headers = single(content_type_name(), text_type_value());
            (ResponseHead { status_code: 500, headers }, String::from_str("failed to parse header value"))
        }
    }
}

/// The first MIME type that `mime_guess` registers for the extension of
/// the path, if any.
pub uninterp spec fn mime_first_guess(path: Seq<char>) -> Option<Seq<char>>;

/// Calls `mime_guess::from_path(path).first_raw()`. Claims: the result is
/// the registered first guess for the path, a fixed function of the path;
/// a path without a `.` has no extension, hence no guess.
#[verifier::external_body]
fn guess_mime(path: &str) -> (r: Option<&'static str>)
    ensures
        match r {
            Some(m) => mime_first_guess(path@) == Some(m@),
            None => mime_first_guess(path@) is None,
        },
        !path@.contains('.') ==> r is None,
{
    mime_guess::from_path(path).first_raw()
}

/// The content type a file is served with: the given media type, else the
/// type guessed from the path, else `application/octet-stream`.
pub open spec fn file_media(media_type: Option<Seq<char>>, path: Seq<char>) -> Seq<char> {
    match media_type {
        Some(m) => m,
        None => match mime_first_guess(path) {
            Some(g) => g,
            None => octet_stream(),
        },
    }
}

/// The body a missing file is answered with.
pub open spec fn file_not_found() -> Seq<char> {
    "File not found"@
}

/// The view of an optional string.
pub open spec fn opt_string(o: Option<String>) -> Option<Seq<char>> {
    match o {
        Some(s) => Some(s@),
        None => None,
    }
}

/// A response that serves a file from disk.
#[derive(Debug)]
pub struct FileResponse {
    pub path: String,
    pub status_code: u16,
    pub headers: Headers,
    pub media_type: Option<String>,
}

impl FileResponse {
    /// A file response with status 200, no headers of its own, and no media
    /// type.
    pub fn new(path: &str) -> (r: Self)
        ensures
            r.path@ == path@,
            r.status_code == 200,
            r.headers@ == Seq::<(Seq<char>, Seq<char>)>::empty(),
            r.media_type is None,
    {
        FileResponse { path: String::from_str(path), status_code: 200, headers: Headers::new(), media_type: None }
    }

    /// The same response with the given media type.
    pub fn with_media_type(self, media_type: &str) -> (r: Self)
        ensures
            opt_string(r.media_type) == Some(media_type@),
            r.path == self.path,
            r.status_code == self.status_code,
            r.headers == self.headers,
    {
        FileResponse { media_type: Some(String::from_str(media_type)), ..self }
    }

    /// The same response with another status code.
    pub fn with_status(self, status: u16) -> (r: Self)
        requires
            valid_status(status),
        ensures
            r.status_code == status,
            r.path == self.path,
            r.headers == self.headers,
            r.media_type == self.media_type,
    {
        FileResponse { status_code: status, ..self }
    }

    /// The same response with the header `name: value` inserted.
    pub fn with_header(self, name: &str, value: &str) -> (r: Self)
        requires
            header_name_ok(name@),
            header_value_ok(value@),
        ensures
            r.headers@ == header_insert(self.headers@, name@, value@),
            r.status_code == self.status_code,
            r.path == self.path,
            r.media_type == self.media_type,
    {
        let mut r = self;
        r.headers.insert(name, value);
        r
    }

    /// The content type the file is served with.
    pub fn media(&self) -> (m: String)
        ensures
            m@ == value_or_octet(file_media(opt_string(self.media_type), self.path@)),
    {
        let m: String = match &self.media_type {
            Some(t) => t.clone(),
            None => match guess_mime(self.path.as_str()) {
                Some(g) => String::from_str(g),
                None => String::from_str(octet_stream_value()),
            },
        };
        if header_value_accepted(m.as_str()) {
            m
        } else {
            String::from_str(octet_stream_value())
        }
    }

    /// The head the response is sent with, and its body where it is not
    /// the file itself. `opened` says whether the file could be opened: if
    /// not, 404 with the plain-text body `File not found`; if so, its
    /// status and its headers, the content type last, with the file's
    /// bytes as the body (`None`).
    pub fn into_response(self, opened: bool) -> (r: (ResponseHead, Option<String>))
        ensures
            !opened ==> {
                &&& r.0.status_code == 404
                &&& r.0.headers@ == seq![(content_type(), text_type())]
                &&& opt_string(r.1) == Some(file_not_found())
            },
            opened ==> {
                &&& r.0.status_code == self.status_code
                &&& r.0.headers@ == typed_headers(
                    Seq::empty(),
                    self.headers@,
                    value_or_octet(file_media(opt_string(self.media_type), self.path@)),
                )
                &&& r.1 is None
            },
    {
        if !opened {
            let headers = single(content_type_name(), text_type_value());
            return (ResponseHead { status_code: 404, headers }, Some(String::from_str("File not found")));
        }
        let m = self.media();
        proof {
            reveal_strlit("application/octet-stream");
        }
        assert(header_value_ok(m@)) by {
            if !header_value_ok(file_media(opt_string(self.media_type), self.path@)) {
                assert(m@ == octet_stream());
            }
        }
        let head = typed_head(self.status_code, Headers::new(), &self.headers, m.as_str());
        (head, None)
    }
}

/// A response whose body is a stream of chunks.
#[derive(Debug)]
pub struct StreamingResponse<S> {
    pub stream: S,
    pub status_code: u16,
    pub headers: Headers,
    pub media_type: String,
}

impl<S> StreamingResponse<S> {
    /// A streaming response with status 200, no headers of its own, and the
    /// media type `application/octet-stream`.
    pub fn new(stream: S) -> (r: Self)
        ensures
            r.stream == stream,
            r.status_code == 200,
            r.headers@ == Seq::<(Seq<char>, Seq<char>)>::empty(),
            r.media_type@ == octet_stream(),
    {
        StreamingResponse {
            stream,
            status_code: 200,
            headers: Headers::new(),
            media_type: String::from_str(octet_stream_value()),
        }
    }

    /// The same response with the given media type.
    pub fn with_media_type(self, media_type: &str) -> (r: Self)
        ensures
            r.media_type@ == media_type@,
            r.stream == self.stream,
            r.status_code == self.status_code,
            r.headers == self.headers,
    {
        StreamingResponse { media_type: String::from_str(media_type), ..self }
    }

    /// The same response with another status code.
    pub fn with_status(self, status: u16) -> (r: Self)
        requires
            valid_status(status),
        ensures
            r.status_code == status,
            r.stream == self.stream,
            r.headers == self.headers,
            r.media_type == self.media_type,
    {
        StreamingResponse { status_code: status, ..self }
    }

    /// The same response with the header `name: value` inserted.
    pub fn with_header(self, name: &str, value: &str) -> (r: Self)
        requires
            header_name_ok(name@),
            header_value_ok(value@),
        ensures
            r.headers@ == header_insert(self.headers@, name@, value@),
            r.status_code == self.status_code,
            r.stream == self.stream,
            r.media_type == self.media_type,
    {
        let mut r = self;
        r.headers.insert(name, value);
        r
    }

    /// The head it is sent with, and the stream that makes its body: its
    /// status; its headers, then the media type as content type (or
    /// `application/octet-stream` where the media type cannot be a header
    /// value).
    pub fn into_response(self) -> (r: (ResponseHead, S))
        ensures
            r.0.status_code == self.status_code,
            r.0.headers@ == typed_headers(Seq::empty(), self.headers@, value_or_octet(self.media_type@)),
            r.1 == self.stream,
    {
        let ctype: &str = if header_value_accepted(self.media_type.as_str()) {
            self.media_type.as_str()
        } else {
            octet_stream_value()
        };
        let head = typed_head(self.status_code, Headers::new(), &self.headers, ctype);
        (head, self.stream)
    }
}

} // verus!

verus! {

/// Whatever headers a response sets itself, it is sent with the content
/// type that its kind fixes.
pub proof fn lemma_content_type_forced(base: HeaderSeq, own: HeaderSeq, ctype: Seq<char>)
    requires
        names_distinct(base),
        names_distinct(own),
    ensures
        header_lookup(typed_headers(base, own, ctype), content_type()) == Some(ctype),
        names_distinct(typed_headers(base, own, ctype)),
{
    lemma_headers_inserted(base, own, content_type());
    lemma_header_insert(headers_inserted(base, own), content_type(), ctype, content_type());
}

/// Every header that a response sets itself, other than the content type,
/// is sent with the value it was last given; a header it does not set is
/// sent as its body kind sets it, or not at all.
pub proof fn lemma_own_headers_sent(base: HeaderSeq, own: HeaderSeq, ctype: Seq<char>, k: Seq<char>)
    requires
        names_distinct(base),
        names_distinct(own),
        k != content_type(),
    ensures
        header_lookup(typed_headers(base, own, ctype), k) == if has_name(own, k) {
            header_lookup(own, k)
        } else {
            header_lookup(base, k)
        },
{
    lemma_headers_inserted(base, own, k);
    lemma_header_insert(headers_inserted(base, own), content_type(), ctype, k);
}

} // verus!

verus! {

/// Each redirect constructor's status is the status the redirect is sent
/// with; a 301 is sent as a permanent 308.
pub proof fn lemma_redirect_status(code: u16)
    ensures
        (code == 303 || code == 307 || code == 308) ==> redirect_status(code) == code,
        code == 301 ==> redirect_status(code) == 308,
        redirect_status(code) == 303 || redirect_status(code) == 307 || redirect_status(code) == 308,
{
}

} // verus!
