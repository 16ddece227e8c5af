//! Errors that a handler or an extractor answers with, and the response
//! each of them becomes.

use vstd::prelude::*;
use crate::json::{Json, JsonValue};
use crate::status::{status_line, status_text, valid_status};
use crate::text::concat;

verus! {

/// The detail that a response shows for a server error: the message itself
/// stays on the server.
pub open spec fn masked_detail() -> Seq<char> {
    "Internal Server Error"@
}

/// A structured exception that is answered as `{"detail": ...}` with its
/// status code.
#[derive(Debug)]
pub struct HTTPException {
    pub status_code: u16,
    pub detail: String,
}

impl HTTPException {
    /// The text of the exception: `HTTPException <code> <reason>: <detail>`.
    pub open spec fn display(self) -> Seq<char> {
        "HTTPException "@ + status_line(self.status_code) + ": "@ + self.detail@
    }

    /// The detail that the response carries: the exception's own detail,
    /// except for a server error (500 to 599), whose detail is replaced.
    pub open spec fn shown_detail(self) -> Seq<char> {
        if 500 <= self.status_code < 600 {
            masked_detail()
        } else {
            self.detail@
        }
    }

    /// The JSON body of the response.
    pub open spec fn body_view(self) -> Json {
        Json::Object(seq![("detail"@, Json::Str(self.shown_detail()))])
    }

    /// Creates an exception with a status code and a detail.
    pub fn new(status_code: u16, detail: &str) -> (r: Self)
        requires
            valid_status(status_code),
        ensures
            r.status_code == status_code,
            r.detail@ == detail@,
    {
        HTTPException { status_code, detail: String::from_str(detail) }
    }

    /// The exception written out as text.
    pub fn to_string(&self) -> (s: String)
        requires
            valid_status(self.status_code),
        ensures
            s@ == self.display(),
    {
        let mut s = String::from_str("HTTPException ");
        let line = status_text(self.status_code);
        s.append(line.as_str());
        s.append(": ");
        s.append(self.detail.as_str());
        s
    }

    /// The detail that the response shows.
    pub fn response_detail(&self) -> (s: String)
        ensures
            s@ == self.shown_detail(),
    {
        if 500 <= self.status_code && self.status_code < 600 {
            String::from_str("Internal Server Error")
        } else {
            self.detail.clone()
        }
    }

    /// The JSON body of the response: an object with the one member
    /// `detail`.
    pub fn response_body(&self) -> (j: JsonValue)
        ensures
            j@ == self.body_view(),
    {
        let d = self.response_detail();
        let mut es: Vec<(String, JsonValue)> = Vec::new();
        es.push((String::from_str("detail"), JsonValue::Str(d)));
                proof {
            broadcast use crate::json::group_json_view;
            assert(crate::json::view_entries(es@) =~= seq![("detail"@, Json::Str(self.shown_detail()))]);
        }
        JsonValue::Object(es)
    }

    /// The response the exception becomes: its status code and its body.
    pub fn into_response(self) -> (r: (u16, JsonValue))
        ensures
            r.0 == self.status_code,
            r.1@ == self.body_view(),
    {
        let body = self.response_body();
        (self.status_code, body)
    }
}

/// A wrapper that gives a response body an explicit status code.
#[derive(Debug)]
pub struct Response<T> {
    pub status_code: u16,
    pub body: T,
}

impl<T> Response<T> {
    /// Creates a response with the given status code and body.
    pub fn new(status_code: u16, body: T) -> (r: Self)
        requires
            valid_status(status_code),
        ensures
            r.status_code == status_code,
            r.body == body,
    {
        Response { status_code, body }
    }

    /// The status code and the body, as the response is sent.
    pub fn into_response(self) -> (r: (u16, T))
        ensures
            r.0 == self.status_code,
            r.1 == self.body,
    {
        (self.status_code, self.body)
    }
}

/// An error met while resolving a request-scoped dependency.
#[derive(Debug)]
pub enum ScopedDiError {
    /// A plain message.
    Message(String),
    /// An exception built beforehand.
    Http(HTTPException),
}

impl ScopedDiError {
    /// The text of the error: the message itself, or `HTTPException: `
    /// followed by the exception's text.
    pub open spec fn display(self) -> Seq<char> {
        match self {
            ScopedDiError::Message(m) => m@,
            ScopedDiError::Http(e) => "HTTPException: "@ + e.display(),
        }
    }

    /// The error written out as text.
    pub fn to_string(&self) -> (s: String)
        requires
            self matches ScopedDiError::Http(e) ==> valid_status(e.status_code),
        ensures
            s@ == self.display(),
    {
        match self {
            ScopedDiError::Message(m) => m.clone(),
            ScopedDiError::Http(e) => {
                let t = e.to_string();
                concat("HTTPException: ", t.as_str())
            },
        }
    }
}

/// The exception that answers a scoped-dependency error: a message becomes
/// an internal server error carrying it, an exception is answered as is.
pub open spec fn exception_of(err: ScopedDiError) -> HTTPException {
    match err {
        ScopedDiError::Message(m) => HTTPException { status_code: 500, detail: m },
        ScopedDiError::Http(e) => e,
    }
}

impl From<ScopedDiError> for HTTPException {
    fn from(err: ScopedDiError) -> (r: HTTPException) {
        match err {
            ScopedDiError::Message(m) => HTTPException { status_code: 500, detail: m },
            ScopedDiError::Http(e) => e,
        }
    }
}

impl vstd::std_specs::convert::FromSpecImpl<ScopedDiError> for HTTPException {
    open spec fn obeys_from_spec() -> bool {
        true
    }

    open spec fn from_spec(err: ScopedDiError) -> HTTPException {
        exception_of(err)
    }
}

} // verus!

verus! {

/// A server error (500 to 599) is answered without its detail; any other
/// exception is answered with it.
pub proof fn lemma_server_errors_masked(e: HTTPException)
    ensures
        500 <= e.status_code < 600 ==> e.body_view() == Json::Object(
            seq![("detail"@, Json::Str(masked_detail()))],
        ),
        !(500 <= e.status_code < 600) ==> e.body_view() == Json::Object(
            seq![("detail"@, Json::Str(e.detail@))],
        ),
{
}

} // verus!
