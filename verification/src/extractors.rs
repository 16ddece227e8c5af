//! How a request whose query or JSON body cannot be read, or does not
//! validate, is answered: 422 with a JSON detail.

use vstd::prelude::*;
use crate::json::{Json, JsonValue};
use crate::text::concat;

verus! {

/// The status of every rejection here: 422 Unprocessable Entity.
pub open spec fn unprocessable() -> u16 {
    422
}

/// The body of a rejected query string: its detail and `errors: null`.
pub open spec fn query_rejection_json(e: Seq<char>) -> Json {
    Json::Object(seq![
        ("detail"@, Json::Str("Invalid query parameters: "@ + e)),
        ("errors"@, Json::Null),
    ])
}

/// The body of a request that is not valid JSON for the expected type.
pub open spec fn json_rejection_json(e: Seq<char>) -> Json {
    Json::Object(seq![("detail"@, Json::Str("Invalid JSON: "@ + e))])
}

/// The body of a value that did not validate.
pub open spec fn validation_rejection_json(e: Seq<char>) -> Json {
    Json::Object(seq![("detail"@, Json::Str("Validation failed: "@ + e))])
}

/// The answer to a query string that could not be read.
pub fn query_rejection(e: &str) -> (r: (u16, JsonValue))
    ensures
        r.0 == unprocessable(),
        r.1@ == query_rejection_json(e@),
{
    let mut es: Vec<(String, JsonValue)> = Vec::new();
    es.push((String::from_str("detail"), JsonValue::Str(concat("Invalid query parameters: ", e))));
    es.push((String::from_str("errors"), JsonValue::Null));
    proof {
        broadcast use crate::json::group_json_view;
        assert(crate::json::view_entries(es@) =~= seq![
            ("detail"@, Json::Str("Invalid query parameters: "@ + e@)),
            ("errors"@, Json::Null),
        ]);
    }
    (422, JsonValue::Object(es))
}

/// The answer to a body that is not valid JSON for the expected type.
pub fn json_rejection(e: &str) -> (r: (u16, JsonValue))
    ensures
        r.0 == unprocessable(),
        r.1@ == json_rejection_json(e@),
{
    let mut es: Vec<(String, JsonValue)> = Vec::new();
    es.push((String::from_str("detail"), JsonValue::Str(concat("Invalid JSON: ", e))));
    proof {
        broadcast use crate::json::group_json_view;
        assert(crate::json::view_entries(es@) =~= seq![("detail"@, Json::Str("Invalid JSON: "@ + e@))]);
    }
    (422, JsonValue::Object(es))
}

/// The answer to a value that did not validate.
pub fn validation_rejection(e: &str) -> (r: (u16, JsonValue))
    ensures
        r.0 == unprocessable(),
        r.1@ == validation_rejection_json(e@),
{
    let mut es: Vec<(String, JsonValue)> = Vec::new();
    es.push((String::from_str("detail"), JsonValue::Str(concat("Validation failed: ", e))));
    proof {
        broadcast use crate::json::group_json_view;
        assert(crate::json::view_entries(es@) =~= seq![("detail"@, Json::Str("Validation failed: "@ + e@))]);
    }
    (422, JsonValue::Object(es))
}

} // verus!

verus! {

/// The answer to reading a query or body: the rejection of the first step
/// that failed (reading, then validating), or nothing where both passed.
pub open spec fn extraction_verdict(
    read: Result<(), Seq<char>>,
    validated: Result<(), Seq<char>>,
    read_rejection: spec_fn(Seq<char>) -> Json,
) -> Result<(), (u16, Json)> {
    match read {
        Err(e) => Err((unprocessable(), read_rejection(e))),
        Ok(_) => match validated {
            Err(e) => Err((unprocessable(), validation_rejection_json(e))),
            Ok(_) => Ok(()),
        },
    }
}

/// The view of an extraction's answer.
pub open spec fn extraction_view(r: Result<(), (u16, JsonValue)>) -> Result<(), (u16, Json)> {
    match r {
        Ok(_) => Ok(()),
        Err((c, b)) => Err((c, b@)),
    }
}

/// The view of a step's outcome.
pub open spec fn step_view(r: Result<(), String>) -> Result<(), Seq<char>> {
    match r {
        Ok(_) => Ok(()),
        Err(e) => Err(e@),
    }
}

/// The answer to extracting query parameters: a query string that could
/// not be read is refused as such; one that was read but did not validate
/// is refused with the validation's message; otherwise the handler runs.
pub fn query_outcome(deserialized: Result<(), String>, validated: Result<(), String>) -> (r: Result<(), (u16, JsonValue)>)
    ensures
        extraction_view(r) == extraction_verdict(step_view(deserialized), step_view(validated), |e| query_rejection_json(e)),
{
    match deserialized {
        Err(e) => Err(query_rejection(e.as_str())),
        Ok(()) => match validated {
            Err(e) => Err(validation_rejection(e.as_str())),
            Ok(()) => Ok(()),
        },
    }
}

/// The answer to extracting a JSON body: a body that could not be read is
/// refused as such; one that was read but did not validate is refused with
/// the validation's message; otherwise the handler runs.
pub fn json_body_outcome(deserialized: Result<(), String>, validated: Result<(), String>) -> (r: Result<(), (u16, JsonValue)>)
    ensures
        extraction_view(r) == extraction_verdict(step_view(deserialized), step_view(validated), |e| json_rejection_json(e)),
{
    match deserialized {
        Err(e) => Err(json_rejection(e.as_str())),
        Ok(()) => match validated {
            Err(e) => Err(validation_rejection(e.as_str())),
            Ok(()) => Ok(()),
        },
    }
}

} // verus!
