//! Error taxonomy and classification. A response is classified from its
//! HTTP status code and, when one is present, the structured error body
//! that came with it; the classifier also decides which failures are
//! transient (worth retrying) and which are permanent.

use vstd::prelude::*;
use crate::json::{JsonModel, JsonValue};

verus! {

/// One typed failure of a client operation.
///
/// `Api` carries the HTTP status code, the server's message and the
/// caller-supplied context (typically the document path) verbatim.
/// `BudgetExhausted` wraps the last error observed when the retry time
/// budget ran out while failures were still transient.
#[derive(Debug)]
pub enum FirebaseError {
    Api(u16, String, String),
    Authentication(String),
    Serialization(String),
    Transport(String),
    Io(String),
    BudgetExhausted(Box<FirebaseError>),
}

/// A status is retryable exactly when it is rate limiting (429) or a
/// server-side error (5xx). Everything else is permanent.
pub open spec fn spec_retryable_status(status: u16) -> bool {
    status == 429 || (500 <= status && status <= 599)
}

/// A status in the 2xx range reports success.
pub open spec fn spec_success_status(status: u16) -> bool {
    200 <= status && status <= 299
}

/// Decides whether an HTTP status belongs to the designated transient
/// set: HTTP 429 (rate limited) and the 5xx server errors.
pub fn retryable_http_status(status: u16) -> (r: bool)
    ensures
        r == spec_retryable_status(status),
{
    status == 429 || (500 <= status && status <= 599)
}

/// Decides whether an HTTP status reports success.
pub fn is_success_status(status: u16) -> (r: bool)
    ensures
        r == spec_success_status(status),
{
    200 <= status && status <= 299
}

/// The message found in an API error envelope `{"error": {"message": ...}}`,
/// if the tree has that shape.
pub open spec fn spec_error_message(body: JsonModel) -> Option<Seq<char>> {
    match body {
        JsonModel::Object(members) => match crate::json::spec_lookup(members, "error"@) {
            Some(JsonModel::Object(inner)) => match crate::json::spec_lookup(inner, "message"@) {
                Some(JsonModel::Str(msg)) => Some(msg),
                _ => None,
            },
            _ => None,
        },
        _ => None,
    }
}

/// Extracts the server's human-readable message from an API error
/// envelope `{"error": {"code": ..., "message": ..., "status": ...}}`.
/// Returns `None` when the body does not have that shape.
pub fn extract_error_message(body: &JsonValue) -> (r: Option<String>)
    ensures
        match r {
            Some(msg) => spec_error_message(body@) == Some(msg@),
            None => spec_error_message(body@) is None,
        },
{
    match body.lookup("error") {
        Some(inner) => match inner.lookup("message") {
            Some(JsonValue::Str(msg)) => Some(msg.clone()),
            _ => None,
        },
        None => None,
    }
}

/// Classifies one HTTP response. A 2xx status is success; anything else
/// becomes an `Api` error carrying the status code, the message taken
/// from the error body (or the empty string when the body has no such
/// envelope), and the caller's context.
pub fn classify_response(status: u16, body: &JsonValue, context: &str) -> (r: Result<
    (),
    FirebaseError,
>)
    ensures
        r is Ok <==> spec_success_status(status),
        !spec_success_status(status) ==> (r matches Err(FirebaseError::Api(c, m, ctx)) && c
            == status && ctx@ == context@ && m@ == (match spec_error_message(body@) {
            Some(msg) => msg,
            None => Seq::<char>::empty(),
        })),
{
    if is_success_status(status) {
        Ok(())
    } else {
        let message = match extract_error_message(body) {
            Some(msg) => msg,
            None => String::new(),
        };
        Err(FirebaseError::Api(status, message, context.to_owned()))
    }
}

} // verus!
