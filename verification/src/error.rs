//! Errors of the library. Graph API failures keep their status code, the response body and
//! the decoded Meta error for application logging.
use vstd::prelude::*;

use crate::json::JsonValue;

verus! {

/// Every failure the library reports.
#[derive(Debug, PartialEq, Eq)]
pub enum WhatsAppApiError {
    MissingAppSecret,
    MissingVerifyToken,
    MissingSearchParams,
    FailedToVerifyToken,
    MissingRawBody,
    MissingSignature,
    FailedToVerifySignature,
    UnexpectedWebhookPayload { message: &'static str, http_status: u16 },
    Validation { field: &'static str, message: &'static str },
    GraphApi { status_code: u16, body: Box<JsonValue>, meta_error: Option<Box<MetaError>> },
    Http { message: String },
    Decode { message: String },
    Unsupported(&'static str),
}

/// The `error` object of a Graph API error response.
#[derive(Debug, Clone, PartialEq, Eq)]
pub struct MetaError {
    pub message: Option<String>,
    pub kind: Option<String>,
    pub code: Option<i64>,
    pub error_subcode: Option<i64>,
    pub fbtrace_id: Option<String>,
}

/// The result of a fallible library call.
pub type Result<T> = core::result::Result<T, WhatsAppApiError>;

} // verus!
