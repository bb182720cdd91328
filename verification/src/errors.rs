//! The per-request error taxonomy and its mapping to HTTP status codes:
//! caller input and selection failures answer 400, upstream failures 502,
//! anything unexpected 500.

use vstd::prelude::*;
use crate::text::{to_chars, chars_to_string};
use crate::validators::SelectionError;

verus! {

/// A failure while answering one request.
#[derive(Debug)]
pub enum AppError {
    BadRequest(String),
    Selection(String),
    Upstream(String),
    Internal(String),
}

impl AppError {
    /// The HTTP status code each failure maps to.
    pub fn status_code(&self) -> (r: u16)
        ensures
            r == match self {
                AppError::BadRequest(_) => 400u16,
                AppError::Selection(_) => 400u16,
                AppError::Upstream(_) => 502u16,
                AppError::Internal(_) => 500u16,
            },
    {
        match self {
            AppError::BadRequest(_) => 400,
            AppError::Selection(_) => 400,
            AppError::Upstream(_) => 502,
            AppError::Internal(_) => 500,
        }
    }

    /// The body of the error response: the message that names the kind
    /// of failure.
    pub fn message(&self) -> (r: String)
        ensures
            match self {
                AppError::BadRequest(s) => r@ == s@,
                AppError::Selection(s) => r@ == "validator selection failed: "@ + s@,
                AppError::Upstream(s) => r@ == "upstream request failed: "@ + s@,
                AppError::Internal(s) => r@ == "internal error: "@ + s@,
            },
    {
        match self {
            AppError::BadRequest(s) => s.clone(),
            AppError::Selection(s) => {
                let mut out = to_chars("validator selection failed: ");
                out.extend_from_slice(to_chars(s.as_str()).as_slice());
                chars_to_string(&out)
            },
            AppError::Upstream(s) => {
                let mut out = to_chars("upstream request failed: ");
                out.extend_from_slice(to_chars(s.as_str()).as_slice());
                chars_to_string(&out)
            },
            AppError::Internal(s) => {
                let mut out = to_chars("internal error: ");
                out.extend_from_slice(to_chars(s.as_str()).as_slice());
                chars_to_string(&out)
            },
        }
    }

    /// A selection failure becomes a caller error carrying the
    /// failure's own message.
    pub fn from_selection(e: &SelectionError) -> (r: AppError)
        ensures
            r matches AppError::Selection(m) && m@ == match e {
                SelectionError::UnknownValidator(n) => "validator '"@ + n@ + "' not found"@,
                SelectionError::UnknownLocation(l) => "no validator available for location '"@ + l@
                    + "'"@,
                SelectionError::Empty => "no validators available"@,
            },
    {
        AppError::Selection(e.message())
    }
}

} // verus!
