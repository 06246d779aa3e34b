//! Simple error payloads for the HTTP layer: a message meant to be shown,
//! with internals deliberately collapsed to a generic text.
use vstd::prelude::*;
use vstd::string::StringExecFns;

verus! {

/// A simple API error response body: one error message.
pub struct SimpleError {
    pub error: String,
}

impl SimpleError {
    /// A generic internal-server-error message, for when something that
    /// should almost never fail on the request lifecycle does fail.
    pub fn internal() -> (r: SimpleError)
        ensures
            r.error@ == "internal server error"@,
    {
        SimpleError { error: String::from_str("internal server error") }
    }

    /// A generic not-found message, for endpoints that fetch an entity by
    /// id or filter.
    pub fn entity_not_found() -> (r: SimpleError)
        ensures
            r.error@ == "entity not found"@,
    {
        SimpleError { error: String::from_str("entity not found") }
    }
}

/// An API error response carrying arbitrary additional info.
pub struct ApiError<T> {
    pub error: String,
    pub info: Option<T>,
}

} // verus!
