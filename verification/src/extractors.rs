//! Validated-payload wrappers. The HTTP layer's extractor machinery lives
//! with that layer; these are the plain values it hands over once a payload
//! has deserialized and validated.
use vstd::prelude::*;

verus! {

/// A request query payload that passed validation.
pub struct ValidatedQuery<T>(pub T);

/// A JSON request body that passed validation.
pub struct ValidatedJson<T>(pub T);

/// A multipart request body that passed validation.
pub struct ValidatedMultipart<T>(pub T);

/// The organization id of the request user; only organization-bound users
/// reach handlers that take it.
pub struct OrganizationId(pub i32);

} // verus!
