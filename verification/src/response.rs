//! Transport-neutral response shaping.
//!
//! Domain errors surface as a structured error code with no data payload;
//! successes carry the payload and an empty error code. Infrastructure
//! failures surface as opaque statuses with no detail for the client.

use vstd::prelude::*;

verus! {

/// The body of a well-formed response: an error code (empty on success)
/// and an optional data payload.
#[derive(Debug)]
pub struct ResponseBody<T> {
    pub error_code: &'static str,
    pub data: Option<T>,
}

/// A service-level response: either a well-formed body, or one of the
/// opaque statuses that carry no detail to the client.
#[derive(Debug)]
pub enum Response<T> {
    Success(ResponseBody<T>),
    Unauthorized,
    BadRequest,
    ServiceUnavailable(ServiceUnavailableError),
    ServerError,
}

/// Why the service cannot serve requests at all.
#[derive(Debug)]
pub enum ServiceUnavailableError {
    /// The database backend is not connected.
    DatabaseConnection,
}

impl<T> Response<T> {
    /// A domain error: the given code and no data.
    pub fn from_error(error_code: &'static str) -> (r: Self)
        ensures
            r matches Response::Success(b) && b.error_code@ == error_code@ && b.data is None,
    {
        Self::Success(ResponseBody { error_code, data: None })
    }

    /// A success: an empty error code and the given data.
    pub fn from_data(data: T) -> (r: Self)
        ensures
            r matches Response::Success(b) && b.error_code@ == ""@ && b.data == Some(data),
    {
        Self::Success(ResponseBody { error_code: "", data: Some(data) })
    }
}

} // verus!
