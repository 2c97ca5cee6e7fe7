//! Errors that end an upgrade request before the socket is opened.

use vstd::prelude::*;

verus! {

#[derive(Debug)]
pub enum ApiError {
    /// The document id is not a UUID.
    BadRequest(String),
    /// The token is missing, invalid or expired.
    AuthError(String),
    /// No such document, or the caller does not own it.
    DocumentNotFoundError(u128),
    UnexpectedError,
}

/// The HTTP status of each kind of error.
pub open spec fn spec_status_code(e: ApiError) -> u16 {
    match e {
        ApiError::BadRequest(_) => 400,
        ApiError::AuthError(_) => 401,
        ApiError::DocumentNotFoundError(_) => 404,
        ApiError::UnexpectedError => 500,
    }
}

impl ApiError {
    /// The HTTP status of the response.
    pub fn status_code(&self) -> (r: u16)
        ensures
            r == spec_status_code(*self),
    {
        match self {
            ApiError::BadRequest(_) => 400,
            ApiError::AuthError(_) => 401,
            ApiError::DocumentNotFoundError(_) => 404,
            ApiError::UnexpectedError => 500,
        }
    }
}

} // verus!
