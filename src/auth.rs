//! The identity that the token carries.

use vstd::prelude::*;
use crate::error::ApiError;

verus! {

#[verifier::external_type_specification]
#[verifier::external_body]
pub struct ExUuidError(uuid::Error);

/// The 128 bits of the UUID that a string spells, if it spells one.
pub uninterp spec fn uuid_of(s: Seq<char>) -> Option<u128>;

/// Relies on `Uuid::parse_str` and `Uuid::as_u128`: the UUID's bits, big
/// endian.
#[verifier::external_body]
pub(crate) fn parse_uuid(s: &str) -> (r: Result<u128, uuid::Error>)
    ensures
        r is Ok <==> uuid_of(s@) is Some,
        r is Ok ==> r->Ok_0 == uuid_of(s@)->Some_0,
{
    uuid::Uuid::parse_str(s).map(|u| u.as_u128())
}

/// The claims of a signed token.
#[derive(Debug)]
pub struct Claims {
    pub exp: u64,
    pub user_id: String,
    pub username: String,
}

/// The authenticated user of a connection.
#[derive(Debug, Clone)]
pub struct User {
    pub id: u128,
}

impl User {
    /// The user of a request, from the claims of its token once its
    /// signature and expiry were checked (`None` where the token was
    /// rejected): a rejected token, or claims that name no user, are an
    /// authentication error.
    pub fn authenticate(claims: Option<Claims>) -> (r: Result<User, ApiError>)
        ensures
            claims is None ==> r is Err && r->Err_0 is AuthError,
            claims is Some ==> (r is Ok <==> uuid_of(claims->Some_0.user_id@) is Some),
            claims is Some && r is Ok ==> r->Ok_0.id == uuid_of(claims->Some_0.user_id@)->Some_0,
            r is Err ==> r->Err_0 is AuthError,
    {
        match claims {
            Some(c) => User::from_claims(&c),
            None => Err(ApiError::AuthError(String::from_str("invalid token"))),
        }
    }

    /// The user that validated claims name; an id that is not a UUID makes
    /// the token invalid.
    pub fn from_claims(claims: &Claims) -> (r: Result<User, ApiError>)
        ensures
            r is Ok <==> uuid_of(claims.user_id@) is Some,
            r is Ok ==> r->Ok_0.id == uuid_of(claims.user_id@)->Some_0,
            r is Err ==> r->Err_0 is AuthError,
    {
        match parse_uuid(claims.user_id.as_str()) {
            Ok(id) => Ok(User { id }),
            Err(_) => Err(ApiError::AuthError(String::from_str("invalid token"))),
        }
    }
}

} // verus!
