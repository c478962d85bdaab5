//! What stands in front of protected routes: it reads the bearer token from the
//! authorization header, validates it, and only then runs the handler.

use vstd::prelude::*;
use crate::error::AuthError;
use crate::token::{accepts, validate, TokenClaims};

verus! {

/// The scheme word and the space that start a bearer authorization header.
pub open spec fn bearer_prefix() -> Seq<char> {
    seq!['B', 'e', 'a', 'r', 'e', 'r', ' ']
}

/// The token of a bearer authorization header: what follows `Bearer `, if anything does.
pub open spec fn bearer_token(header: Seq<char>) -> Option<Seq<char>> {
    if header.len() > 7 && header.subrange(0, 7) == bearer_prefix() {
        Some(header.subrange(7, header.len() as int))
    } else {
        None
    }
}

/// The token that a bearer authorization header carries.
pub fn bearer_of(header: &str) -> (r: Option<&str>)
    ensures
        match bearer_token(header@) {
            Some(t) => r matches Some(x) && x@ == t,
            None => r is None,
        },
{
    let n = header.unicode_len();
    if n <= 7 {
        return None;
    }
    let prefix = header.substring_char(0, 7);
    proof {
        reveal_strlit("Bearer ");
    }
    let expected = "Bearer ";
    assert(expected@ =~= bearer_prefix());
    if crate::text::same_chars(prefix, expected) {
        Some(header.substring_char(7, n))
    } else {
        None
    }
}

/// Who the authorization header proves the caller to be, under the signing secret `key`.
pub open spec fn authenticated_as(authorization: Option<Seq<char>>, key: Seq<u8>, id: int) -> bool {
    authorization matches Some(h) && bearer_token(h) matches Some(t) && key.len() > 0
        && accepts(key, t, id)
}

/// Whether the authorization header is present and carries a bearer token.
pub open spec fn has_bearer(authorization: Option<Seq<char>>) -> bool {
    authorization matches Some(h) && bearer_token(h) is Some
}

/// Turns an optional header into what the contracts speak of.
pub open spec fn view_header(authorization: Option<&str>) -> Option<Seq<char>> {
    match authorization {
        Some(h) => Some(h@),
        None => None,
    }
}

/// Authenticates a request by its authorization header. No header, or one without a bearer
/// token, gives `MissingToken`; a token that does not validate gives `InvalidToken`.
pub fn authenticate(authorization: Option<&str>, key: &[u8]) -> (r: Result<TokenClaims, AuthError>)
    ensures
        match r {
            Ok(c) => authenticated_as(view_header(authorization), key@, c.id as int)
                && forall|id: i32| authenticated_as(view_header(authorization), key@, id as int) ==> id == c.id,
            Err(e) => e == (if has_bearer(view_header(authorization)) {
                AuthError::InvalidToken
            } else {
                AuthError::MissingToken
            }) && forall|id: i32| !authenticated_as(view_header(authorization), key@, id as int),
        },
{
    let header = match authorization {
        Some(h) => h,
        None => return Err(AuthError::MissingToken),
    };
    let token = match bearer_of(header) {
        Some(t) => t,
        None => return Err(AuthError::MissingToken),
    };
    validate(key, token)
}

/// Runs `handler` with the caller's identity, and only when the request authenticates.
/// A refused request never reaches the handler.
pub fn guarded<R, F: FnOnce(TokenClaims) -> R>(authorization: Option<&str>, key: &[u8], handler: F) -> (r: Result<R, AuthError>)
    requires
        forall|c: TokenClaims| handler.requires((c,)),
    ensures
        match r {
            Ok(v) => exists|c: TokenClaims| authenticated_as(view_header(authorization), key@, c.id as int)
                && handler.ensures((c,), v)
                && forall|id: i32| authenticated_as(view_header(authorization), key@, id as int) ==> id == c.id,
            Err(e) => e == (if has_bearer(view_header(authorization)) {
                AuthError::InvalidToken
            } else {
                AuthError::MissingToken
            }) && forall|id: i32| !authenticated_as(view_header(authorization), key@, id as int),
        },
{
    match authenticate(authorization, key) {
        Ok(c) => Ok(handler(c)),
        Err(e) => Err(e),
    }
}

/// The HTTP status for a refusal: a missing password is a bad request, a store or
/// signing failure a server error, every other refusal unauthorized.
pub open spec fn error_status(e: AuthError) -> u16 {
    match e {
        AuthError::MissingPassword => 400,
        AuthError::StoreUnavailable => 500,
        AuthError::SigningUnavailable => 500,
        _ => 401,
    }
}

/// The HTTP status for a refusal.
pub fn status_of(e: AuthError) -> (r: u16)
    ensures
        r == error_status(e),
{
    match e {
        AuthError::MissingPassword => 400,
        AuthError::StoreUnavailable => 500,
        AuthError::SigningUnavailable => 500,
        _ => 401,
    }
}

/// The identity check handler: the caller's id, or a refusal when no identity reached it.
pub fn check(claims: Option<TokenClaims>) -> (r: Result<i32, AuthError>)
    ensures
        match claims {
            Some(c) => r == Ok::<i32, AuthError>(c.id),
            None => r == Err::<i32, AuthError>(AuthError::InvalidToken),
        },
{
    match claims {
        Some(c) => Ok(c.id),
        None => Err(AuthError::InvalidToken),
    }
}

/// The identity check on a protected route: the id that the bearer token proves, or the
/// refusal of the request.
pub fn protected_check(authorization: Option<&str>, key: &[u8]) -> (r: Result<i32, AuthError>)
    ensures
        match r {
            Ok(id) => authenticated_as(view_header(authorization), key@, id as int)
                && forall|x: i32| authenticated_as(view_header(authorization), key@, x as int) ==> x == id,
            Err(e) => e == (if has_bearer(view_header(authorization)) {
                AuthError::InvalidToken
            } else {
                AuthError::MissingToken
            }) && forall|id: i32| !authenticated_as(view_header(authorization), key@, id as int),
        },
{
    match authenticate(authorization, key) {
        Ok(c) => check(Some(c)),
        Err(e) => Err(e),
    }
}

} // verus!
