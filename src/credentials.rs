//! Checking an email and password against the stored credential record, and login.

use vstd::prelude::*;
use crate::error::AuthError;
use crate::text::same_chars;
use crate::token::{accepts, issue, token_text, TokenClaims};

verus! {

/// A stored credential record: the user's id, email and password hash.
pub struct AuthUser {
    pub id: i32,
    pub email: String,
    pub password: String,
}

/// What the credential store answered when asked for the record of an email.
pub enum Lookup {
    Found(AuthUser),
    NotFound,
    Unavailable,
}

/// Whether a login carries a usable password.
pub open spec fn password_given(password: Option<Seq<char>>) -> bool {
    password matches Some(p) && p.len() > 0
}

/// The record whose hash a login must be checked against, or why there is none.
/// Emails match exactly, letter case included.
pub open spec fn record_outcome(email: Seq<char>, password: Option<Seq<char>>, lookup: Lookup) -> Result<int, AuthError> {
    if !password_given(password) {
        Err(AuthError::MissingPassword)
    } else {
        match lookup {
            Lookup::Unavailable => Err(AuthError::StoreUnavailable),
            Lookup::NotFound => Err(AuthError::InvalidCredentials),
            Lookup::Found(u) => if u.email@ == email {
                Ok(u.id as int)
            } else {
                Err(AuthError::InvalidCredentials)
            },
        }
    }
}

/// The result of a login: the stored id when the record stands and the password hash check
/// says the password matches, else the reason for refusal.
pub open spec fn credential_outcome(
    email: Seq<char>,
    password: Option<Seq<char>>,
    lookup: Lookup,
    hash_matches: Option<bool>,
) -> Result<int, AuthError> {
    match record_outcome(email, password, lookup) {
        Err(e) => Err(e),
        Ok(id) => if hash_matches == Some(true) {
            Ok(id)
        } else {
            Err(AuthError::InvalidCredentials)
        },
    }
}

/// A login whose email has a stored record succeeds with exactly that record's id when the
/// password hash check says the password matches, and is refused as invalid credentials
/// when it says it does not.
pub proof fn lemma_matching_password_gives_stored_id(email: Seq<char>, password: Seq<char>, user: AuthUser)
    requires
        password.len() > 0,
        user.email@ == email,
    ensures
        credential_outcome(email, Some(password), Lookup::Found(user), Some(true)) == Ok::<int, AuthError>(user.id as int),
        credential_outcome(email, Some(password), Lookup::Found(user), Some(false)) == Err::<int, AuthError>(AuthError::InvalidCredentials),
{
}

/// Turns an optional password into what the contracts speak of.
pub open spec fn view_password(password: Option<&str>) -> Option<Seq<char>> {
    match password {
        Some(p) => Some(p@),
        None => None,
    }
}

/// Refuses a login that carries no password, or an empty one, before the store is read.
pub fn require_password(password: Option<&str>) -> (r: Result<(), AuthError>)
    ensures
        password_given(view_password(password)) <==> r is Ok,
        r is Err ==> r == Err::<(), AuthError>(AuthError::MissingPassword),
{
    match password {
        Some(p) => if p.is_empty() {
            Err(AuthError::MissingPassword)
        } else {
            Ok(())
        },
        None => Err(AuthError::MissingPassword),
    }
}

/// The record whose password hash the login must be checked against. A lookup miss and a
/// record for another email are refused alike.
pub fn record_to_check<'a>(email: &str, password: Option<&str>, lookup: &'a Lookup) -> (r: Result<&'a AuthUser, AuthError>)
    ensures
        match record_outcome(email@, view_password(password), *lookup) {
            Ok(id) => r matches Ok(u) && lookup == &Lookup::Found(*u) && u.id == id,
            Err(e) => r matches Err(x) && x == e,
        },
{
    if let Err(e) = require_password(password) {
        return Err(e);
    }
    match lookup {
        Lookup::Unavailable => Err(AuthError::StoreUnavailable),
        Lookup::NotFound => Err(AuthError::InvalidCredentials),
        Lookup::Found(u) => {
            if same_chars(u.email.as_str(), email) {
                Ok(u)
            } else {
                Err(AuthError::InvalidCredentials)
            }
        }
    }
}

/// Verifies a login. `hash_matches` is the answer of the password hash check for the
/// found record's hash, the password and the hashing secret; `None` when that check failed.
pub fn verify_credentials(email: &str, password: Option<&str>, lookup: &Lookup, hash_matches: Option<bool>) -> (r: Result<TokenClaims, AuthError>)
    ensures
        match credential_outcome(email@, view_password(password), *lookup, hash_matches) {
            Ok(id) => r matches Ok(c) && c.id == id,
            Err(e) => r == Err::<TokenClaims, AuthError>(e),
        },
{
    let record = record_to_check(email, password, lookup);
    match record {
        Err(e) => Err(e),
        Ok(u) => {
            if hash_matches == Some(true) {
                Ok(TokenClaims { id: u.id })
            } else {
                Err(AuthError::InvalidCredentials)
            }
        }
    }
}

/// Logs in: verifies the credentials, then issues the token for the stored id.
pub fn login(key: &[u8], email: &str, password: Option<&str>, lookup: &Lookup, hash_matches: Option<bool>) -> (r: Result<String, AuthError>)
    ensures
        match credential_outcome(email@, view_password(password), *lookup, hash_matches) {
            Ok(id) => if key@.len() == 0 {
                r == Err::<String, AuthError>(AuthError::SigningUnavailable)
            } else {
                r matches Ok(t) && t@ == token_text(key@, id) && accepts(key@, t@, id)
            },
            Err(e) => r == Err::<String, AuthError>(e),
        },
{
    match verify_credentials(email, password, lookup, hash_matches) {
        Err(e) => Err(e),
        Ok(claims) => issue(key, claims),
    }
}

} // verus!
