//! The ways authentication can fail.

use vstd::prelude::*;

verus! {

/// Why a login or a protected request was refused.
#[derive(Clone, Copy, Debug, PartialEq, Eq, Structural)]
pub enum AuthError {
    /// The login carried no password, or an empty one.
    MissingPassword,
    /// No record for the email, or the password does not match its hash.
    InvalidCredentials,
    /// The credential store could not answer.
    StoreUnavailable,
    /// The request carried no bearer token.
    MissingToken,
    /// The bearer token's signature or claim is not valid.
    InvalidToken,
    /// No signing secret is configured.
    SigningUnavailable,
}

} // verus!
