//! The two server secrets, read once at start and then only passed around.

use vstd::prelude::*;

verus! {

/// The secret keyed into password hashes and the secret that signs tokens.
pub struct AuthConfig {
    pub hash_secret: String,
    pub signing_secret: String,
}

pub open spec fn secret_present(s: Option<String>) -> bool {
    s matches Some(v) && v@.len() > 0
}

impl AuthConfig {
    /// The configuration, when both secrets are given and neither is empty.
    pub fn from_values(hash_secret: Option<String>, signing_secret: Option<String>) -> (r: Option<AuthConfig>)
        ensures
            r is Some <==> secret_present(hash_secret) && secret_present(signing_secret),
            r matches Some(c) ==> hash_secret == Some(c.hash_secret) && signing_secret == Some(c.signing_secret),
    {
        match (hash_secret, signing_secret) {
            (Some(h), Some(s)) => {
                if h.as_str().is_empty() || s.as_str().is_empty() {
                    None
                } else {
                    Some(AuthConfig { hash_secret: h, signing_secret: s })
                }
            }
            _ => None,
        }
    }

    /// The signing secret as the key bytes of the token signature.
    pub fn signing_key(&self) -> (r: &[u8])
        ensures
            r@ == vstd::utf8::encode_utf8(self.signing_secret@),
    {
        self.signing_secret.as_str().as_bytes()
    }
}

} // verus!
