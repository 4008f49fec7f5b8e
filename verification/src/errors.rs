//! Error taxonomy of the attestation core.
//!
//! Implicit rejection inside decapsulation is deliberately absent: it is not
//! an error and never surfaces to a caller.

use vstd::prelude::*;

verus! {

/// Typed failures reported to callers.
#[derive(Clone, Copy, Debug, PartialEq, Eq, Structural)]
pub enum ShieldError {
    /// A key, ciphertext, signature or blob had the wrong length or shape.
    FormatError,
    /// An authentication tag did not match: the blob was tampered with.
    AuthenticationFailure,
    /// A signature did not verify: the report is forged or corrupted.
    SignatureInvalid,
}

impl ShieldError {
    /// A short human-readable description.
    pub fn describe(&self) -> (r: String)
        ensures
            r@ == match self {
                ShieldError::FormatError => "invalid format"@,
                ShieldError::AuthenticationFailure => "invalid blob"@,
                ShieldError::SignatureInvalid => "forged report"@,
            },
    {
        match self {
            ShieldError::FormatError => "invalid format".to_owned(),
            ShieldError::AuthenticationFailure => "invalid blob".to_owned(),
            ShieldError::SignatureInvalid => "forged report".to_owned(),
        }
    }
}

} // verus!
