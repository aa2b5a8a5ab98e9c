//! The error taxonomy shared by the envelope encoder and decoder.

use vstd::prelude::*;

verus! {

/// Why an envelope operation failed.
///
/// Every fallible step surfaces its specific kind immediately; nothing is
/// retried and nothing is downgraded to a success value.  A host adapter may
/// collapse these kinds into text, but the core preserves them so callers can
/// branch correctly.
#[derive(Clone, Copy, Debug, PartialEq, Eq, Structural)]
pub enum EnvelopeError {
    /// A fixed 32-byte field (fingerprint, verifier, private or public key)
    /// had the wrong length, or an envelope's byte layout is malformed.
    FormatError,
    /// The recipient public-key buffer's length is not a multiple of 32.
    RecipientListError,
    /// The component at the requested position is missing or not Dh-tagged.
    ComponentTypeError,
    /// The underlying DH/AEAD primitive rejected its input during encryption.
    CryptoError,
    /// The verifier or the authenticated-cipher check failed on decryption.
    AuthenticationError,
}

impl EnvelopeError {
    /// A human-readable description of the error kind; each kind has its own
    /// fixed text.
    pub fn describe(&self) -> (r: String)
        ensures
            r@.len() > 0,
            self is FormatError ==> r@ == "field or envelope has invalid format"@,
            self is RecipientListError ==> r@ == "recipient key list length is not a multiple of 32"@,
            self is ComponentTypeError ==> r@ == "component at position is missing or not DH-tagged"@,
            self is CryptoError ==> r@ == "cryptographic primitive rejected the input"@,
            self is AuthenticationError ==> r@ == "authentication failed"@,
    {
        let s = match self {
            EnvelopeError::FormatError => "field or envelope has invalid format",
            EnvelopeError::RecipientListError => "recipient key list length is not a multiple of 32",
            EnvelopeError::ComponentTypeError => "component at position is missing or not DH-tagged",
            EnvelopeError::CryptoError => "cryptographic primitive rejected the input",
            EnvelopeError::AuthenticationError => "authentication failed",
        };
        proof {
            reveal_strlit("field or envelope has invalid format");
            reveal_strlit("recipient key list length is not a multiple of 32");
            reveal_strlit("component at position is missing or not DH-tagged");
            reveal_strlit("cryptographic primitive rejected the input");
            reveal_strlit("authentication failed");
        }
        s.to_string()
    }
}

} // verus!
