//! Multi-recipient asymmetric envelope encryption.
//!
//! A sender encrypts one plaintext once and produces a single envelope that
//! any of several designated recipients can independently open with their own
//! private key.  The envelope holds one wrapped copy of the content key per
//! recipient (in input order) followed by the ciphertext, so a recipient can
//! locate their component by position without a scan.
//!
//! The curve/DH primitive, the authenticated cipher and the fingerprint
//! derivation are supplied by the `rgp` crate and treated as audited black
//! boxes; the envelope layout, positional lookup and all validation logic are
//! verified here.

pub mod envelope;
pub mod errors;
pub mod format;
pub mod keys;
pub mod primitives;

pub use envelope::{ComponentView, decrypt_dh, encrypt_dh, extract_component};
pub use errors::EnvelopeError;
pub use keys::{DhKeysResult, FingerprintResult, generate_dh_keys, generate_fingerprint};
