//! Trusted boundary to the `rgp` cryptographic primitives.
//!
//! Everything here is believed, not proved: each wrapper's contract states
//! only what `rgp`'s source shows of the call, and the verified encoder and
//! decoder build on these contracts.  Key generation is random, so nothing is
//! promised of its output beyond the fixed field widths carried by the types;
//! decryption is a deterministic function of its inputs, so its outcome is
//! given a name (`dh_opened`) that the decoder's contract can speak of
//! exactly.

use vstd::prelude::*;

use crate::errors::EnvelopeError;
use crate::format::dh_sealed;

verus! {

/// What `rgp`'s DH-mode decryption returns for a verifier, a stripped
/// envelope (nonce plus ciphertext section), a wrapped content key, a sender
/// public key and a recipient private key: the recovered content, or `None`
/// when the unwrap, the authenticated cipher or the verifier check rejects.
/// The result depends on these five inputs alone.
pub uninterp spec fn dh_opened(
    verifier: Seq<u8>,
    remainder: Seq<u8>,
    wrapped_key: Seq<u8>,
    sender_public: Seq<u8>,
    recipient_private: Seq<u8>,
) -> Option<Seq<u8>>;

/// The verifier that `rgp::generate_fingerprint` derives from a fingerprint:
/// the verifying key of the signing key those 32 bytes encode.  A one-way
/// deterministic function of the fingerprint bytes alone.
pub uninterp spec fn verifier_of(fingerprint: Seq<u8>) -> Seq<u8>;

/// The public key that `rgp::generate_dh_keys` pairs with a private key: the
/// group element corresponding to that scalar.  A one-way deterministic
/// function of the private-key bytes alone.
pub uninterp spec fn dh_public_of(private: Seq<u8>) -> Seq<u8>;

/// Relies on `rgp::generate_fingerprint`: a fresh random fingerprint, paired
/// with the verifier derived from it — the derivation depends on the
/// fingerprint bytes alone, so the pairing holds of every outcome; the
/// fingerprint itself is random and nothing more is promised of it beyond
/// the 32-byte widths carried by the types.
#[verifier::external_body]
pub(crate) fn rgp_fingerprint() -> (r: ([u8; 32], [u8; 32]))
    ensures
        r.1@ == verifier_of(r.0@),
{
    rgp::generate_fingerprint()
}

/// Relies on `rgp::generate_dh_keys`: a fresh random DH key pair, private
/// half first, the public half being the group element corresponding to the
/// private scalar — a deterministic derivation, so the pairing holds of
/// every outcome; the private half is random and nothing more is promised of
/// it beyond the 32-byte widths carried by the types.
#[verifier::external_body]
pub(crate) fn rgp_dh_keys() -> (r: ([u8; 32], [u8; 32]))
    ensures
        r.1@ == dh_public_of(r.0@),
{
    rgp::generate_dh_keys()
}

/// Relies on `rgp::encrypt` in DH mode, whose source documents the output
/// layout exactly: a 24-byte nonce, the recipient-count header, one 32-byte
/// wrapped key per recipient in input order, the ciphertext (content plus a
/// 64-byte signature and a 16-byte authenticator), and the DH mode tag.  The
/// primitive rejects some inputs (an all-zero or non-contributory public
/// key); that outcome is surfaced as an error, never as a success value.
#[verifier::external_body]
pub(crate) fn rgp_seal(
    fingerprint: &[u8; 32],
    content: Vec<u8>,
    sender_private: &[u8; 32],
    recipient_publics: &Vec<[u8; 32]>,
) -> (r: Result<Vec<u8>, EnvelopeError>)
    requires
        32 * recipient_publics@.len() <= usize::MAX,
    ensures
        r matches Ok(sealed) ==> dh_sealed(sealed@, recipient_publics@.len(), content@.len()),
        r matches Err(e) ==> e == EnvelopeError::CryptoError,
{
    match rgp::encrypt(
        *fingerprint,
        content,
        rgp::Encrypt::Dh(*sender_private, recipient_publics, None),
    ) {
        Ok((sealed, _)) => Ok(sealed),
        Err(_) => Err(EnvelopeError::CryptoError),
    }
}

/// Relies on `rgp::decrypt` in DH mode with a verifier supplied: it reads the
/// nonce from the first 24 bytes, unwraps the content key through the DH
/// shared secret, decrypts the rest and checks the signature against the
/// verifier.  The call is deterministic, so its outcome is exactly the named
/// result `dh_opened`; every failure it reports is an authentication failure.
#[verifier::external_body]
pub(crate) fn rgp_open(
    verifier: &[u8; 32],
    remainder: &Vec<u8>,
    wrapped_key: &[u8; 32],
    sender_public: &[u8; 32],
    recipient_private: &[u8; 32],
) -> (r: Result<Vec<u8>, EnvelopeError>)
    requires
        remainder@.len() >= 104,
    ensures
        r matches Ok(content) ==> dh_opened(
            verifier@,
            remainder@,
            wrapped_key@,
            sender_public@,
            recipient_private@,
        ) == Some(content@),
        r matches Err(e) ==> e == EnvelopeError::AuthenticationError && dh_opened(
            verifier@,
            remainder@,
            wrapped_key@,
            sender_public@,
            recipient_private@,
        ) is None,
{
    match rgp::decrypt(
        Some(verifier),
        remainder.as_slice(),
        rgp::Decrypt::Dh(*wrapped_key, *sender_public, *recipient_private, None),
    ) {
        Ok((content, _)) => Ok(content),
        Err(_) => Err(EnvelopeError::AuthenticationError),
    }
}

} // verus!
