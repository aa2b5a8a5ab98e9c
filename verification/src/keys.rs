//! Identity and key-pair generation.
//!
//! A fingerprint identifies one encryption context; the verifier generated
//! alongside it is required to authenticate a decryption and is valid only
//! with that exact fingerprint.  DH key pairs are generated independently per
//! party.  All of this material is created per use and owned entirely by the
//! caller; nothing is retained across calls.

use vstd::prelude::*;
use vstd::slice::slice_to_vec;

use crate::primitives::{dh_public_of, rgp_dh_keys, rgp_fingerprint, verifier_of};

verus! {

/// A fresh fingerprint and the verifier bound to it.
pub struct FingerprintResult {
    fingerprint: Vec<u8>,
    verifier_key: Vec<u8>,
}

impl FingerprintResult {
    /// The fingerprint bytes, as the generator produced them.
    pub closed spec fn fingerprint_seq(&self) -> Seq<u8> {
        self.fingerprint@
    }

    /// The verifier bytes, as the generator produced them.
    pub closed spec fn verifier_seq(&self) -> Seq<u8> {
        self.verifier_key@
    }

    /// Both fields hold exactly 32 bytes.
    pub open spec fn wf(&self) -> bool {
        self.fingerprint_seq().len() == 32 && self.verifier_seq().len() == 32
    }

    /// The verifier is the one derived from this very fingerprint — the
    /// pairing that authenticating a decryption depends on.
    pub open spec fn paired(&self) -> bool {
        self.verifier_seq() == verifier_of(self.fingerprint_seq())
    }

    /// A copy of the fingerprint.
    pub fn fingerprint(&self) -> (r: Vec<u8>)
        ensures
            r@ == self.fingerprint_seq(),
    {
        slice_to_vec(self.fingerprint.as_slice())
    }

    /// A copy of the verifier.
    pub fn verifier_key(&self) -> (r: Vec<u8>)
        ensures
            r@ == self.verifier_seq(),
    {
        slice_to_vec(self.verifier_key.as_slice())
    }
}

/// Generates a random 32-byte fingerprint and derives the 32-byte verifier
/// bound to it.  Infallible; the only side effect is consuming randomness.
pub fn generate_fingerprint() -> (r: FingerprintResult)
    ensures
        r.wf(),
        r.paired(),
{
    let (fingerprint, verifier) = rgp_fingerprint();
    FingerprintResult {
        fingerprint: slice_to_vec(fingerprint.as_slice()),
        verifier_key: slice_to_vec(verifier.as_slice()),
    }
}

/// A fresh DH key pair.
pub struct DhKeysResult {
    private: Vec<u8>,
    public: Vec<u8>,
}

impl DhKeysResult {
    /// The private-key bytes.
    pub closed spec fn private_seq(&self) -> Seq<u8> {
        self.private@
    }

    /// The public-key bytes.
    pub closed spec fn public_seq(&self) -> Seq<u8> {
        self.public@
    }

    /// Both fields hold exactly 32 bytes.
    pub open spec fn wf(&self) -> bool {
        self.private_seq().len() == 32 && self.public_seq().len() == 32
    }

    /// The public key is the group element corresponding to this very
    /// private scalar.
    pub open spec fn paired(&self) -> bool {
        self.public_seq() == dh_public_of(self.private_seq())
    }

    /// A copy of the private key.
    pub fn private(&self) -> (r: Vec<u8>)
        ensures
            r@ == self.private_seq(),
    {
        slice_to_vec(self.private.as_slice())
    }

    /// A copy of the public key.
    pub fn public(&self) -> (r: Vec<u8>)
        ensures
            r@ == self.public_seq(),
    {
        slice_to_vec(self.public.as_slice())
    }
}

/// Generates an independent DH key pair: a random 32-byte private scalar and
/// its corresponding 32-byte public group element.
pub fn generate_dh_keys() -> (r: DhKeysResult)
    ensures
        r.wf(),
        r.paired(),
{
    let (private, public) = rgp_dh_keys();
    DhKeysResult {
        private: slice_to_vec(private.as_slice()),
        public: slice_to_vec(public.as_slice()),
    }
}

} // verus!
