//! The envelope encoder, component extractor and decoder.
//!
//! The encoder seals one plaintext for an ordered list of recipients; the
//! extractor locates one recipient's component by position without touching
//! the ciphertext; the decoder recovers the plaintext through the DH shared
//! secret and the verifier.  All parsing, bounds checking and dispatch here
//! is verified against the layout specs in [`crate::format`]; only the
//! cryptographic primitives themselves are trusted.

use vstd::prelude::*;

use crate::errors::EnvelopeError;
use crate::format::{
    DH_MODE, DH_WITH_HMAC_MODE, FIELD_LEN, NONCE_LEN, SEAL_OVERHEAD, be_val, dh_component_key,
    dh_count, dh_header_len, dh_remainder, dh_sealed, dh_well_formed, is_dh_mode,
    lemma_be_val_bound, lemma_pow256_le, lemma_pow256_values, lemma_sealed_well_formed,
    parsed_count, parsed_header_len,
};
use crate::primitives::{dh_opened, rgp_open, rgp_seal};

verus! {

/// A typed view of one component of an envelope, located by position.  The
/// only variant this library opens is `Dh`; any other tag is reported as it
/// stands so a caller can reject it rather than coerce it.
#[derive(Clone, Copy, Debug, PartialEq, Eq)]
pub enum ComponentView {
    /// A DH-wrapped content key, with whether the wrapping secret was passed
    /// through an HMAC.
    Dh { wrapped_key: [u8; FIELD_LEN], with_hmac: bool },
    /// A component region this library does not interpret.
    Unrecognized { tag: u8 },
}

/// Reads the `width`-byte big-endian value starting at `at`.
fn be_read(envelope: &Vec<u8>, at: usize, width: usize) -> (r: u64)
    requires
        width <= 8,
        at + width <= envelope@.len(),
    ensures
        r == be_val(envelope@.subrange(at as int, at + width)),
{
    let elen = envelope.len();
    let mut r: u64 = 0;
    let mut i: usize = 0;
    while i < width
        invariant
            i <= width,
            width <= 8,
            elen == envelope@.len(),
            at + width <= elen,
            r == be_val(envelope@.subrange(at as int, at + i)),
        decreases width - i,
    {
        proof {
            lemma_be_val_bound(envelope@.subrange(at as int, at + i));
            lemma_pow256_le(i as nat, 7);
            lemma_pow256_values();
        }
        r = r * 256 + (envelope[at + i] as u64);
        i = i + 1;
        proof {
            let s = envelope@.subrange(at as int, at + i);
            assert(s.drop_last() =~= envelope@.subrange(at as int, at + i - 1));
            assert(s.last() == envelope@[at + i - 1]);
        }
    }
    r
}

/// Parses the count header of a DH-tagged envelope and checks that the
/// component region and ciphertext section fit, returning the header width
/// and the recipient count exactly when the envelope is well formed.
fn parse_dh(envelope: &Vec<u8>) -> (r: Option<(usize, u64)>)
    requires
        envelope@.len() >= 1,
        is_dh_mode(envelope@.last()),
    ensures
        r matches Some(p) ==> dh_well_formed(envelope@) && p.0 == dh_header_len(envelope@)
            && p.1 == dh_count(envelope@),
        r is None ==> !dh_well_formed(envelope@),
{
    let len = envelope.len();
    if len < NONCE_LEN + 1 {
        return None;
    }
    let b0 = envelope[NONCE_LEN];
    let hlen: usize = if b0 % 2 == 1 {
        1
    } else if (b0 / 4) % 4 == 0 {
        2
    } else if (b0 / 4) % 4 == 1 {
        3
    } else if (b0 / 4) % 4 == 2 {
        5
    } else {
        9
    };
    proof {
        assert(hlen == parsed_header_len(envelope@[NONCE_LEN as int]));
    }
    if len < NONCE_LEN + SEAL_OVERHEAD + 1 + hlen {
        return None;
    }
    let count: u64 = if b0 % 2 == 1 {
        (b0 / 2) as u64
    } else if (b0 / 4) % 4 == 0 {
        envelope[NONCE_LEN + 1] as u64
    } else if (b0 / 4) % 4 == 1 {
        be_read(envelope, NONCE_LEN + 1, 2)
    } else if (b0 / 4) % 4 == 2 {
        be_read(envelope, NONCE_LEN + 1, 4)
    } else {
        be_read(envelope, NONCE_LEN + 1, 8)
    };
    proof {
        assert(count == parsed_count(envelope@, NONCE_LEN as int));
    }
    let avail = len - (NONCE_LEN + SEAL_OVERHEAD + 1 + hlen);
    if count > (avail / 32) as u64 {
        proof {
            vstd::arithmetic::div_mod::lemma_fundamental_div_mod(avail as int, 32);
            assert(32 * (avail / 32 + 1) <= 32 * count) by {
                vstd::arithmetic::mul::lemma_mul_inequality(
                    avail as int / 32 + 1,
                    count as int,
                    32,
                );
            }
        }
        return None;
    }
    proof {
        vstd::arithmetic::div_mod::lemma_fundamental_div_mod(avail as int, 32);
        assert(32 * count <= 32 * (avail / 32)) by {
            vstd::arithmetic::mul::lemma_mul_inequality(count as int, avail as int / 32, 32);
        }
    }
    Some((hlen, count))
}

/// Copies the 32-byte wrapped key of the component at `position`.
fn read_key(envelope: &Vec<u8>, hlen: usize, position: usize) -> (r: [u8; FIELD_LEN])
    requires
        dh_well_formed(envelope@),
        hlen == dh_header_len(envelope@),
        position < dh_count(envelope@),
    ensures
        r@ == dh_component_key(envelope@, position as nat),
{
    let elen = envelope.len();
    proof {
        assert(32 * (position + 1) <= 32 * dh_count(envelope@)) by {
            vstd::arithmetic::mul::lemma_mul_inequality(
                position as int + 1,
                dh_count(envelope@) as int,
                32,
            );
        }
        assert(NONCE_LEN + SEAL_OVERHEAD + 1 + dh_header_len(envelope@) + 32 * dh_count(
            envelope@,
        ) <= elen);
    }
    let off = NONCE_LEN + hlen + 32 * position;
    let mut key = [0u8; FIELD_LEN];
    for j in 0..FIELD_LEN
        invariant
            off == NONCE_LEN + hlen + 32 * position,
            elen == envelope@.len(),
            off + 32 <= elen,
            forall|k: int| 0 <= k < j ==> key@[k] == envelope@[off + k],
    {
        key[j] = envelope[off + j];
    }
    proof {
        assert(key@ =~= dh_component_key(envelope@, position as nat));
    }
    key
}

/// Locates the component at `position` in an envelope without decrypting
/// anything, returning a typed view of it.
///
/// A DH-tagged envelope whose layout is malformed is reported as a format
/// error; a position at or past the recipient count as a component-type
/// error; a tag this library does not interpret is handed back unopened.
pub fn extract_component(position: usize, envelope: &Vec<u8>) -> (r: Result<
    ComponentView,
    EnvelopeError,
>)
    ensures
        envelope@.len() == 0 ==> r == Err::<ComponentView, EnvelopeError>(
            EnvelopeError::FormatError,
        ),
        envelope@.len() > 0 && !is_dh_mode(envelope@.last()) ==> (r matches Ok(v) && v matches
            ComponentView::Unrecognized { tag } && tag == envelope@.last()),
        envelope@.len() > 0 && is_dh_mode(envelope@.last()) && !dh_well_formed(envelope@) ==> r
            == Err::<ComponentView, EnvelopeError>(EnvelopeError::FormatError),
        dh_well_formed(envelope@) && position >= dh_count(envelope@) ==> r == Err::<
            ComponentView,
            EnvelopeError,
        >(EnvelopeError::ComponentTypeError),
        dh_well_formed(envelope@) && position < dh_count(envelope@) ==> (r matches Ok(v)
            && v matches ComponentView::Dh { wrapped_key, with_hmac } && wrapped_key@
            == dh_component_key(envelope@, position as nat) && with_hmac == (envelope@.last()
            == DH_WITH_HMAC_MODE)),
{
    let len = envelope.len();
    if len == 0 {
        return Err(EnvelopeError::FormatError);
    }
    let tag = envelope[len - 1];
    if !(tag == DH_MODE || tag == DH_WITH_HMAC_MODE) {
        return Ok(ComponentView::Unrecognized { tag });
    }
    match parse_dh(envelope) {
        None => Err(EnvelopeError::FormatError),
        Some((hlen, count)) => {
            if position as u64 >= count {
                return Err(EnvelopeError::ComponentTypeError);
            }
            let wrapped_key = read_key(envelope, hlen, position);
            Ok(ComponentView::Dh { wrapped_key, with_hmac: tag == DH_WITH_HMAC_MODE })
        },
    }
}

/// Strips the component region and mode tag, leaving the nonce followed by
/// the ciphertext section: the exact bytes the content cipher runs over.
fn strip_components(envelope: &Vec<u8>, hlen: usize, count: u64) -> (r: Vec<u8>)
    requires
        dh_well_formed(envelope@),
        hlen == dh_header_len(envelope@),
        count == dh_count(envelope@),
    ensures
        r@ == dh_remainder(envelope@),
        r@.len() >= NONCE_LEN + SEAL_OVERHEAD,
{
    let len = envelope.len();
    proof {
        assert(count <= 32 * count) by {
            vstd::arithmetic::mul::lemma_mul_inequality(1, 32, count as int);
        }
    }
    let cstart = NONCE_LEN + hlen + 32 * (count as usize);
    let mut out: Vec<u8> = Vec::new();
    let mut i: usize = 0;
    while i < NONCE_LEN
        invariant
            i <= NONCE_LEN,
            NONCE_LEN <= envelope@.len(),
            out@ == envelope@.subrange(0, i as int),
        decreases NONCE_LEN - i,
    {
        out.push(envelope[i]);
        i = i + 1;
        proof {
            assert(envelope@.subrange(0, i as int) =~= envelope@.subrange(0, i - 1).push(
                envelope@[i - 1],
            ));
        }
    }
    let mut j: usize = cstart;
    while j < len - 1
        invariant
            cstart <= j <= len - 1,
            len == envelope@.len(),
            len >= 1,
            cstart == NONCE_LEN + dh_header_len(envelope@) + 32 * dh_count(envelope@),
            out@ == envelope@.subrange(0, NONCE_LEN as int).add(
                envelope@.subrange(cstart as int, j as int),
            ),
        decreases len - j,
    {
        out.push(envelope[j]);
        j = j + 1;
        proof {
            assert(envelope@.subrange(cstart as int, j as int) =~= envelope@.subrange(
                cstart as int,
                j - 1,
            ).push(envelope@[j - 1]));
            assert(out@ =~= envelope@.subrange(0, NONCE_LEN as int).add(
                envelope@.subrange(cstart as int, j as int),
            ));
        }
    }
    proof {
        assert(out@ =~= dh_remainder(envelope@));
    }
    out
}

/// Copies a 32-byte buffer into a fixed-size field.
fn to_field(v: &Vec<u8>) -> (r: [u8; FIELD_LEN])
    requires
        v@.len() == FIELD_LEN,
    ensures
        r@ == v@,
{
    let mut r = [0u8; FIELD_LEN];
    for j in 0..FIELD_LEN
        invariant
            v@.len() == FIELD_LEN,
            forall|k: int| 0 <= k < j ==> r@[k] == v@[k],
    {
        r[j] = v[j];
    }
    proof {
        assert(r@ =~= v@);
    }
    r
}

/// Seals `content` once for every recipient in `public_keys`, a
/// concatenation of 32-byte public keys in encryption-call order.
///
/// One fresh content key encrypts the content exactly once, with the
/// fingerprint bound in as the signing identity; the content key is then
/// wrapped separately for each recipient through the DH shared secret with
/// the sender's private key.  Zero recipients is permitted and yields an
/// envelope nobody can open.  A wrong-length fingerprint or private key is a
/// format error, a recipient buffer that is not a multiple of 32 bytes a
/// recipient-list error, and a rejection inside the primitive a crypto error
/// — never a disguised success value.
pub fn encrypt_dh(
    fingerprint: Vec<u8>,
    content: Vec<u8>,
    private_key: Vec<u8>,
    public_keys: Vec<u8>,
) -> (r: Result<Vec<u8>, EnvelopeError>)
    ensures
        (fingerprint@.len() != 32 || private_key@.len() != 32) <==> r == Err::<
            Vec<u8>,
            EnvelopeError,
        >(EnvelopeError::FormatError),
        (fingerprint@.len() == 32 && private_key@.len() == 32 && public_keys@.len() % 32 != 0)
            <==> r == Err::<Vec<u8>, EnvelopeError>(EnvelopeError::RecipientListError),
        r matches Ok(sealed) ==> fingerprint@.len() == 32 && private_key@.len() == 32
            && public_keys@.len() % 32 == 0 && dh_sealed(
            sealed@,
            public_keys@.len() / 32,
            content@.len(),
        ),
        r matches Ok(sealed) ==> dh_well_formed(sealed@) && dh_count(sealed@)
            == public_keys@.len() / 32 && sealed@.last() == DH_MODE,
        fingerprint@.len() == 32 && private_key@.len() == 32 && public_keys@.len() % 32 == 0
            ==> r is Ok || r == Err::<Vec<u8>, EnvelopeError>(EnvelopeError::CryptoError),
{
    if fingerprint.len() != FIELD_LEN {
        return Err(EnvelopeError::FormatError);
    }
    if private_key.len() != FIELD_LEN {
        return Err(EnvelopeError::FormatError);
    }
    if public_keys.len() % FIELD_LEN != 0 {
        return Err(EnvelopeError::RecipientListError);
    }
    let fp = to_field(&fingerprint);
    let sk = to_field(&private_key);
    let n = public_keys.len() / FIELD_LEN;
    proof {
        vstd::arithmetic::div_mod::lemma_fundamental_div_mod(public_keys@.len() as int, 32);
    }
    let total = public_keys.len();
    let mut recipients: Vec<[u8; FIELD_LEN]> = Vec::new();
    let mut c: usize = 0;
    while c < n
        invariant
            total == public_keys@.len(),
            32 * n == total,
            c <= n,
            recipients@.len() == c,
            forall|i: int|
                0 <= i < c ==> #[trigger] recipients@[i]@ == public_keys@.subrange(
                    32 * i,
                    32 * i + 32,
                ),
        decreases n - c,
    {
        proof {
            assert(32 * (c + 1) <= 32 * n) by {
                vstd::arithmetic::mul::lemma_mul_inequality(c as int + 1, n as int, 32);
            }
        }
        let base = 32 * c;
        let mut arr = [0u8; FIELD_LEN];
        for j in 0..FIELD_LEN
            invariant
                base == 32 * c,
                total == public_keys@.len(),
                base + 32 <= total,
                forall|k: int| 0 <= k < j ==> arr@[k] == public_keys@[base + k],
        {
            arr[j] = public_keys[base + j];
        }
        proof {
            assert(arr@ =~= public_keys@.subrange(32 * (c as int), 32 * (c as int) + 32));
        }
        recipients.push(arr);
        c = c + 1;
    }
    let ghost content_len = content@.len();
    match rgp_seal(&fp, content, &sk, &recipients) {
        Ok(sealed) => {
            proof {
                lemma_sealed_well_formed(sealed@, (total / 32) as nat, content_len);
            }
            Ok(sealed)
        },
        Err(e) => Err(e),
    }
}

/// Opens the component at `position` and decrypts the envelope's content.
///
/// The component is located positionally — no search is performed; the
/// caller supplies the index matching their identity.  A wrong-length
/// verifier or key is a format error before any cryptographic step; a
/// component that is not DH-tagged (or a position past the recipient count)
/// is a component-type error; from there the outcome is decided by the
/// primitive alone, and every cryptographic rejection — wrong verifier,
/// wrong keys, tampered bytes — is reported as the identical authentication
/// error, never as partial output.
pub fn decrypt_dh(
    position: usize,
    encrypted_content: Vec<u8>,
    verifier: Vec<u8>,
    public_key: Vec<u8>,
    private_key: Vec<u8>,
) -> (r: Result<Vec<u8>, EnvelopeError>)
    ensures
        (verifier@.len() != 32 || public_key@.len() != 32 || private_key@.len() != 32) ==> r
            == Err::<Vec<u8>, EnvelopeError>(EnvelopeError::FormatError),
        verifier@.len() == 32 && public_key@.len() == 32 && private_key@.len() == 32
            && encrypted_content@.len() == 0 ==> r == Err::<Vec<u8>, EnvelopeError>(
            EnvelopeError::FormatError,
        ),
        verifier@.len() == 32 && public_key@.len() == 32 && private_key@.len() == 32
            && encrypted_content@.len() > 0 && !is_dh_mode(encrypted_content@.last()) ==> r
            == Err::<Vec<u8>, EnvelopeError>(EnvelopeError::ComponentTypeError),
        verifier@.len() == 32 && public_key@.len() == 32 && private_key@.len() == 32
            && encrypted_content@.len() > 0 && is_dh_mode(encrypted_content@.last())
            && !dh_well_formed(encrypted_content@) ==> r == Err::<Vec<u8>, EnvelopeError>(
            EnvelopeError::FormatError,
        ),
        verifier@.len() == 32 && public_key@.len() == 32 && private_key@.len() == 32
            && dh_well_formed(encrypted_content@) && position >= dh_count(encrypted_content@)
            ==> r == Err::<Vec<u8>, EnvelopeError>(EnvelopeError::ComponentTypeError),
        verifier@.len() == 32 && public_key@.len() == 32 && private_key@.len() == 32
            && dh_well_formed(encrypted_content@) && position < dh_count(encrypted_content@)
            ==> (r matches Ok(content) ==> dh_opened(
            verifier@,
            dh_remainder(encrypted_content@),
            dh_component_key(encrypted_content@, position as nat),
            public_key@,
            private_key@,
        ) == Some(content@)),
        verifier@.len() == 32 && public_key@.len() == 32 && private_key@.len() == 32
            && dh_well_formed(encrypted_content@) && position < dh_count(encrypted_content@)
            ==> (r matches Err(e) ==> e == EnvelopeError::AuthenticationError && dh_opened(
            verifier@,
            dh_remainder(encrypted_content@),
            dh_component_key(encrypted_content@, position as nat),
            public_key@,
            private_key@,
        ) is None),
{
    if verifier.len() != FIELD_LEN || public_key.len() != FIELD_LEN || private_key.len()
        != FIELD_LEN {
        return Err(EnvelopeError::FormatError);
    }
    let vk = to_field(&verifier);
    let pk = to_field(&public_key);
    let sk = to_field(&private_key);
    let len = encrypted_content.len();
    if len == 0 {
        return Err(EnvelopeError::FormatError);
    }
    let tag = encrypted_content[len - 1];
    if !(tag == DH_MODE || tag == DH_WITH_HMAC_MODE) {
        return Err(EnvelopeError::ComponentTypeError);
    }
    match parse_dh(&encrypted_content) {
        None => Err(EnvelopeError::FormatError),
        Some((hlen, count)) => {
            if position as u64 >= count {
                return Err(EnvelopeError::ComponentTypeError);
            }
            let wrapped_key = read_key(&encrypted_content, hlen, position);
            let remainder = strip_components(&encrypted_content, hlen, count);
            rgp_open(&vk, &remainder, &wrapped_key, &pk, &sk)
        },
    }
}

} // verus!
