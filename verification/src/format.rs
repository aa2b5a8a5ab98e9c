//! The byte layout of a DH-mode envelope.
//!
//! An envelope sealed for `n` recipients is laid out as
//!
//! ```text
//! nonce (24) | count header (1..9) | n wrapped keys (32 each)
//!           | ciphertext (content + 80) | mode tag (1)
//! ```
//!
//! where the ciphertext carries the content, a 64-byte signature and a
//! 16-byte authenticator, and the count header is a variable-width encoding
//! of `n`.  These spec functions describe that layout; the decoder's parser
//! and the encoder's contract are both stated over them, which is what makes
//! positional lookup provable.

use vstd::prelude::*;

verus! {

/// Mode tag of a DH envelope whose wrapping keys are raw shared secrets.
pub const DH_MODE: u8 = 2;

/// Mode tag of a DH envelope whose wrapping keys were passed through an HMAC.
pub const DH_WITH_HMAC_MODE: u8 = 4;

/// Bytes of nonce at the start of an envelope.
pub const NONCE_LEN: usize = 24;

/// Bytes of every fixed-size field: fingerprint, verifier, keys.
pub const FIELD_LEN: usize = 32;

/// Bytes the ciphertext section adds beyond the content: a 64-byte signature
/// encrypted along with the content and a 16-byte authenticator tag.
pub const SEAL_OVERHEAD: usize = 80;

pub open spec fn is_dh_mode(tag: u8) -> bool {
    tag == DH_MODE || tag == DH_WITH_HMAC_MODE
}

/// 256 to the power `w`: the number of values a `w`-byte field can hold.
pub open spec fn pow256(w: nat) -> nat
    decreases w,
{
    if w == 0 {
        1
    } else {
        256 * pow256((w - 1) as nat)
    }
}

/// The `w`-byte big-endian encoding of `n`.
pub open spec fn be_bytes(n: nat, w: nat) -> Seq<u8>
    decreases w,
{
    if w == 0 {
        Seq::empty()
    } else {
        be_bytes(n / 256, (w - 1) as nat).push((n % 256) as u8)
    }
}

/// The value of a big-endian byte string.
pub open spec fn be_val(s: Seq<u8>) -> nat
    decreases s.len(),
{
    if s.len() == 0 {
        0
    } else {
        be_val(s.drop_last()) * 256 + s.last() as nat
    }
}

/// The variable-width recipient-count header: a count below 128 is stored in
/// one byte with its low bit set; otherwise an even marker byte tells the
/// width of the big-endian count that follows.
pub open spec fn count_header(n: nat) -> Seq<u8> {
    if n < 128 {
        seq![(2 * n + 1) as u8]
    } else if n < 256 {
        seq![0u8].add(be_bytes(n, 1))
    } else if n < 65536 {
        seq![4u8].add(be_bytes(n, 2))
    } else if n < 0x1_0000_0000 {
        seq![8u8].add(be_bytes(n, 4))
    } else {
        seq![12u8].add(be_bytes(n, 8))
    }
}

/// How many bytes a count header occupies, read off its first byte.
pub open spec fn parsed_header_len(b0: u8) -> nat {
    if b0 % 2 == 1 {
        1
    } else if (b0 / 4) % 4 == 0 {
        2
    } else if (b0 / 4) % 4 == 1 {
        3
    } else if (b0 / 4) % 4 == 2 {
        5
    } else {
        9
    }
}

/// The recipient count encoded by the header starting at index `at`.
pub open spec fn parsed_count(env: Seq<u8>, at: int) -> nat {
    let b0 = env[at];
    if b0 % 2 == 1 {
        (b0 / 2) as nat
    } else if (b0 / 4) % 4 == 0 {
        env[at + 1] as nat
    } else if (b0 / 4) % 4 == 1 {
        be_val(env.subrange(at + 1, at + 3))
    } else if (b0 / 4) % 4 == 2 {
        be_val(env.subrange(at + 1, at + 5))
    } else {
        be_val(env.subrange(at + 1, at + 9))
    }
}

/// Width of the count header of `env`, whose first byte sits after the nonce.
pub open spec fn dh_header_len(env: Seq<u8>) -> nat {
    parsed_header_len(env[NONCE_LEN as int])
}

/// Recipient count of `env`.
pub open spec fn dh_count(env: Seq<u8>) -> nat {
    parsed_count(env, NONCE_LEN as int)
}

/// Index of the first wrapped key.
pub open spec fn dh_keys_start(env: Seq<u8>) -> int {
    NONCE_LEN + dh_header_len(env)
}

/// Index of the ciphertext section.
pub open spec fn dh_ciphertext_start(env: Seq<u8>) -> int {
    dh_keys_start(env) + 32 * dh_count(env)
}

/// A DH-tagged envelope whose component region and ciphertext section both
/// fit: the decoder can address every component and the ciphertext carries at
/// least the signature and authenticator.
pub open spec fn dh_well_formed(env: Seq<u8>) -> bool {
    &&& env.len() >= NONCE_LEN + 1
    &&& is_dh_mode(env.last())
    &&& env.len() >= NONCE_LEN + SEAL_OVERHEAD + 1 + dh_header_len(env) + 32 * dh_count(env)
}

/// The wrapped content key of the component at `pos`.
pub open spec fn dh_component_key(env: Seq<u8>, pos: nat) -> Seq<u8> {
    env.subrange(dh_keys_start(env) + 32 * pos, dh_keys_start(env) + 32 * pos + 32)
}

/// The envelope with its component region and mode tag stripped: the nonce
/// followed by the ciphertext section, which is what the content cipher runs
/// over.
pub open spec fn dh_remainder(env: Seq<u8>) -> Seq<u8> {
    env.subrange(0, NONCE_LEN as int).add(
        env.subrange(dh_ciphertext_start(env), env.len() - 1),
    )
}

/// What the encoder emits for `n` recipients and `content_len` content bytes:
/// the exact overall length, the exact count header, and the plain DH tag.
pub open spec fn dh_sealed(env: Seq<u8>, n: nat, content_len: nat) -> bool {
    &&& env.len() == NONCE_LEN + SEAL_OVERHEAD + 1 + count_header(n).len() + 32 * n + content_len
    &&& env.subrange(NONCE_LEN as int, NONCE_LEN + count_header(n).len()) == count_header(n)
    &&& env.last() == DH_MODE
}

/// `pow256` is positive and weakly increasing.
pub proof fn lemma_pow256_le(a: nat, b: nat)
    requires
        a <= b,
    ensures
        1 <= pow256(a) <= pow256(b),
    decreases b,
{
    if a == b {
        if a > 0 {
            lemma_pow256_le((a - 1) as nat, (a - 1) as nat);
        }
    } else {
        lemma_pow256_le(a, (b - 1) as nat);
    }
}

pub proof fn lemma_pow256_values()
    ensures
        pow256(1) == 0x100,
        pow256(2) == 0x1_0000,
        pow256(4) == 0x1_0000_0000,
        pow256(7) == 0x100_0000_0000_0000,
        pow256(8) == 0x1_0000_0000_0000_0000,
{
    assert(pow256(0) == 1);
    assert(pow256(1) == 0x100);
    assert(pow256(2) == 0x1_0000);
    assert(pow256(3) == 0x100_0000);
    assert(pow256(4) == 0x1_0000_0000);
    assert(pow256(5) == 0x100_0000_0000);
    assert(pow256(6) == 0x1_0000_0000_0000);
    assert(pow256(7) == 0x100_0000_0000_0000);
    assert(pow256(8) == 0x1_0000_0000_0000_0000);
}

/// A `w`-byte big-endian field decodes back to the value it encodes.
pub proof fn lemma_be_roundtrip(n: nat, w: nat)
    requires
        n < pow256(w),
    ensures
        be_bytes(n, w).len() == w,
        be_val(be_bytes(n, w)) == n,
    decreases w,
{
    if w == 0 {
    } else {
        let q = n / 256;
        let r = n % 256;
        assert(n == 256 * q + r && r < 256) by {
            vstd::arithmetic::div_mod::lemma_fundamental_div_mod(n as int, 256);
        }
        assert(q < pow256((w - 1) as nat)) by {
            if q >= pow256((w - 1) as nat) {
                assert(256 * q >= 256 * pow256((w - 1) as nat)) by {
                    vstd::arithmetic::mul::lemma_mul_inequality(
                        pow256((w - 1) as nat) as int,
                        q as int,
                        256,
                    );
                }
            }
        }
        lemma_be_roundtrip(q, (w - 1) as nat);
        let s = be_bytes(n, w);
        assert(s == be_bytes(q, (w - 1) as nat).push(r as u8));
        assert(s.drop_last() =~= be_bytes(q, (w - 1) as nat));
        assert(s.last() == r as u8);
        assert(be_val(s) == be_val(be_bytes(q, (w - 1) as nat)) * 256 + r);
        assert(be_val(s) == q * 256 + r);
    }
}

/// A big-endian byte string of width `w` holds a value below `pow256(w)`.
pub proof fn lemma_be_val_bound(s: Seq<u8>)
    ensures
        be_val(s) < pow256(s.len()),
    decreases s.len(),
{
    if s.len() == 0 {
    } else {
        lemma_be_val_bound(s.drop_last());
        let v = be_val(s.drop_last());
        assert(v + 1 <= pow256((s.len() - 1) as nat));
        assert((v + 1) * 256 <= pow256((s.len() - 1) as nat) * 256) by {
            vstd::arithmetic::mul::lemma_mul_inequality(
                (v + 1) as int,
                pow256((s.len() - 1) as nat) as int,
                256,
            );
        }
        assert(v * 256 + 256 == (v + 1) * 256) by {
            vstd::arithmetic::mul::lemma_mul_is_distributive_add_other_way(
                256,
                v as int,
                1,
            );
        }
        assert(be_val(s) == v * 256 + s.last());
    }
}

/// Wherever the bytes of `count_header(n)` stand in an envelope, the parser
/// reads back exactly `n` and the header's exact width.
pub proof fn lemma_count_header_decodes(env: Seq<u8>, at: int, n: nat)
    requires
        0 <= at,
        at + count_header(n).len() <= env.len(),
        env.subrange(at, at + count_header(n).len()) == count_header(n),
        n < 0x1_0000_0000_0000_0000,
    ensures
        parsed_header_len(env[at]) == count_header(n).len(),
        parsed_count(env, at) == n,
{
    lemma_pow256_values();
    let h = count_header(n);
    assert(env[at] == h[0]) by {
        assert(env.subrange(at, at + h.len())[0] == env[at]);
    }
    if n < 128 {
        let b0 = (2 * n + 1) as u8;
        assert(h == seq![b0]);
        assert(b0 == 2 * n + 1);
        assert(b0 % 2 == 1);
        assert(b0 / 2 == n);
    } else {
        let w: nat = if n < 256 {
            1
        } else if n < 65536 {
            2
        } else if n < 0x1_0000_0000 {
            4
        } else {
            8
        };
        let tag: u8 = if n < 256 {
            0
        } else if n < 65536 {
            4
        } else if n < 0x1_0000_0000 {
            8
        } else {
            12
        };
        assert(n < pow256(w));
        lemma_be_roundtrip(n, w);
        assert(h == seq![tag].add(be_bytes(n, w)));
        assert(h.len() == 1 + w);
        assert(h[0] == tag);
        assert(tag % 2 == 0);
        assert(env.subrange(at + 1, at + 1 + w) =~= be_bytes(n, w)) by {
            assert(forall|i: int|
                0 <= i < w ==> #[trigger] env.subrange(at + 1, at + 1 + w)[i] == env.subrange(
                    at,
                    at + h.len(),
                )[i + 1]);
        }
        if n < 256 {
            assert(parsed_header_len(env[at]) == 2);
            assert(env[at + 1] == be_bytes(n, 1)[0]);
            assert(be_bytes(n, 1) == be_bytes(n / 256, 0).push((n % 256) as u8));
            assert(env[at + 1] == n);
        } else if n < 65536 {
            assert(parsed_header_len(env[at]) == 3);
            assert(parsed_count(env, at) == be_val(env.subrange(at + 1, at + 3)));
        } else if n < 0x1_0000_0000 {
            assert(parsed_header_len(env[at]) == 5);
            assert(parsed_count(env, at) == be_val(env.subrange(at + 1, at + 5)));
        } else {
            assert(parsed_header_len(env[at]) == 9);
            assert(parsed_count(env, at) == be_val(env.subrange(at + 1, at + 9)));
        }
    }
}

/// The structural half of the round trip: an envelope freshly sealed for `n`
/// recipients is well formed, still reports recipient count `n`, and is
/// DH-tagged, so for every position below `n` the decoder reaches the
/// cryptographic step — by the decoder's contract it can only return the
/// plaintext or an authentication failure there, never a format or
/// component-type error.
pub proof fn lemma_sealed_well_formed(env: Seq<u8>, n: nat, content_len: nat)
    requires
        dh_sealed(env, n, content_len),
        n < 0x1_0000_0000_0000_0000,
    ensures
        dh_well_formed(env),
        dh_count(env) == n,
        dh_header_len(env) == count_header(n).len(),
        env.last() == DH_MODE,
        dh_ciphertext_start(env) == NONCE_LEN + count_header(n).len() + 32 * n,
        dh_remainder(env).len() == NONCE_LEN + content_len + SEAL_OVERHEAD,
{
    lemma_count_header_decodes(env, NONCE_LEN as int, n);
}

} // verus!
