//! The per-chunk scheme: every chunk is sealed under a key generated fresh
//! for it and recorded in the chunk's metadata. The nonce is a fixed public
//! constant, safe only because no key is ever used twice.

use vstd::prelude::*;

use crate::buffer::{CipherText, CipherTextRef, PlainText};
use crate::desc::MACBYTES;
use crate::error::CryptoError;
use crate::model::static_nonce_seq;
use crate::sodium::{gen_key, sealed, static_nonce, SecretKey};

verus! {

/// The encryption key recorded in chunk metadata: a tagged union over
/// algorithm variants, so stored metadata can name formats this build does
/// not implement. Exactly one variant is implemented today; the unmatched
/// case must be treated as a hard failure, never silently defaulted.
pub enum Key {
    /// A secretbox (xsalsa20poly1305) key.
    XSalsa20Poly1305(SecretKey),
    /// A variant of a future or foreign format.
    Unknown,
}

/// A chunk's ciphertext sub-range inside a larger buffer, and the key that
/// sealed it. Owned by the hash-tree layer; read here.
pub struct ChunkRef {
    /// Where the chunk's ciphertext starts.
    pub offset: usize,
    /// How many bytes it covers.
    pub length: usize,
    /// The key it was sealed under, if any was recorded.
    pub key: Option<Key>,
}

/// A hash-tree entry: the chunk's hash and its persistent reference.
/// Sealing writes the generated key and the ciphertext length into the
/// persistent reference.
pub struct HashRef {
    /// The chunk's content hash.
    pub hash: Vec<u8>,
    /// Where and how the sealed bytes are stored.
    pub persistent_ref: ChunkRef,
}

/// The bytes of the secretbox key a chunk reference records, where it
/// records one.
pub open spec fn chunk_key_bytes(cref: ChunkRef) -> Seq<u8> {
    match cref.key {
        Some(Key::XSalsa20Poly1305(k)) => k@,
        _ => Seq::<u8>::empty(),
    }
}

/// The per-chunk scheme.
pub struct RefKey {}

impl RefKey {
    /// Seals `pt` under a freshly generated single-use key and the fixed
    /// nonce, records the key and the ciphertext length in `href`, and
    /// returns the ciphertext. Key generation and fixed-nonce sealing are
    /// one atomic operation: no caller can reuse the key.
    pub fn seal(href: &mut HashRef, pt: PlainText) -> (ct: CipherText)
        ensures
            final(href).hash == old(href).hash,
            final(href).persistent_ref.offset == old(href).persistent_ref.offset,
            final(href).persistent_ref.length == ct@.len(),
            final(href).persistent_ref.key matches Some(Key::XSalsa20Poly1305(k)) && ct@ == sealed(
                k@,
                static_nonce_seq(),
                pt@,
            ),
            ct@.len() == pt@.len() + MACBYTES,
    {
        let key = gen_key();
        let ct = pt.to_ciphertext(&static_nonce(), &key);
        href.persistent_ref.key = Some(Key::XSalsa20Poly1305(key));
        href.persistent_ref.length = ct.len();
        ct
    }

    /// Unseals the chunk that `cref` places inside `ct`: slices out exactly
    /// the recorded sub-range and opens it under the recorded key and the
    /// fixed nonce. The view must cover the recorded range, and the key
    /// variant must be the one this scheme implements; anything else is an
    /// invariant violation, not a normal error. Fails with an
    /// authentication error exactly when the sub-range is not something
    /// sealing under that key produced.
    pub fn unseal(hash: &[u8], cref: &ChunkRef, ct: CipherTextRef<'_>) -> (r: Result<
        PlainText,
        CryptoError,
    >)
        requires
            cref.offset + cref.length <= ct@.len(),
            cref.key matches Some(Key::XSalsa20Poly1305(_)),
        ensures
            r matches Ok(p) ==> (ct@.subrange(cref.offset as int, cref.offset + cref.length)
                == sealed(chunk_key_bytes(*cref), static_nonce_seq(), p@) && (forall|m: Seq<u8>|
                ct@.subrange(cref.offset as int, cref.offset + cref.length) == sealed(
                    chunk_key_bytes(*cref),
                    static_nonce_seq(),
                    m,
                ) ==> m == p@)),
            r matches Err(e) ==> (e == CryptoError::Authentication && (forall|m: Seq<u8>|
                ct@.subrange(cref.offset as int, cref.offset + cref.length) != sealed(
                    chunk_key_bytes(*cref),
                    static_nonce_seq(),
                    m,
                ))),
    {
        let total = ct.len();
        proof {
            assert(cref.offset + cref.length <= total);
        }
        let piece = ct.slice(cref.offset, cref.offset + cref.length);
        match &cref.key {
            Some(Key::XSalsa20Poly1305(key)) => piece.to_plaintext(&static_nonce(), key),
            _ => vstd::pervasive::unreached(),
        }
    }
}

/// Per-chunk round trip with placement: a chunk sealed under `k` and
/// stored at offset `pre.len()` of a larger buffer is exactly the slice
/// that unsealing reads, so it satisfies precisely the condition under
/// which `RefKey::unseal` returns `p`.
pub proof fn lemma_refkey_round_trip(k: Seq<u8>, p: Seq<u8>, pre: Seq<u8>, post: Seq<u8>)
    ensures
        (pre + sealed(k, static_nonce_seq(), p) + post).subrange(
            pre.len() as int,
            pre.len() + sealed(k, static_nonce_seq(), p).len() as int,
        ) == sealed(k, static_nonce_seq(), p),
{
    assert((pre + sealed(k, static_nonce_seq(), p) + post).subrange(
        pre.len() as int,
        pre.len() + sealed(k, static_nonce_seq(), p).len() as int,
    ) =~= sealed(k, static_nonce_seq(), p));
}

} // verus!
