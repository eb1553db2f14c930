//! The boundary to the authenticated-encryption primitive: key and nonce
//! types of fixed size, and the trusted wrappers around sodiumoxide's
//! secretbox (xsalsa20poly1305) and salsa20 stream functions.

use vstd::prelude::*;

use crate::desc::{KEYBYTES, MACBYTES, NONCEBYTES};
use crate::model::static_nonce_seq;

verus! {

/// What secretbox sealing returns for a key, a nonce and a message. The
/// primitive is deterministic, so its output is a pure function of the
/// three; it is only ever named here, never written out.
pub uninterp spec fn sealed(key: Seq<u8>, nonce: Seq<u8>, m: Seq<u8>) -> Seq<u8>;

/// A secretbox key: exactly `KEYBYTES` bytes.
pub struct SecretKey {
    bytes: Vec<u8>,
}

impl View for SecretKey {
    type V = Seq<u8>;

    closed spec fn view(&self) -> Seq<u8> {
        self.bytes@
    }
}

impl SecretKey {
    /// Every key holds exactly `KEYBYTES` bytes.
    #[verifier::type_invariant]
    pub open spec fn wf(self) -> bool {
        self@.len() == KEYBYTES
    }

    /// Builds a key from exactly `KEYBYTES` bytes; any other length is refused.
    pub fn from_slice(bs: &[u8]) -> (r: Option<SecretKey>)
        ensures
            bs@.len() == KEYBYTES ==> (r matches Some(k) && k@ == bs@),
            bs@.len() != KEYBYTES ==> r is None,
    {
        if bs.len() == KEYBYTES {
            Some(SecretKey { bytes: vstd::slice::slice_to_vec(bs) })
        } else {
            None
        }
    }
}

/// A secretbox nonce: exactly `NONCEBYTES` bytes. A nonce must never be
/// reused with the same key.
pub struct Nonce {
    bytes: Vec<u8>,
}

impl View for Nonce {
    type V = Seq<u8>;

    closed spec fn view(&self) -> Seq<u8> {
        self.bytes@
    }
}

impl Nonce {
    /// Every nonce holds exactly `NONCEBYTES` bytes.
    #[verifier::type_invariant]
    pub open spec fn wf(self) -> bool {
        self@.len() == NONCEBYTES
    }

    /// Builds a nonce from exactly `NONCEBYTES` bytes; any other length is refused.
    pub fn from_slice(bs: &[u8]) -> (r: Option<Nonce>)
        ensures
            bs@.len() == NONCEBYTES ==> (r matches Some(n) && n@ == bs@),
            bs@.len() != NONCEBYTES ==> r is None,
    {
        if bs.len() == NONCEBYTES {
            Some(Nonce { bytes: vstd::slice::slice_to_vec(bs) })
        } else {
            None
        }
    }

    /// The nonce's bytes.
    pub fn as_bytes(&self) -> (r: &[u8])
        ensures
            r@ == self@,
    {
        self.bytes.as_slice()
    }

    /// The nonce's bytes as an owned vector.
    pub fn to_vec(&self) -> (r: Vec<u8>)
        ensures
            r@ == self@,
    {
        vstd::slice::slice_to_vec(self.bytes.as_slice())
    }
}

/// The fixed, publicly known nonce of the per-chunk scheme: safe only
/// because every per-chunk key is generated fresh and used exactly once.
pub fn static_nonce() -> (n: Nonce)
    ensures
        n@ == static_nonce_seq(),
{
    let bytes: Vec<u8> = vec![255u8; NONCEBYTES];
    proof {
        assert(bytes@ =~= static_nonce_seq());
    }
    Nonce { bytes }
}

/// Relies on sodiumoxide's secretbox::xsalsa20poly1305::gen_key: a freshly
/// drawn random 32-byte key. Nothing is promised of its value.
#[verifier::external_body]
pub(crate) fn gen_key() -> SecretKey {
    let raw = sodiumoxide::crypto::secretbox::xsalsa20poly1305::gen_key();
    SecretKey { bytes: raw.0.to_vec() }
}

/// Relies on sodiumoxide's secretbox::xsalsa20poly1305::gen_nonce: a freshly
/// drawn random 24-byte nonce. Nothing is promised of its value.
#[verifier::external_body]
pub(crate) fn gen_nonce() -> Nonce {
    let raw = sodiumoxide::crypto::secretbox::xsalsa20poly1305::gen_nonce();
    Nonce { bytes: raw.0.to_vec() }
}

/// Relies on sodiumoxide's secretbox::xsalsa20poly1305::seal: authenticated
/// encryption of `m` under `(nonce, key)`, deterministic in its arguments
/// (named `sealed`) and exactly `MACBYTES` longer than `m`.
#[verifier::external_body]
pub(crate) fn seal_bytes(m: &[u8], nonce: &Nonce, key: &SecretKey) -> (r: Vec<u8>)
    ensures
        r@ == sealed(key@, nonce@, m@),
        r@.len() == m@.len() + MACBYTES,
{
    let n = sodiumoxide::crypto::secretbox::xsalsa20poly1305::Nonce::from_slice(
        &nonce.bytes,
    ).unwrap();
    let k = sodiumoxide::crypto::secretbox::xsalsa20poly1305::Key::from_slice(
        &key.bytes,
    ).unwrap();
    sodiumoxide::crypto::secretbox::xsalsa20poly1305::seal(m, &n, &k)
}

/// Relies on sodiumoxide's secretbox::xsalsa20poly1305::open: succeeds on
/// exactly the bytes that sealing some message under `(nonce, key)` yields,
/// returns that message (`MACBYTES` shorter than the input), and fails
/// tag verification on everything else.
#[verifier::external_body]
pub(crate) fn open_bytes(c: &[u8], nonce: &Nonce, key: &SecretKey) -> (r: Result<Vec<u8>, ()>)
    ensures
        r matches Ok(p) ==> (c@ == sealed(key@, nonce@, p@) && c@.len() == p@.len() + MACBYTES
            && (forall|m: Seq<u8>| c@ == sealed(key@, nonce@, m) ==> m == p@)),
        r matches Err(e) ==> (forall|m: Seq<u8>| c@ != sealed(key@, nonce@, m)),
{
    let n = sodiumoxide::crypto::secretbox::xsalsa20poly1305::Nonce::from_slice(
        &nonce.bytes,
    ).unwrap();
    let k = sodiumoxide::crypto::secretbox::xsalsa20poly1305::Key::from_slice(
        &key.bytes,
    ).unwrap();
    sodiumoxide::crypto::secretbox::xsalsa20poly1305::open(c, &n, &k)
}

/// Relies on sodiumoxide's stream::salsa20 (gen_key, Nonce::from_slice,
/// stream) and randombytes: a keystream of `len` bytes under a throwaway
/// key and nonce that are discarded at once. Only the length is promised.
#[verifier::external_body]
pub(crate) fn random_stream_bytes(len: usize) -> (r: Vec<u8>)
    ensures
        r@.len() == len,
{
    let key = sodiumoxide::crypto::stream::salsa20::gen_key();
    let nonce_bytes = sodiumoxide::randombytes::randombytes(
        sodiumoxide::crypto::stream::salsa20::NONCEBYTES,
    );
    let nonce = sodiumoxide::crypto::stream::salsa20::Nonce::from_slice(&nonce_bytes).unwrap();
    sodiumoxide::crypto::stream::salsa20::stream(len, &nonce, &key)
}

} // verus!
