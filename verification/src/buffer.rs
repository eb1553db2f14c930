//! Owned and borrowed byte buffers. Plaintext and ciphertext never expose
//! their bytes for mutation; every transformation goes through sealing,
//! unsealing or padding. Views never copy: a slice is a pair of bounds
//! into the original storage.

use vstd::prelude::*;

use crate::desc::MACBYTES;
use crate::error::CryptoError;
use crate::sodium::{open_bytes, random_stream_bytes, seal_bytes, sealed, Nonce, SecretKey};

verus! {

/// An owned buffer of cleartext bytes.
pub struct PlainText {
    bytes: Vec<u8>,
}

impl View for PlainText {
    type V = Seq<u8>;

    closed spec fn view(&self) -> Seq<u8> {
        self.bytes@
    }
}

impl PlainText {
    /// Wraps caller-supplied bytes.
    pub fn new(bytes: Vec<u8>) -> (pt: PlainText)
        ensures
            pt@ == bytes@,
    {
        PlainText { bytes }
    }

    /// Takes the bytes out of `bytes`, leaving it empty.
    pub fn from_vec(bytes: &mut Vec<u8>) -> (pt: PlainText)
        ensures
            pt@ == old(bytes)@,
            final(bytes)@ == Seq::<u8>::empty(),
    {
        let mut v: Vec<u8> = Vec::new();
        v.append(bytes);
        proof {
            assert(v@ =~= old(bytes)@);
        }
        PlainText { bytes: v }
    }

    /// How many bytes the plaintext holds.
    pub fn len(&self) -> (n: usize)
        ensures
            n == self@.len(),
    {
        self.bytes.len()
    }

    /// Seals these bytes under `(nonce, key)`. The nonce must never be
    /// reused with the same key.
    pub fn to_ciphertext(&self, nonce: &Nonce, key: &SecretKey) -> (ct: CipherText)
        ensures
            ct@ == sealed(key@, nonce@, self@),
            ct@.len() == self@.len() + MACBYTES,
    {
        CipherText { bytes: seal_bytes(self.bytes.as_slice(), nonce, key) }
    }

    /// A read-only view of the bytes.
    pub fn as_bytes(&self) -> (r: &[u8])
        ensures
            r@ == self@,
    {
        self.bytes.as_slice()
    }

    /// Unwraps the buffer.
    pub fn into_vec(self) -> (r: Vec<u8>)
        ensures
            r@ == self@,
    {
        self.bytes
    }
}

/// An owned buffer holding one or more concatenated sealed segments,
/// optionally followed by unauthenticated padding.
pub struct CipherText {
    bytes: Vec<u8>,
}

impl View for CipherText {
    type V = Seq<u8>;

    closed spec fn view(&self) -> Seq<u8> {
        self.bytes@
    }
}

impl CipherText {
    /// Wraps already-sealed bytes.
    pub fn new(ct: Vec<u8>) -> (r: CipherText)
        ensures
            r@ == ct@,
    {
        CipherText { bytes: ct }
    }

    /// Takes the bytes out of `other_ct`, leaving it empty.
    pub fn from(other_ct: &mut CipherText) -> (r: CipherText)
        ensures
            r@ == old(other_ct)@,
            final(other_ct)@ == Seq::<u8>::empty(),
    {
        let mut ct = CipherText::new(Vec::new());
        ct.append(other_ct);
        proof {
            assert(ct@ =~= old(other_ct)@);
        }
        ct
    }

    /// Moves the bytes of `other` onto the end of `self`; `other` becomes empty.
    pub fn append(&mut self, other: &mut CipherText)
        ensures
            final(self)@ == old(self)@ + old(other)@,
            final(other)@ == Seq::<u8>::empty(),
    {
        self.bytes.append(&mut other.bytes);
    }

    /// How many bytes the ciphertext holds.
    pub fn len(&self) -> (n: usize)
        ensures
            n == self@.len(),
    {
        self.bytes.len()
    }

    /// Moves the bytes of `self` onto the end of `out`; `self` becomes empty.
    pub fn empty_into(&mut self, out: &mut CipherText)
        ensures
            final(out)@ == old(out)@ + old(self)@,
            final(self)@ == Seq::<u8>::empty(),
    {
        out.bytes.append(&mut self.bytes);
    }

    /// Extends the buffer to `final_size` bytes with pseudorandom filler;
    /// a buffer already that long is left alone. The filler is not
    /// authenticated and every original byte stays in place, so it must be
    /// applied only after all sealed segments have been written.
    pub fn random_pad_upto(&mut self, final_size: usize)
        ensures
            old(self)@.len() >= final_size ==> final(self)@ == old(self)@,
            old(self)@.len() < final_size ==> final(self)@.len() == final_size,
            final(self)@.subrange(0, old(self)@.len() as int) == old(self)@,
    {
        let size = self.bytes.len();
        if final_size > size {
            let mut pad = random_stream_bytes(final_size - size);
            self.bytes.append(&mut pad);
            proof {
                assert(self@.subrange(0, old(self)@.len() as int) =~= old(self)@);
            }
        } else {
            proof {
                assert(self@.subrange(0, old(self)@.len() as int) =~= old(self)@);
            }
        }
    }

    /// Unwraps the buffer.
    pub fn into_vec(self) -> (r: Vec<u8>)
        ensures
            r@ == self@,
    {
        self.bytes
    }

    /// A non-owning view of the whole buffer.
    pub fn as_ref<'a>(&'a self) -> (r: CipherTextRef<'a>)
        ensures
            r@ == self@,
    {
        CipherTextRef { bytes: self.bytes.as_slice() }
    }
}

/// A non-owning view into a ciphertext's bytes.
pub struct CipherTextRef<'a> {
    bytes: &'a [u8],
}

impl<'a> View for CipherTextRef<'a> {
    type V = Seq<u8>;

    closed spec fn view(&self) -> Seq<u8> {
        self.bytes@
    }
}

impl<'a> CipherTextRef<'a> {
    /// Wraps a borrowed byte slice.
    pub fn new(bytes: &'a [u8]) -> (r: CipherTextRef<'a>)
        ensures
            r@ == bytes@,
    {
        CipherTextRef { bytes }
    }

    /// The sub-view from `from` (inclusive) to `to` (exclusive); no copy.
    pub fn slice(&self, from: usize, to: usize) -> (r: CipherTextRef<'a>)
        requires
            from <= to <= self@.len(),
        ensures
            r@ == self@.subrange(from as int, to as int),
    {
        CipherTextRef { bytes: &self.bytes[from..to] }
    }

    /// How many bytes the view covers.
    pub fn len(&self) -> (n: usize)
        ensures
            n == self@.len(),
    {
        self.bytes.len()
    }

    /// Splits off the last `len` bytes: everything before them, then the
    /// tail itself. The building block of tail-first parsing.
    pub fn split_from_right(&self, len: usize) -> (r: (CipherTextRef<'a>, CipherTextRef<'a>))
        requires
            len <= self@.len(),
        ensures
            r.0@ == self@.subrange(0, self@.len() - len as int),
            r.1@ == self@.subrange(self@.len() - len as int, self@.len() as int),
    {
        let n = self.bytes.len();
        (self.slice(0, n - len), self.slice(n - len, n))
    }

    /// The viewed bytes.
    pub fn as_bytes(&self) -> (r: &'a [u8])
        ensures
            r@ == self@,
    {
        self.bytes
    }

    /// Opens the viewed bytes under `(nonce, key)`. Succeeds on exactly the
    /// bytes that sealing some message under that pair yields, and returns
    /// that message; everything else fails authentication.
    pub fn to_plaintext(&self, nonce: &Nonce, key: &SecretKey) -> (r: Result<
        PlainText,
        CryptoError,
    >)
        ensures
            r matches Ok(p) ==> (self@ == sealed(key@, nonce@, p@) && self@.len() == p@.len()
                + MACBYTES && (forall|m: Seq<u8>| self@ == sealed(key@, nonce@, m) ==> m == p@)),
            r matches Err(e) ==> (e == CryptoError::Authentication && (forall|m: Seq<u8>|
                self@ != sealed(key@, nonce@, m))),
    {
        match open_bytes(self.bytes, nonce, key) {
            Ok(m) => Ok(PlainText::new(m)),
            Err(_) => Err(CryptoError::Authentication),
        }
    }
}

} // verus!
