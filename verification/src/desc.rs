//! Sizes of the sealing primitive and of the chained scheme's footer.

use vstd::prelude::*;

verus! {

/// Bytes in a secret key.
pub const KEYBYTES: usize = 32;

/// Bytes in a nonce.
pub const NONCEBYTES: usize = 24;

/// Bytes in the authentication tag that sealing appends to a message.
pub const MACBYTES: usize = 16;

/// Bytes in a footer before it is sealed: a nonce followed by a
/// little-endian 8-byte body length.
pub const FOOTER_PLAIN_BYTES: usize = NONCEBYTES + 8;

/// Bytes in a sealed footer.
pub const FOOTER_CIPHER_BYTES: usize = FOOTER_PLAIN_BYTES + MACBYTES;

/// Bytes that one chained seal adds to a plaintext: the body's own tag
/// plus the complete sealed footer.
pub const FIXED_KEY_OVERHEAD: usize = MACBYTES + FOOTER_CIPHER_BYTES;

/// Overhead of sealing one segment with the chained scheme, independent of
/// the plaintext.
pub fn fixed_key_overhead() -> (r: usize)
    ensures
        r == FIXED_KEY_OVERHEAD,
{
    MACBYTES + FOOTER_CIPHER_BYTES
}

/// Size of a footer before sealing, independent of the plaintext.
pub fn footer_plain_bytes() -> (r: usize)
    ensures
        r == FOOTER_PLAIN_BYTES,
{
    NONCEBYTES + 8
}

/// Size of a sealed footer, independent of the plaintext.
pub fn footer_cipher_bytes() -> (r: usize)
    ensures
        r == FOOTER_CIPHER_BYTES,
{
    FOOTER_PLAIN_BYTES + MACBYTES
}

} // verus!
