//! A self-describing authenticated-encryption framing layer: byte buffers
//! for plaintext and ciphertext, a per-chunk scheme that seals each chunk
//! under a fresh single-use key, a chained scheme that packs segments
//! back-to-back behind authenticated footers untied from the tail, and
//! unauthenticated random padding.

pub mod buffer;
pub mod desc;
pub mod error;
pub mod fixedkey;
pub mod model;
pub mod refkey;
pub mod sodium;

pub use buffer::{CipherText, CipherTextRef, PlainText};
pub use error::CryptoError;
pub use fixedkey::FixedKey;
pub use refkey::{ChunkRef, HashRef, Key, RefKey};
pub use sodium::{Nonce, SecretKey};
