//! Error taxonomy: authentication failures are expected and recoverable;
//! an underrun means the buffer cannot hold what its framing claims.

use vstd::prelude::*;

verus! {

/// Why an unseal step failed.
#[derive(Clone, Copy, Debug, PartialEq, Eq, Structural)]
pub enum CryptoError {
    /// An authentication tag did not verify: the data was tampered with,
    /// corrupted, or sealed under a different key.
    Authentication,
    /// The buffer holds fewer bytes than the framing asks for.
    Underrun,
}

} // verus!
