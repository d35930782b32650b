//! The ways in which a recovery can fail.

use vstd::prelude::*;

verus! {

/// Why no public key was returned.
#[derive(Clone, Copy, Debug, PartialEq, Eq, Structural)]
pub enum RecoverError {
    /// The parity byte of a compressed key is neither 2 nor 3.
    InvalidEncoding,
    /// No point of the curve has the x-coordinate of a compressed key.
    DecompressionFailed,
    /// The hint does not have the shape of a compressed key followed by a
    /// scalar.
    MalformedHint,
    /// The hinted key could not be expanded to a point of the curve.
    RecoveryFailed,
    /// The signature is not one that the candidate key made over the digest.
    VerificationFailed,
}

} // verus!
