//! Public-key recovery for ECDSA signatures over secp256k1, driven by an
//! untrusted hint.
//!
//! Recovering a key from a signature is expensive; checking that a given key
//! produced a signature is cheap. This library takes a candidate key and a
//! candidate inverse of `s` from a producer it does not trust, and accepts the
//! key only after the standard verification equation confirms it.
//!
//! The arithmetic of the scalar field and of the curve is done by the `k256`
//! crate. The few functions that call it, in [`scalar`] and [`curve`], state
//! what they rely on in their contracts; everything else is proved from those.

pub mod encoding;
pub mod scalar;
pub mod curve;
pub mod error;
pub mod hint;
pub mod pubkey;
pub mod recover;
pub mod signature;
pub mod verify;

pub use error::RecoverError;
pub use hint::{parse_hint, recovery_request};
pub use pubkey::decompress_pubkey;
pub use recover::ecrecover;
pub use scalar::Scalar;
pub use signature::Signature;
pub use verify::verify_signature;
