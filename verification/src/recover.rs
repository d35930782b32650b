//! Recovery of the key that made a signature, from a hint that is checked
//! before it is believed.

use crate::encoding::{be_nat, lemma_be_nat_injective, read_bytes};
use crate::error::RecoverError;
use crate::hint::{hint_well_formed, parse_hint};
use crate::pubkey::{decompress_pubkey, decompressed, has_parity_byte, key_bytes};
use crate::scalar::{is_inverse, lemma_inverse_unique};
use crate::signature::{is_signature_encoding, Signature};
use crate::verify::{signature_verifies, verdict, verify_signature};
use vstd::prelude::*;

verus! {

/// The number `r` in the 65 bytes of a signature.
pub open spec fn signature_r(sig: Seq<u8>) -> nat {
    be_nat(sig.subrange(0, 32))
}

/// The number `s` in the 65 bytes of a signature.
pub open spec fn signature_s(sig: Seq<u8>) -> nat {
    be_nat(sig.subrange(32, 64))
}

/// The candidate key is confirmed: the signature's scalars are in range, the
/// hinted scalar is the inverse of `s`, and the signature verifies under the
/// key.
pub open spec fn confirmed(
    key: Seq<u8>,
    sig: Seq<u8>,
    digest: Seq<u8>,
    hinted_inverse: nat,
) -> bool {
    &&& is_signature_encoding(sig.subrange(0, 64))
    &&& verdict(key, digest, signature_r(sig), signature_s(sig), Some(hinted_inverse))
}

/// What a recovery returns for a signature, a digest and a hint.
pub open spec fn recovered(
    sig: Seq<u8>,
    digest: Seq<u8>,
    hint_key: Seq<u8>,
    hint_inverse: Seq<u8>,
) -> Result<Seq<u8>, RecoverError> {
    if !hint_well_formed(hint_key, hint_inverse) {
        Err(RecoverError::MalformedHint)
    } else {
        match decompressed(hint_key) {
            Err(RecoverError::InvalidEncoding) => Err(RecoverError::InvalidEncoding),
            Err(_) => Err(RecoverError::RecoveryFailed),
            Ok(key) => if confirmed(key, sig, digest, be_nat(hint_inverse)) {
                Ok(key)
            } else {
                Err(RecoverError::VerificationFailed)
            },
        }
    }
}

/// Returns the public key that signed the digest, given a hint.
///
/// The hint is a compressed key and a scalar said to be the inverse of `s`.
/// It is trusted for nothing: the key is returned only if the signature
/// verifies under it.
pub fn ecrecover(
    sig: &[u8; 65],
    msg_hash: &[u8; 32],
    hint_key: &[u8],
    hint_inverse: &[u8],
) -> (out: Result<[u8; 65], RecoverError>)
    ensures
        key_bytes(out) == recovered(sig@, msg_hash@, hint_key@, hint_inverse@),
        out matches Ok(key) ==> signature_verifies(
            key@,
            msg_hash@,
            signature_r(sig@),
            signature_s(sig@),
        ),
{
    let (compressed, s_inverse) = match parse_hint(hint_key, hint_inverse) {
        Ok(hint) => hint,
        Err(e) => {
            return Err(e);
        },
    };
    let pubkey = match decompress_pubkey(&compressed) {
        Ok(key) => key,
        Err(RecoverError::InvalidEncoding) => {
            return Err(RecoverError::InvalidEncoding);
        },
        Err(_) => {
            return Err(RecoverError::RecoveryFailed);
        },
    };
    let scalars = read_bytes::<64>(sig.as_slice(), 0);
    assert(scalars@.subrange(0, 32) =~= sig@.subrange(0, 32));
    assert(scalars@.subrange(32, 64) =~= sig@.subrange(32, 64));
    let signature = match Signature::from_slice(scalars.as_slice()) {
        Some(signature) => signature,
        None => {
            return Err(RecoverError::VerificationFailed);
        },
    };
    if verify_signature(&pubkey, msg_hash, &signature, Some(&s_inverse)) {
        Ok(pubkey)
    } else {
        Err(RecoverError::VerificationFailed)
    }
}

/// No hint makes a recovery return a key under which the signature does not
/// verify.
pub proof fn lemma_recovered_key_verifies(
    sig: Seq<u8>,
    digest: Seq<u8>,
    hint_key: Seq<u8>,
    hint_inverse: Seq<u8>,
)
    ensures
        recovered(sig, digest, hint_key, hint_inverse) matches Ok(key) ==> signature_verifies(
            key,
            digest,
            signature_r(sig),
            signature_s(sig),
        ),
{
}

/// A hint is accepted whenever it has the right shape and is confirmed: the
/// key it holds is then the key returned.
pub proof fn lemma_confirmed_hint_is_accepted(
    sig: Seq<u8>,
    digest: Seq<u8>,
    hint_key: Seq<u8>,
    hint_inverse: Seq<u8>,
    key: Seq<u8>,
)
    requires
        hint_well_formed(hint_key, hint_inverse),
        decompressed(hint_key) == Ok::<Seq<u8>, RecoverError>(key),
        is_signature_encoding(sig.subrange(0, 64)),
        is_inverse(be_nat(hint_inverse), signature_s(sig)),
        signature_verifies(key, digest, signature_r(sig), signature_s(sig)),
    ensures
        recovered(sig, digest, hint_key, hint_inverse) == Ok::<Seq<u8>, RecoverError>(key),
{
}

/// A hint with a scalar that is not the inverse of `s` is never accepted.
pub proof fn lemma_wrong_inverse_is_refused(
    sig: Seq<u8>,
    digest: Seq<u8>,
    hint_key: Seq<u8>,
    hint_inverse: Seq<u8>,
)
    requires
        !is_inverse(be_nat(hint_inverse), signature_s(sig)),
    ensures
        recovered(sig, digest, hint_key, hint_inverse) is Err,
        decompressed(hint_key) is Ok ==> {
            ||| recovered(sig, digest, hint_key, hint_inverse) == Err::<Seq<u8>, RecoverError>(
                RecoverError::VerificationFailed,
            )
            ||| recovered(sig, digest, hint_key, hint_inverse) == Err::<Seq<u8>, RecoverError>(
                RecoverError::MalformedHint,
            )
        },
{
}

/// The scalar that a hint must hold is determined by the signature: two
/// hints that are both accepted hold the same 32 bytes for it.
pub proof fn lemma_accepted_inverse_is_determined(
    sig: Seq<u8>,
    digest: Seq<u8>,
    hint_key: Seq<u8>,
    first: Seq<u8>,
    second: Seq<u8>,
)
    requires
        recovered(sig, digest, hint_key, first) is Ok,
        recovered(sig, digest, hint_key, second) is Ok,
    ensures
        first == second,
{
    lemma_inverse_unique(be_nat(first), be_nat(second), signature_s(sig));
    lemma_be_nat_injective(first, second);
}

/// A signature whose scalars are out of range (zero, or not below the group
/// order) recovers no key, whatever the hint.
pub proof fn lemma_out_of_range_signature_is_refused(
    sig: Seq<u8>,
    digest: Seq<u8>,
    hint_key: Seq<u8>,
    hint_inverse: Seq<u8>,
)
    requires
        !is_signature_encoding(sig.subrange(0, 64)),
    ensures
        recovered(sig, digest, hint_key, hint_inverse) is Err,
{
}

/// A recovery reports an invalid encoding exactly when the hint has the
/// right shape and the parity byte of its key is neither 2 nor 3.
pub proof fn lemma_invalid_encoding(
    sig: Seq<u8>,
    digest: Seq<u8>,
    hint_key: Seq<u8>,
    hint_inverse: Seq<u8>,
)
    ensures
        recovered(sig, digest, hint_key, hint_inverse) == Err::<Seq<u8>, RecoverError>(
            RecoverError::InvalidEncoding,
        ) <==> hint_well_formed(hint_key, hint_inverse) && !has_parity_byte(hint_key),
{
}

} // verus!
