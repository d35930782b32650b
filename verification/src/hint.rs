//! The exchange with whoever computes the recovery: the request that is sent
//! out, and the reading of what comes back.
//!
//! What comes back is a guess. Parsing it checks its shape and nothing else.

use crate::encoding::{be_nat, read_bytes};
use crate::error::RecoverError;
use crate::scalar::{group_order, Scalar};
use vstd::prelude::*;

verus! {

/// The request for a recovery: the signature, then the digest.
pub fn recovery_request(sig: &[u8; 65], msg_hash: &[u8; 32]) -> (out: [u8; 97])
    ensures
        out@ == sig@ + msg_hash@,
{
    let mut out = [0u8; 97];
    let mut i: usize = 0;
    while i < 65
        invariant
            i <= 65,
            forall|j: int| 0 <= j < i ==> out@[j] == sig@[j],
        decreases 65 - i,
    {
        out[i] = sig[i];
        i += 1;
    }
    let mut k: usize = 0;
    while k < 32
        invariant
            k <= 32,
            forall|j: int| 0 <= j < 65 ==> out@[j] == sig@[j],
            forall|j: int| 0 <= j < k ==> out@[65 + j] == msg_hash@[j],
        decreases 32 - k,
    {
        out[65 + k] = msg_hash[k];
        k += 1;
    }
    assert(out@ =~= sig@ + msg_hash@);
    out
}

/// A hint has the right shape: 33 bytes for the key, and 32 bytes that
/// encode a scalar for the inverse.
pub open spec fn hint_well_formed(key: Seq<u8>, inverse: Seq<u8>) -> bool {
    &&& key.len() == 33
    &&& inverse.len() == 32
    &&& be_nat(inverse) < group_order()
}

/// Reads the two values of a hint: a compressed key and a scalar.
///
/// Neither is known to be right. A hint of another shape is malformed.
pub fn parse_hint(key: &[u8], inverse: &[u8]) -> (out: Result<([u8; 33], Scalar), RecoverError>)
    ensures
        out is Ok <==> hint_well_formed(key@, inverse@),
        out matches Ok(hint) ==> hint.0@ == key@ && hint.1@ == be_nat(inverse@),
        out matches Err(e) ==> e == RecoverError::MalformedHint,
{
    if key.len() != 33 || inverse.len() != 32 {
        return Err(RecoverError::MalformedHint);
    }
    let compressed = read_bytes::<33>(key, 0);
    let encoded = read_bytes::<32>(inverse, 0);
    assert(compressed@ =~= key@);
    assert(encoded@ =~= inverse@);
    match Scalar::from_repr(&encoded) {
        Some(w) => Ok((compressed, w)),
        None => Err(RecoverError::MalformedHint),
    }
}

} // verus!
