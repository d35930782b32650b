//! Compressed and uncompressed encodings of a public key.

use crate::curve::{decompress_y, decompressed_y, has_parity, on_curve};
use crate::encoding::{be_nat, read_bytes};
use crate::error::RecoverError;
use vstd::prelude::*;

verus! {

/// The x-coordinate in a compressed or an uncompressed key.
pub open spec fn key_x(key: Seq<u8>) -> Seq<u8> {
    key.subrange(1, 33)
}

/// The y-coordinate in an uncompressed key.
pub open spec fn key_y(key: Seq<u8>) -> Seq<u8> {
    key.subrange(33, 65)
}

/// The uncompressed encoding of a point: the byte 4, then both coordinates.
pub open spec fn uncompressed(x: Seq<u8>, y: Seq<u8>) -> Seq<u8> {
    seq![4u8] + x + y
}

/// The 65 bytes hold a point of the curve.
pub open spec fn holds_curve_point(key: Seq<u8>) -> bool {
    key.len() == 65 && on_curve(be_nat(key_x(key)), be_nat(key_y(key)))
}

/// The first byte of a compressed key is one of the two parity bytes: 2 for an
/// even y-coordinate, 3 for an odd one.
pub open spec fn has_parity_byte(compressed: Seq<u8>) -> bool {
    compressed[0] == 2 || compressed[0] == 3
}

/// What a compressed key expands to.
pub open spec fn decompressed(compressed: Seq<u8>) -> Result<Seq<u8>, RecoverError> {
    if !has_parity_byte(compressed) {
        Err(RecoverError::InvalidEncoding)
    } else {
        match decompressed_y(key_x(compressed), compressed[0] == 3) {
            Some(y) => Ok(uncompressed(key_x(compressed), y)),
            None => Err(RecoverError::DecompressionFailed),
        }
    }
}

/// The bytes of a key that was returned, or the error that was.
pub open spec fn key_bytes(outcome: Result<[u8; 65], RecoverError>) -> Result<
    Seq<u8>,
    RecoverError,
> {
    match outcome {
        Ok(key) => Ok(key@),
        Err(e) => Err(e),
    }
}

/// Puts the byte 4 and two coordinates together.
pub fn encode_uncompressed(x: &[u8; 32], y: &[u8; 32]) -> (out: [u8; 65])
    ensures
        out@ == uncompressed(x@, y@),
        key_x(out@) == x@,
        key_y(out@) == y@,
{
    let mut out = [0u8; 65];
    out[0] = 4;
    let mut i: usize = 0;
    while i < 32
        invariant
            i <= 32,
            out@[0] == 4,
            forall|j: int| 0 <= j < i ==> out@[1 + j] == x@[j] && out@[33 + j] == y@[j],
        decreases 32 - i,
    {
        out[1 + i] = x[i];
        out[33 + i] = y[i];
        i += 1;
    }
    assert(out@ =~= uncompressed(x@, y@));
    assert(key_x(out@) =~= x@);
    assert(key_y(out@) =~= y@);
    out
}

/// Expands a compressed key to its uncompressed form.
///
/// The first byte says whether the y-coordinate is even (2) or odd (3); any
/// other value is an invalid encoding. The key fails to decompress exactly
/// when no point of the curve has its x-coordinate.
pub fn decompress_pubkey(compressed_key: &[u8; 33]) -> (out: Result<[u8; 65], RecoverError>)
    ensures
        key_bytes(out) == decompressed(compressed_key@),
        out matches Err(RecoverError::InvalidEncoding) <==> !has_parity_byte(compressed_key@),
        out matches Err(RecoverError::DecompressionFailed) <==> has_parity_byte(compressed_key@)
            && forall|y: nat| !on_curve(be_nat(key_x(compressed_key@)), y),
        out matches Ok(key) ==> {
            &&& key@[0] == 4
            &&& key_x(key@) == key_x(compressed_key@)
            &&& holds_curve_point(key@)
            &&& has_parity(be_nat(key_y(key@)), compressed_key@[0] == 3)
        },
{
    let odd = match compressed_key[0] {
        2 => false,
        3 => true,
        _ => {
            return Err(RecoverError::InvalidEncoding);
        },
    };
    let x = read_bytes::<32>(compressed_key.as_slice(), 1);
    match decompress_y(&x, odd) {
        Some(y) => Ok(encode_uncompressed(&x, &y)),
        None => Err(RecoverError::DecompressionFailed),
    }
}

} // verus!
