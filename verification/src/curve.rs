//! Points of secp256k1, as pairs of 32-byte big-endian coordinates.
//!
//! The curve arithmetic is done by the `k256` crate; this module states what
//! the library relies on.

use crate::encoding::be_nat;
use crate::scalar::{group_order, Scalar};
use k256::elliptic_curve::ops::LinearCombination;
use k256::elliptic_curve::point::DecompressPoint;
use k256::elliptic_curve::sec1::{FromEncodedPoint, ToEncodedPoint};
use k256::elliptic_curve::subtle::Choice;
use k256::elliptic_curve::PrimeField;
use vstd::prelude::*;

verus! {

/// The prime `p` of the field that the coordinates live in.
pub open spec fn field_modulus() -> nat {
    0xFFFFFFFF_FFFFFFFF_FFFFFFFF_FFFFFFFF_FFFFFFFF_FFFFFFFF_FFFFFFFE_FFFFFC2Fnat
}

/// `(x, y)` is a point of the curve `y² = x³ + 7` over the field.
pub open spec fn on_curve(x: nat, y: nat) -> bool {
    &&& x < field_modulus()
    &&& y < field_modulus()
    &&& (y * y) % field_modulus() == (x * x * x + 7) % field_modulus()
}

/// Whether a number is odd equals the given flag.
pub open spec fn has_parity(y: nat, odd: bool) -> bool {
    (y % 2 == 1) == odd
}

/// The bytes of a coordinate that may be absent.
pub open spec fn coordinate_bytes(coordinate: Option<[u8; 32]>) -> Option<Seq<u8>> {
    match coordinate {
        Some(bytes) => Some(bytes@),
        None => None,
    }
}

/// The y-coordinate that decompression gives for an x-coordinate and a
/// parity, as 32 big-endian bytes; nothing where there is none.
pub uninterp spec fn decompressed_y(x: Seq<u8>, odd: bool) -> Option<Seq<u8>>;

/// The x-coordinate of `u1·G + u2·Q` as 32 big-endian bytes, where `G` is the
/// generator of the group and `Q` the point with coordinates `qx`, `qy`;
/// nothing where the sum is the point at infinity.
pub uninterp spec fn combination_x(u1: nat, u2: nat, qx: Seq<u8>, qy: Seq<u8>) -> Option<Seq<u8>>;

/// `AffinePoint::decompress` of `k256`, and of the point it gives the
/// y-coordinate. A result lies on the curve with the given x-coordinate and
/// has the parity asked for; there is none only where no point of the curve
/// has that x-coordinate.
#[verifier::external_body]
pub(crate) fn decompress_y(x: &[u8; 32], odd: bool) -> (out: Option<[u8; 32]>)
    ensures
        coordinate_bytes(out) == decompressed_y(x@, odd),
        out matches Some(y) ==> on_curve(be_nat(x@), be_nat(y@)) && has_parity(be_nat(y@), odd),
        out is None ==> forall|y: nat| !on_curve(be_nat(x@), y),
{
    let point = k256::AffinePoint::decompress(&(*x).into(), Choice::from(u8::from(odd)));
    let encoded = Option::<k256::AffinePoint>::from(point)?.to_encoded_point(false);
    match encoded.y() {
        Some(y) => Some((*y).into()),
        None => None,
    }
}

/// `AffinePoint::from_encoded_point` of `k256` on an uncompressed encoding:
/// it accepts the coordinates exactly when both are below the field's prime
/// and satisfy the curve equation.
#[verifier::external_body]
pub(crate) fn coordinates_on_curve(x: &[u8; 32], y: &[u8; 32]) -> (ok: bool)
    ensures
        ok == on_curve(be_nat(x@), be_nat(y@)),
{
    let encoded = k256::EncodedPoint::from_affine_coordinates(&(*x).into(), &(*y).into(), false);
    bool::from(k256::AffinePoint::from_encoded_point(&encoded).is_some())
}

/// `ProjectivePoint::lincomb` of `k256` with the generator as the first
/// point: the x-coordinate of `u1·G + u2·Q` for a point `Q` of the curve.
#[verifier::external_body]
pub(crate) fn double_scalar_mul_x(
    u1: &Scalar,
    u2: &Scalar,
    qx: &[u8; 32],
    qy: &[u8; 32],
) -> (out: Option<[u8; 32]>)
    requires
        u1@ < group_order(),
        u2@ < group_order(),
        on_curve(be_nat(qx@), be_nat(qy@)),
    ensures
        coordinate_bytes(out) == combination_x(u1@, u2@, qx@, qy@),
{
    let k = k256::Scalar::from_repr(u1.bytes.into()).unwrap();
    let l = k256::Scalar::from_repr(u2.bytes.into()).unwrap();
    let encoded = k256::EncodedPoint::from_affine_coordinates(&(*qx).into(), &(*qy).into(), false);
    let q = k256::AffinePoint::from_encoded_point(&encoded).unwrap();
    let sum = k256::ProjectivePoint::lincomb(&k256::ProjectivePoint::GENERATOR, &k, &q.into(), &l);
    match sum.to_affine().to_encoded_point(false).x() {
        Some(x) => Some((*x).into()),
        None => None,
    }
}

} // verus!
