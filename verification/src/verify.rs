//! The verification equation of ECDSA, with an optional inverse of `s`
//! supplied by the caller.

use crate::curve::{combination_x, coordinate_bytes, coordinates_on_curve, double_scalar_mul_x};
use crate::encoding::{be_nat, read_bytes};
use crate::pubkey::{holds_curve_point, key_x, key_y};
use crate::scalar::{group_order, inverse_of, is_inverse, lemma_inverse_of, Scalar};
use crate::signature::Signature;
use vstd::prelude::*;

verus! {

/// The scalar that a digest stands for.
pub open spec fn digest_scalar(digest: Seq<u8>) -> nat {
    be_nat(digest) % group_order()
}

/// The x-coordinate of a sum of points, reduced modulo the group order, is
/// `r`. No sum that is the point at infinity matches.
pub open spec fn x_matches(r: nat, sum_x: Option<Seq<u8>>) -> bool {
    sum_x matches Some(x) && be_nat(x) % group_order() == r
}

/// The signature `(r, s)` over the digest verifies under the key: the key is
/// a point `Q` of the curve, and with `w` the inverse of `s`, `u1 = z·w` and
/// `u2 = r·w`, the x-coordinate of `u1·G + u2·Q` is `r` modulo the group
/// order.
pub open spec fn signature_verifies(pubkey: Seq<u8>, digest: Seq<u8>, r: nat, s: nat) -> bool {
    let w = inverse_of(s);
    let u1 = (digest_scalar(digest) * w) % group_order();
    let u2 = (r * w) % group_order();
    &&& holds_curve_point(pubkey)
    &&& x_matches(r, combination_x(u1, u2, key_x(pubkey), key_y(pubkey)))
}

/// A supplied inverse is admissible when it is the inverse of `s`; to supply
/// none is always admissible.
pub open spec fn inverse_admissible(supplied: Option<nat>, s: nat) -> bool {
    supplied matches Some(w) ==> is_inverse(w, s)
}

/// What the verifier answers.
pub open spec fn verdict(
    pubkey: Seq<u8>,
    digest: Seq<u8>,
    r: nat,
    s: nat,
    supplied: Option<nat>,
) -> bool {
    inverse_admissible(supplied, s) && signature_verifies(pubkey, digest, r, s)
}

/// The value of a scalar that may be absent.
pub open spec fn scalar_value(scalar: Option<&Scalar>) -> Option<nat> {
    match scalar {
        Some(w) => Some(w@),
        None => None,
    }
}

/// The last step of verification: compares `r` with the x-coordinate of the
/// combined point, reduced modulo the group order.
pub fn accepts(r: &Scalar, sum_x: Option<[u8; 32]>) -> (ok: bool)
    ensures
        ok == x_matches(r@, coordinate_bytes(sum_x)),
{
    match sum_x {
        Some(x) => Scalar::reduce(&x).equals(r),
        None => false,
    }
}

/// Checks that `pubkey` made `signature` over `msg_hash`.
///
/// An inverse of `s` may be supplied to save the verifier the inversion. It
/// is checked before use, and one that is not the inverse of `s` makes the
/// verification fail.
pub fn verify_signature(
    pubkey: &[u8; 65],
    msg_hash: &[u8; 32],
    signature: &Signature,
    s_inverse: Option<&Scalar>,
) -> (ok: bool)
    ensures
        ok == verdict(
            pubkey@,
            msg_hash@,
            signature.r_value(),
            signature.s_value(),
            scalar_value(s_inverse),
        ),
{
    let qx = read_bytes::<32>(pubkey.as_slice(), 1);
    let qy = read_bytes::<32>(pubkey.as_slice(), 33);
    if !coordinates_on_curve(&qx, &qy) {
        return false;
    }
    let z = Scalar::reduce(msg_hash);
    let (r, s) = signature.split_scalars();
    proof {
        use_type_invariant(signature);
    }
    let w = match s_inverse {
        Some(w) => {
            proof {
                use_type_invariant(w);
            }
            if !w.multiply(&s).is_one() {
                return false;
            }
            proof {
                lemma_inverse_of(w@, s@);
            }
            *w
        },
        None => match s.invert() {
            Some(w) => w,
            None => {
                return false;
            },
        },
    };
    let u1 = z.multiply(&w);
    let u2 = r.multiply(&w);
    proof {
        use_type_invariant(&u1);
        use_type_invariant(&u2);
    }
    let sum_x = double_scalar_mul_x(&u1, &u2, &qx, &qy);
    accepts(&r, sum_x)
}

/// An inverse that is supplied decides nothing but how the inverse is found:
/// with the inverse of `s` the verdict is the one that is reached with none,
/// and with any other scalar the verdict is a rejection.
pub proof fn lemma_supplied_inverse(pubkey: Seq<u8>, digest: Seq<u8>, r: nat, s: nat, w: nat)
    ensures
        is_inverse(w, s) ==> verdict(pubkey, digest, r, s, Some(w)) == verdict(
            pubkey,
            digest,
            r,
            s,
            None,
        ),
        !is_inverse(w, s) ==> !verdict(pubkey, digest, r, s, Some(w)),
{
}

} // verus!
