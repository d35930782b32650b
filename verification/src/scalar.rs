//! Scalars modulo the order of the secp256k1 group.
//!
//! A [`Scalar`] is kept as its 32-byte big-endian encoding and is always
//! below the group order. The arithmetic itself is done by the `k256` crate.

use crate::encoding::{be_nat, lemma_be_nat_injective, lemma_be_nat_zero};
use k256::elliptic_curve::ops::Reduce;
use k256::elliptic_curve::PrimeField;
use vstd::arithmetic::div_mod::{
    lemma_mod_bound, lemma_mul_mod_noop_left, lemma_mul_mod_noop_right, lemma_small_mod,
};
use vstd::prelude::*;

verus! {

/// The order `n` of the secp256k1 group.
pub open spec fn group_order() -> nat {
    0xFFFFFFFF_FFFFFFFF_FFFFFFFF_FFFFFFFE_BAAEDCE6_AF48A03B_BFD25E8C_D0364141nat
}

/// `w` is the scalar that inverts `s` modulo the group order.
pub open spec fn is_inverse(w: nat, s: nat) -> bool {
    w < group_order() && (w * s) % group_order() == 1
}

/// The inverse of `s` modulo the group order, where `s` has one.
pub open spec fn inverse_of(s: nat) -> nat {
    choose|w: nat| is_inverse(w, s)
}

/// A number has at most one inverse modulo the group order.
pub proof fn lemma_inverse_unique(a: nat, b: nat, s: nat)
    requires
        is_inverse(a, s),
        is_inverse(b, s),
    ensures
        a == b,
{
    let n = group_order() as int;
    let (a, b, s) = (a as int, b as int, s as int);
    assert(a * (b * s) == (a * s) * b) by (nonlinear_arith);
    lemma_mul_mod_noop_right(a, b * s, n);
    lemma_mul_mod_noop_left(a * s, b, n);
    lemma_small_mod(a as nat, n as nat);
    lemma_small_mod(b as nat, n as nat);
}

/// An inverse that was checked is the inverse.
pub proof fn lemma_inverse_of(w: nat, s: nat)
    requires
        is_inverse(w, s),
    ensures
        inverse_of(s) == w,
{
    lemma_inverse_unique(inverse_of(s), w, s);
}

/// `Scalar::from_repr` of `k256`: the bytes are accepted exactly when the
/// number they encode is below the group order.
#[verifier::external_body]
fn repr_is_canonical(bytes: &[u8; 32]) -> (ok: bool)
    ensures
        ok == (be_nat(bytes@) < group_order()),
{
    bool::from(k256::Scalar::from_repr((*bytes).into()).is_some())
}

/// `Scalar::reduce_bytes` of `k256`, followed by `Scalar::to_bytes`: the
/// encoding of the given number modulo the group order.
#[verifier::external_body]
fn reduce_mod_order(bytes: &[u8; 32]) -> (out: [u8; 32])
    ensures
        be_nat(out@) == be_nat(bytes@) % group_order(),
{
    <k256::Scalar as Reduce<k256::U256>>::reduce_bytes(&(*bytes).into()).to_bytes().into()
}

/// `Scalar::mul` of `k256` on two canonical encodings: the encoding of the
/// product modulo the group order.
#[verifier::external_body]
fn mul_mod_order(a: &[u8; 32], b: &[u8; 32]) -> (out: [u8; 32])
    requires
        be_nat(a@) < group_order(),
        be_nat(b@) < group_order(),
    ensures
        be_nat(out@) == (be_nat(a@) * be_nat(b@)) % group_order(),
{
    let x = k256::Scalar::from_repr((*a).into()).unwrap();
    let y = k256::Scalar::from_repr((*b).into()).unwrap();
    x.mul(&y).to_bytes().into()
}

/// `Scalar::invert` of `k256` on a canonical encoding: nothing for zero, and
/// for any other scalar the encoding of the scalar below the group order whose
/// product with it is one modulo the group order.
#[verifier::external_body]
fn invert_mod_order(a: &[u8; 32]) -> (out: Option<[u8; 32]>)
    requires
        be_nat(a@) < group_order(),
    ensures
        out is None <==> be_nat(a@) == 0,
        out matches Some(w) ==> is_inverse(be_nat(w@), be_nat(a@)),
{
    let x = k256::Scalar::from_repr((*a).into()).unwrap();
    match Option::<k256::Scalar>::from(x.invert()) {
        Some(w) => Some(w.to_bytes().into()),
        None => None,
    }
}

/// An integer modulo the group order.
#[derive(Clone, Copy, Debug)]
pub struct Scalar {
    pub(crate) bytes: [u8; 32],
}

impl View for Scalar {
    type V = nat;

    closed spec fn view(&self) -> nat {
        be_nat(self.bytes@)
    }
}

impl Scalar {
    /// The 32-byte big-endian encoding.
    pub closed spec fn encoding(self) -> Seq<u8> {
        self.bytes@
    }

    /// Every scalar is below the group order.
    #[verifier::type_invariant]
    pub open spec fn canonical(self) -> bool {
        self@ < group_order()
    }

    /// Parses a canonical encoding: bytes that encode a number below the group
    /// order.
    pub fn from_repr(bytes: &[u8; 32]) -> (r: Option<Scalar>)
        ensures
            r is Some <==> be_nat(bytes@) < group_order(),
            r matches Some(s) ==> s@ == be_nat(bytes@) && s.encoding() == bytes@,
    {
        if repr_is_canonical(bytes) {
            Some(Scalar { bytes: *bytes })
        } else {
            None
        }
    }

    /// The scalar that a 32-byte number stands for: the number modulo the
    /// group order.
    pub fn reduce(bytes: &[u8; 32]) -> (r: Scalar)
        ensures
            r@ == be_nat(bytes@) % group_order(),
    {
        let out = reduce_mod_order(bytes);
        proof {
            lemma_mod_bound(be_nat(bytes@) as int, group_order() as int);
        }
        Scalar { bytes: out }
    }

    /// The big-endian encoding.
    pub fn to_bytes(&self) -> (out: [u8; 32])
        ensures
            out@ == self.encoding(),
            be_nat(out@) == self@,
    {
        self.bytes
    }

    /// The product modulo the group order.
    pub fn multiply(&self, rhs: &Scalar) -> (r: Scalar)
        ensures
            r@ == (self@ * rhs@) % group_order(),
    {
        proof {
            use_type_invariant(self);
            use_type_invariant(rhs);
        }
        let out = mul_mod_order(&self.bytes, &rhs.bytes);
        proof {
            lemma_mod_bound((self@ * rhs@) as int, group_order() as int);
        }
        Scalar { bytes: out }
    }

    /// The inverse modulo the group order, which every scalar but zero has.
    pub fn invert(&self) -> (r: Option<Scalar>)
        ensures
            r is None <==> self@ == 0,
            r matches Some(w) ==> is_inverse(w@, self@) && w@ == inverse_of(self@),
    {
        proof {
            use_type_invariant(self);
        }
        match invert_mod_order(&self.bytes) {
            Some(w) => {
                proof {
                    lemma_inverse_of(be_nat(w@), self@);
                }
                Some(Scalar { bytes: w })
            },
            None => None,
        }
    }

    /// Whether two scalars are the same number.
    pub fn equals(&self, other: &Scalar) -> (same: bool)
        ensures
            same == (self@ == other@),
    {
        let mut i: usize = 0;
        while i < 32
            invariant
                i <= 32,
                forall|j: int| 0 <= j < i ==> self.bytes@[j] == other.bytes@[j],
            decreases 32 - i,
        {
            if self.bytes[i] != other.bytes[i] {
                proof {
                    if self@ == other@ {
                        lemma_be_nat_injective(self.bytes@, other.bytes@);
                    }
                }
                return false;
            }
            i += 1;
        }
        assert(self.bytes@ =~= other.bytes@);
        true
    }

    /// Whether the scalar is zero.
    pub fn is_zero(&self) -> (zero: bool)
        ensures
            zero == (self@ == 0),
    {
        proof {
            lemma_be_nat_zero(self.bytes@);
        }
        let mut i: usize = 0;
        while i < 32
            invariant
                i <= 32,
                forall|j: int| 0 <= j < i ==> self.bytes@[j] == 0,
            decreases 32 - i,
        {
            if self.bytes[i] != 0 {
                proof {
                    lemma_be_nat_zero(self.bytes@);
                }
                return false;
            }
            i += 1;
        }
        true
    }

    /// Whether the scalar is one.
    pub fn is_one(&self) -> (one: bool)
        ensures
            one == (self@ == 1),
    {
        proof {
            lemma_be_nat_zero(self.bytes@.drop_last());
        }
        let mut i: usize = 0;
        while i < 31
            invariant
                i <= 31,
                forall|j: int| 0 <= j < i ==> self.bytes@[j] == 0,
            decreases 31 - i,
        {
            if self.bytes[i] != 0 {
                proof {
                    lemma_be_nat_zero(self.bytes@.drop_last());
                    assert(self.bytes@.drop_last()[i as int] != 0);
                }
                return false;
            }
            i += 1;
        }
        assert forall|j: int| 0 <= j < 31 implies self.bytes@.drop_last()[j] == 0 by {
            assert(self.bytes@.drop_last()[j] == self.bytes@[j]);
        }
        self.bytes[31] == 1
    }
}

} // verus!
