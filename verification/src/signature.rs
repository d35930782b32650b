//! ECDSA signatures: a pair of scalars, neither of them zero.

use crate::encoding::{be_nat, read_bytes};
use crate::scalar::{group_order, Scalar};
use vstd::prelude::*;

verus! {

/// The 64 bytes `r ‖ s` encode a signature: both halves are numbers above
/// zero and below the group order.
pub open spec fn is_signature_encoding(bytes: Seq<u8>) -> bool {
    &&& bytes.len() == 64
    &&& 0 < be_nat(bytes.subrange(0, 32)) < group_order()
    &&& 0 < be_nat(bytes.subrange(32, 64)) < group_order()
}

/// An ECDSA signature `(r, s)`.
#[derive(Clone, Copy, Debug)]
pub struct Signature {
    r: Scalar,
    s: Scalar,
}

impl Signature {
    /// The value of `r`.
    pub closed spec fn r_value(self) -> nat {
        self.r@
    }

    /// The value of `s`.
    pub closed spec fn s_value(self) -> nat {
        self.s@
    }

    /// Both scalars are above zero and below the group order.
    #[verifier::type_invariant]
    pub open spec fn in_range(self) -> bool {
        &&& 0 < self.r_value() < group_order()
        &&& 0 < self.s_value() < group_order()
    }

    /// A signature of two scalars, unless one of them is zero.
    pub fn from_scalars(r: Scalar, s: Scalar) -> (out: Option<Signature>)
        ensures
            out is Some <==> r@ != 0 && s@ != 0,
            out matches Some(sig) ==> sig.r_value() == r@ && sig.s_value() == s@,
    {
        proof {
            use_type_invariant(&r);
            use_type_invariant(&s);
        }
        if r.is_zero() || s.is_zero() {
            None
        } else {
            Some(Signature { r, s })
        }
    }

    /// Parses the fixed-width encoding `r ‖ s`.
    pub fn from_slice(bytes: &[u8]) -> (out: Option<Signature>)
        ensures
            out is Some <==> is_signature_encoding(bytes@),
            out matches Some(sig) ==> {
                &&& sig.r_value() == be_nat(bytes@.subrange(0, 32))
                &&& sig.s_value() == be_nat(bytes@.subrange(32, 64))
            },
    {
        if bytes.len() != 64 {
            return None;
        }
        let r_bytes = read_bytes::<32>(bytes, 0);
        let s_bytes = read_bytes::<32>(bytes, 32);
        match (Scalar::from_repr(&r_bytes), Scalar::from_repr(&s_bytes)) {
            (Some(r), Some(s)) => Signature::from_scalars(r, s),
            _ => None,
        }
    }

    /// The scalar `r`.
    pub fn r(&self) -> (out: Scalar)
        ensures
            out@ == self.r_value(),
    {
        self.r
    }

    /// The scalar `s`.
    pub fn s(&self) -> (out: Scalar)
        ensures
            out@ == self.s_value(),
    {
        self.s
    }

    /// Both scalars, `r` first.
    pub fn split_scalars(&self) -> (out: (Scalar, Scalar))
        ensures
            out.0@ == self.r_value(),
            out.1@ == self.s_value(),
    {
        (self.r, self.s)
    }
}

} // verus!
