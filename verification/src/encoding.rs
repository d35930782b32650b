//! Big-endian byte strings and the natural numbers they encode.

use vstd::prelude::*;

verus! {

/// The natural number a big-endian byte string encodes.
pub open spec fn be_nat(bytes: Seq<u8>) -> nat
    decreases bytes.len(),
{
    if bytes.len() == 0 {
        0
    } else {
        256 * be_nat(bytes.drop_last()) + bytes.last() as nat
    }
}

/// Two byte strings of one length that encode the same number are the same
/// string.
pub proof fn lemma_be_nat_injective(a: Seq<u8>, b: Seq<u8>)
    requires
        a.len() == b.len(),
        be_nat(a) == be_nat(b),
    ensures
        a == b,
    decreases a.len(),
{
    if a.len() == 0 {
        assert(a =~= b);
    } else {
        let pa = a.drop_last();
        let pb = b.drop_last();
        lemma_be_nat_injective(pa, pb);
        assert(a =~= pa.push(a.last()));
        assert(b =~= pb.push(b.last()));
    }
}

/// A byte string encodes zero exactly when all its bytes are zero.
pub proof fn lemma_be_nat_zero(a: Seq<u8>)
    ensures
        be_nat(a) == 0 <==> (forall|i: int| 0 <= i < a.len() ==> a[i] == 0),
    decreases a.len(),
{
    if a.len() > 0 {
        let pa = a.drop_last();
        lemma_be_nat_zero(pa);
        if be_nat(a) == 0 {
            assert forall|i: int| 0 <= i < a.len() implies a[i] == 0 by {
                if i < a.len() - 1 {
                    assert(pa[i] == a[i]);
                }
            }
        }
        if forall|i: int| 0 <= i < a.len() ==> a[i] == 0 {
            assert forall|i: int| 0 <= i < pa.len() implies pa[i] == 0 by {
                assert(pa[i] == a[i]);
            }
        }
    }
}

/// Copies the `N` bytes that start at `offset` out of `src`.
pub fn read_bytes<const N: usize>(src: &[u8], offset: usize) -> (out: [u8; N])
    requires
        offset + N <= src@.len(),
    ensures
        out@ == src@.subrange(offset as int, offset + N),
{
    let len: usize = src.len();
    let mut out = [0u8; N];
    let mut i: usize = 0;
    while i < N
        invariant
            i <= N,
            len == src@.len(),
            offset + N <= len,
            forall|j: int| 0 <= j < i ==> out@[j] == src@[offset + j],
        decreases N - i,
    {
        out[i] = src[offset + i];
        i += 1;
    }
    assert(out@ =~= src@.subrange(offset as int, offset + N));
    out
}

} // verus!
