//! Small verified helpers on byte vectors.

use vstd::prelude::*;

verus! {

/// An explicit byte-for-byte copy of a vector.
pub fn clone_bytes(v: &Vec<u8>) -> (r: Vec<u8>)
    ensures
        r@ == v@,
{
    let r = v.clone();
    proof {
        assert forall|i: int| 0 <= i < v@.len() implies r@[i] == v@[i] by {
            assert(vstd::pervasive::cloned::<u8>(v@[i], r@[i]));
        }
        assert(r@ =~= v@);
    }
    r
}

/// Equality of two byte slices, compared element by element.
pub fn bytes_eq(a: &[u8], b: &[u8]) -> (r: bool)
    ensures
        r == (a@ == b@),
{
    if a.len() != b.len() {
        proof {
            assert(a@ != b@);
        }
        return false;
    }
    let mut i: usize = 0;
    while i < a.len()
        invariant
            i <= a@.len(),
            a@.len() == b@.len(),
            forall|j: int| 0 <= j < i ==> a@[j] == b@[j],
        decreases a@.len() - i,
    {
        if a[i] != b[i] {
            proof {
                assert(a@[i as int] != b@[i as int]);
            }
            return false;
        }
        i = i + 1;
    }
    proof {
        assert(a@ =~= b@);
    }
    true
}

/// Equality of two secret byte strings, decided in constant time: the
/// subtle crate's comparison runs without data-dependent timing once the
/// lengths match, and the length test itself is not secret.
pub fn constant_time_compare(a: &[u8], b: &[u8]) -> (r: bool)
    ensures
        r == (a@ == b@),
{
    if a.len() != b.len() {
        proof {
            assert(a@ != b@);
        }
        return false;
    }
    crate::primitives::ct_eq_bytes(a, b)
}

/// A vector of `n` zero bytes.
pub fn zero_bytes(n: usize) -> (r: Vec<u8>)
    ensures
        r@ == Seq::new(n as nat, |i: int| 0u8),
{
    let mut r: Vec<u8> = Vec::new();
    r.resize(n, 0u8);
    proof {
        assert forall|i: int| 0 <= i < r@.len() implies r@[i] == 0u8 by {
            assert(vstd::pervasive::cloned::<u8>(0u8, r@[i]));
        }
        assert(r@ =~= Seq::new(n as nat, |i: int| 0u8));
    }
    r
}

} // verus!
