//! Small helpers on byte strings: exact comparison and copying, proved
//! against the sequence views.

use vstd::prelude::*;

verus! {

/// Whether two fixed-size byte strings hold the same bytes.
pub fn bytes_eq<const N: usize>(a: &[u8; N], b: &[u8; N]) -> (r: bool)
    ensures
        r == (a@ == b@),
{
    let mut i: usize = 0;
    while i < N
        invariant
            0 <= i <= N,
            forall|j: int| 0 <= j < i ==> a@[j] == b@[j],
        decreases N - i,
    {
        if a[i] != b[i] {
            return false;
        }
        i = i + 1;
    }
    proof {
        assert(a@ =~= b@);
    }
    true
}

/// Whether a fixed-size byte string and a byte vector hold the same bytes.
pub fn bytes_eq_vec<const N: usize>(a: &[u8; N], v: &Vec<u8>) -> (r: bool)
    ensures
        r == (a@ == v@),
{
    if v.len() != N {
        return false;
    }
    let mut i: usize = 0;
    while i < N
        invariant
            0 <= i <= N,
            v@.len() == N,
            forall|j: int| 0 <= j < i ==> a@[j] == v@[j],
        decreases N - i,
    {
        if a[i] != v[i] {
            return false;
        }
        i = i + 1;
    }
    proof {
        assert(a@ =~= v@);
    }
    true
}

/// A vector holding the bytes of a fixed-size byte string.
pub fn bytes_to_vec<const N: usize>(a: &[u8; N]) -> (r: Vec<u8>)
    ensures
        r@ == a@,
{
    let mut r: Vec<u8> = Vec::new();
    let mut i: usize = 0;
    while i < N
        invariant
            0 <= i <= N,
            r@ == a@.take(i as int),
        decreases N - i,
    {
        r.push(a[i]);
        proof {
            assert(r@ =~= a@.take(i + 1));
        }
        i = i + 1;
    }
    proof {
        assert(a@.take(N as int) =~= a@);
    }
    r
}

/// A copy of a byte vector.
pub fn copy_vec(v: &Vec<u8>) -> (r: Vec<u8>)
    ensures
        r@ == v@,
{
    let mut r: Vec<u8> = Vec::new();
    let mut i: usize = 0;
    while i < v.len()
        invariant
            0 <= i <= v@.len(),
            r@ == v@.take(i as int),
        decreases v@.len() - i,
    {
        r.push(v[i]);
        proof {
            assert(r@ =~= v@.take(i + 1));
        }
        i = i + 1;
    }
    proof {
        assert(v@.take(v@.len() as int) =~= v@);
    }
    r
}

} // verus!
