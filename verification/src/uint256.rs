//! Unsigned 256-bit integers, stored as 32 big-endian bytes.
//!
//! Seeds, sequence numbers and block numbers are 256-bit quantities; the
//! boundary encodes them as 32-byte big-endian buffers, so the type keeps
//! exactly that representation and proves its arithmetic against the
//! mathematical value [`be_nat`] of the bytes.

use vstd::prelude::*;

verus! {

use vstd::arithmetic::div_mod::lemma_mod_breakdown;
use vstd::arithmetic::div_mod::lemma_div_denominator;
use vstd::arithmetic::div_mod::lemma_small_mod;

/// The value of a big-endian byte string.
pub open spec fn be_nat(s: Seq<u8>) -> nat
    decreases s.len(),
{
    if s.len() == 0 {
        0
    } else {
        be_nat(s.drop_last()) * 256 + s.last() as nat
    }
}

/// `256^n`, the number of byte strings of length `n`.
pub open spec fn pow256(n: nat) -> nat
    decreases n,
{
    if n == 0 {
        1
    } else {
        256 * pow256((n - 1) as nat)
    }
}

/// A big-endian byte string of length `n` is worth less than `256^n`.
pub proof fn lemma_be_nat_bound(s: Seq<u8>)
    ensures
        be_nat(s) < pow256(s.len()),
    decreases s.len(),
{
    if s.len() > 0 {
        lemma_be_nat_bound(s.drop_last());
        assert(be_nat(s.drop_last()) * 256 <= (pow256((s.len() - 1) as nat) - 1) * 256)
            by (nonlinear_arith)
            requires be_nat(s.drop_last()) <= pow256((s.len() - 1) as nat) - 1;
        assert(pow256(s.len()) == 256 * pow256((s.len() - 1) as nat));
    }
}

/// Concatenation shifts the left part by the length of the right part.
pub proof fn lemma_be_nat_concat(a: Seq<u8>, b: Seq<u8>)
    ensures
        be_nat(a + b) == be_nat(a) * pow256(b.len()) + be_nat(b),
    decreases b.len(),
{
    if b.len() == 0 {
        assert(a + b =~= a);
        assert(pow256(0) == 1);
    } else {
        lemma_be_nat_concat(a, b.drop_last());
        assert((a + b).drop_last() =~= a + b.drop_last());
        assert((a + b).len() == a.len() + b.len());
        assert((a + b).last() == b.last());
        assert(be_nat(a + b)
            == be_nat(a + b.drop_last()) * 256 + (a + b).last() as nat);
        assert((be_nat(a) * pow256((b.len() - 1) as nat) + be_nat(b.drop_last())) * 256
            == be_nat(a) * (256 * pow256((b.len() - 1) as nat)) + be_nat(b.drop_last()) * 256)
            by (nonlinear_arith);
        assert(pow256(b.len()) == 256 * pow256((b.len() - 1) as nat));
    }
}

/// An all-zero byte string is worth zero.
pub proof fn lemma_be_nat_zero(s: Seq<u8>)
    requires
        forall|i: int| 0 <= i < s.len() ==> s[i] == 0,
    ensures
        be_nat(s) == 0,
    decreases s.len(),
{
    if s.len() > 0 {
        lemma_be_nat_zero(s.drop_last());
    }
}

/// An all-255 byte string is worth `256^n - 1`, the largest value of its length.
pub proof fn lemma_be_nat_ones(s: Seq<u8>)
    requires
        forall|i: int| 0 <= i < s.len() ==> s[i] == 255,
    ensures
        be_nat(s) == pow256(s.len()) - 1,
    decreases s.len(),
{
    if s.len() > 0 {
        lemma_be_nat_ones(s.drop_last());
        assert((pow256((s.len() - 1) as nat) - 1) * 256 + 255
            == 256 * pow256((s.len() - 1) as nat) - 1) by (nonlinear_arith);
    }
}

/// Peeling the first byte off a big-endian string.
pub proof fn lemma_be_nat_first(s: Seq<u8>)
    requires
        s.len() > 0,
    ensures
        be_nat(s) == s[0] * pow256((s.len() - 1) as nat) + be_nat(s.skip(1)),
{
    assert(s =~= s.take(1) + s.skip(1));
    lemma_be_nat_concat(s.take(1), s.skip(1));
    assert(s.take(1).drop_last() =~= Seq::<u8>::empty());
    assert(be_nat(Seq::<u8>::empty()) == 0);
    assert(be_nat(s.take(1)) == s[0]);
}

/// Splitting a big-endian string at position `i`.
pub proof fn lemma_be_nat_split(s: Seq<u8>, i: int)
    requires
        0 <= i <= s.len(),
    ensures
        be_nat(s) == be_nat(s.take(i)) * pow256((s.len() - i) as nat) + be_nat(s.skip(i)),
{
    assert(s =~= s.take(i) + s.skip(i));
    lemma_be_nat_concat(s.take(i), s.skip(i));
}

/// If two equally long strings share a prefix and differ at the first
/// differing byte, the one with the smaller byte is worth less.
pub proof fn lemma_be_nat_prefix_lt(a: Seq<u8>, b: Seq<u8>, i: int)
    requires
        a.len() == b.len(),
        0 <= i < a.len(),
        a.take(i) == b.take(i),
        a[i] < b[i],
    ensures
        be_nat(a) < be_nat(b),
{
    let n = a.len() as int;
    let k = (n - i - 1) as nat;
    lemma_pow256_pos(k);
    lemma_be_nat_split(a, i + 1);
    lemma_be_nat_split(b, i + 1);
    assert(a.take(i + 1).drop_last() =~= a.take(i));
    assert(b.take(i + 1).drop_last() =~= b.take(i));
    assert(be_nat(a.take(i + 1)) == be_nat(a.take(i)) * 256 + a[i]);
    assert(be_nat(b.take(i + 1)) == be_nat(b.take(i)) * 256 + b[i]);
    lemma_be_nat_bound(a.skip(i + 1));
    assert(a.skip(i + 1).len() == k);
    assert(b.skip(i + 1).len() == k);
    assert(be_nat(a.take(i + 1)) < be_nat(b.take(i + 1)));
    assert(be_nat(a.take(i + 1)) * pow256(k) + pow256(k) <= be_nat(b.take(i + 1)) * pow256(k))
        by (nonlinear_arith)
        requires be_nat(a.take(i + 1)) < be_nat(b.take(i + 1)), pow256(k) >= 1;
    assert(be_nat(b.skip(i + 1)) >= 0);
}

/// `256^n` is positive.
pub proof fn lemma_pow256_pos(n: nat)
    ensures
        pow256(n) >= 1,
    decreases n,
{
    if n > 0 {
        lemma_pow256_pos((n - 1) as nat);
    }
}

/// `256^n` grows with `n`.
pub proof fn lemma_pow256_mono(a: nat, b: nat)
    requires
        a <= b,
    ensures
        pow256(a) <= pow256(b),
    decreases b,
{
    if a < b {
        lemma_pow256_mono(a, (b - 1) as nat);
        lemma_pow256_pos((b - 1) as nat);
    }
}

/// An unsigned 256-bit integer held as 32 big-endian bytes, the form in
/// which seeds and sequence numbers cross the boundary.
#[derive(Debug, Clone, Copy)]
pub struct Uint256 {
    pub bytes: [u8; 32],
}

impl View for Uint256 {
    type V = Seq<u8>;

    open spec fn view(&self) -> Seq<u8> {
        self.bytes@
    }
}

impl PartialEq for Uint256 {
    fn eq(&self, other: &Self) -> (r: bool) {
        let mut i: usize = 0;
        while i < 32
            invariant
                0 <= i <= 32,
                forall|j: int| 0 <= j < i ==> self.bytes@[j] == other.bytes@[j],
            decreases 32 - i,
        {
            if self.bytes[i] != other.bytes[i] {
                return false;
            }
            i = i + 1;
        }
        proof {
            assert(self.bytes@ =~= other.bytes@);
        }
        true
    }
}

impl vstd::std_specs::cmp::PartialEqSpecImpl for Uint256 {
    open spec fn obeys_eq_spec() -> bool {
        true
    }

    open spec fn eq_spec(&self, other: &Self) -> bool {
        self.bytes@ == other.bytes@
    }
}

impl Uint256 {
    /// The mathematical value of this integer.
    pub open spec fn as_nat(self) -> nat {
        be_nat(self@)
    }

    /// The integer zero.
    pub fn zero() -> (r: Self)
        ensures
            r.as_nat() == 0,
    {
        let r = Uint256 { bytes: [0u8; 32] };
        proof {
            lemma_be_nat_zero(r@);
        }
        r
    }

    /// Wraps 32 big-endian bytes.
    pub fn from_be_bytes(bytes: [u8; 32]) -> (r: Self)
        ensures
            r@ == bytes@,
    {
        Uint256 { bytes }
    }

    /// The 32 big-endian bytes of this integer.
    pub fn to_be_bytes(&self) -> (r: [u8; 32])
        ensures
            r@ == self@,
    {
        self.bytes
    }

    /// Embeds a 64-bit value.
    pub fn from_u64(v: u64) -> (r: Self)
        ensures
            r.as_nat() == v,
    {
        let mut b = [0u8; 32];
        let mut rest: u64 = v;
        let mut j: usize = 0;
        proof {
            assert(pow256(0) == 1);
            assert(b@.skip(32) =~= Seq::<u8>::empty());
            assert(be_nat(Seq::<u8>::empty()) == 0);
            assert(v as nat / 1 == v && v as nat % 1 == 0) by (nonlinear_arith);
        }
        while j < 8
            invariant
                0 <= j <= 8,
                rest == v as nat / pow256(j as nat),
                be_nat(b@.skip(32 - j as int)) == v as nat % pow256(j as nat),
                forall|k: int| 0 <= k < 32 - j ==> b@[k] == 0,
            decreases 8 - j,
        {
            let ghost prev = b@;
            let ghost pj = pow256(j as nat);
            let d: u8 = (rest % 256) as u8;
            b[31 - j] = d;
            rest = rest / 256;
            proof {
                lemma_pow256_pos(j as nat);
                assert(b@.skip(31 - j as int) =~= seq![d] + prev.skip(32 - j as int));
                lemma_be_nat_concat(seq![d], prev.skip(32 - j as int));
                assert(seq![d].drop_last() =~= Seq::<u8>::empty());
                assert(be_nat(Seq::<u8>::empty()) == 0);
                assert(be_nat(seq![d]) == d);
                assert(prev.skip(32 - j as int).len() == j as int);
                // d * 256^j + v % 256^j == v % 256^(j+1)
                lemma_mod_breakdown(v as int, pj as int, 256);
                assert(pow256((j + 1) as nat) == 256 * pj);
                assert(d == (v as int / pj as int) % 256);
                assert(d as int * pj as int == pj as int * ((v as int / pj as int) % 256))
                    by (nonlinear_arith)
                    requires d == (v as int / pj as int) % 256;
                lemma_div_denominator(v as int, pj as int, 256);
                assert(pj as int * 256 == 256 * pj as int);
            }
            j = j + 1;
        }
        proof {
            assert(pow256(8) == 0x1_0000_0000_0000_0000) by {
                reveal_with_fuel(pow256, 9);
            }
            lemma_be_nat_split(b@, 24);
            lemma_be_nat_zero(b@.take(24));
            assert(b@.skip(24) == b@.skip(32 - 8));
            assert(v as nat % pow256(8) == v) by {
                assert(v < pow256(8));
                lemma_small_mod(v as nat, pow256(8));
            }
        }
        Uint256 { bytes: b }
    }

    /// The successor: this integer plus one.
    pub fn succ(&self) -> (r: Self)
        requires
            self.as_nat() + 1 < pow256(32),
        ensures
            r.as_nat() == self.as_nat() + 1,
    {
        let mut b = self.bytes;
        let mut i: usize = 32;
        while i > 0
            invariant
                0 <= i <= 32,
                self.as_nat() + 1 < pow256(32),
                b@.len() == 32,
                self@.len() == 32,
                b@.take(i as int) == self@.take(i as int),
                forall|j: int| i <= j < 32 ==> self@[j] == 255 && b@[j] == 0,
            decreases i,
        {
            i = i - 1;
            proof {
                assert(self@[i as int] == b@[i as int]) by {
                    assert(b@.take(i as int + 1)[i as int] == b@[i as int]);
                    assert(self@.take(i as int + 1)[i as int] == self@[i as int]);
                }
            }
            if b[i] < 255 {
                let ghost pre = b@;
                let d = b[i];
                b[i] = d + 1;
                proof {
                    assert(b@.take(i as int) =~= self@.take(i as int));
                    assert(self@[i as int] == d);
                    lemma_succ_at(self@, b@, i as int);
                }
                return Uint256 { bytes: b };
            } else {
                let ghost pre = b@;
                b[i] = 0;
                proof {
                    assert(b@.take(i as int) =~= self@.take(i as int));
                    assert(self@[i as int] == 255);
                }
            }
        }
        proof {
            lemma_be_nat_ones(self@);
            assert(false);
        }
        Uint256 { bytes: b }
    }

    /// Strict comparison of the mathematical values.
    pub fn lt(&self, other: &Self) -> (r: bool)
        ensures
            r == (self.as_nat() < other.as_nat()),
    {
        let mut i: usize = 0;
        while i < 32
            invariant
                0 <= i <= 32,
                self@.take(i as int) == other@.take(i as int),
            decreases 32 - i,
        {
            if self.bytes[i] < other.bytes[i] {
                proof {
                    lemma_be_nat_prefix_lt(self@, other@, i as int);
                }
                return true;
            }
            if self.bytes[i] > other.bytes[i] {
                proof {
                    lemma_be_nat_prefix_lt(other@, self@, i as int);
                }
                return false;
            }
            proof {
                assert(self.bytes@[i as int] == other.bytes@[i as int]);
                assert(self@.take(i + 1) =~= other@.take(i + 1));
            }
            i = i + 1;
        }
        proof {
            assert forall|j: int| 0 <= j < 32 implies self@[j] == other@[j] by {
                assert(self@.take(32)[j] == self@[j]);
                assert(other@.take(32)[j] == other@[j]);
            }
            assert(self@ =~= other@);
        }
        false
    }
}

/// Incrementing the byte at `i` while clearing the all-255 tail after it
/// adds exactly one to the value.
proof fn lemma_succ_at(orig: Seq<u8>, new: Seq<u8>, i: int)
    requires
        orig.len() == new.len(),
        0 <= i < orig.len(),
        orig[i] < 255,
        new[i] == orig[i] + 1,
        new.take(i) == orig.take(i),
        forall|j: int| i < j < orig.len() ==> orig[j] == 255 && new[j] == 0,
    ensures
        be_nat(new) == be_nat(orig) + 1,
{
    let n = orig.len() as int;
    let k = (n - i - 1) as nat;
    lemma_be_nat_split(orig, i + 1);
    lemma_be_nat_split(new, i + 1);
    assert(orig.take(i + 1).drop_last() =~= orig.take(i));
    assert(new.take(i + 1).drop_last() =~= new.take(i));
    assert(be_nat(orig.take(i + 1)) == be_nat(orig.take(i)) * 256 + orig[i]);
    assert(be_nat(new.take(i + 1)) == be_nat(orig.take(i)) * 256 + orig[i] + 1);
    lemma_be_nat_ones(orig.skip(i + 1));
    lemma_be_nat_zero(new.skip(i + 1));
    assert(orig.skip(i + 1).len() == k);
    assert(new.skip(i + 1).len() == k);
    assert((be_nat(orig.take(i + 1)) + 1) * pow256(k)
        == be_nat(orig.take(i + 1)) * pow256(k) + pow256(k)) by (nonlinear_arith);
}

} // verus!
