//! The canonical, self-describing binary encoding of the boundary call's
//! payloads (RLP): a byte string shorter than 56 bytes is prefixed with
//! `0x80` plus its length, a longer one with `0xb7` plus the length of its
//! big-endian length; a single byte below `0x80` stands for itself; a list
//! is framed the same way starting at `0xc0` and `0xf7`.  Integers are
//! encoded as their minimal big-endian bytes.

use vstd::prelude::*;

verus! {

use vstd::arithmetic::div_mod::lemma_fundamental_div_mod_converse;
use crate::uint256::{be_nat, pow256, lemma_be_nat_split, lemma_be_nat_zero, lemma_be_nat_first,
    lemma_pow256_pos, Uint256};

/// The minimal big-endian encoding of `n`: no leading zero, and zero itself
/// encodes as the empty string.
pub open spec fn be_min(n: nat) -> Seq<u8>
    decreases n,
{
    if n == 0 {
        Seq::empty()
    } else {
        be_min(n / 256).push((n % 256) as u8)
    }
}

/// The encoding of a byte string as an RLP item.
pub open spec fn rlp_str(payload: Seq<u8>) -> Seq<u8> {
    if payload.len() == 1 && payload[0] < 0x80 {
        payload
    } else if payload.len() <= 55 {
        seq![(0x80 + payload.len()) as u8] + payload
    } else {
        seq![(0xb7 + be_min(payload.len()).len()) as u8] + be_min(payload.len()) + payload
    }
}

/// The encoding of an unsigned integer: its minimal big-endian bytes as an
/// RLP item.
pub open spec fn rlp_uint(n: nat) -> Seq<u8> {
    rlp_str(be_min(n))
}

/// The framing of an already-encoded list payload.
pub open spec fn rlp_list(payload: Seq<u8>) -> Seq<u8> {
    if payload.len() <= 55 {
        seq![(0xc0 + payload.len()) as u8] + payload
    } else {
        seq![(0xf7 + be_min(payload.len()).len()) as u8] + be_min(payload.len()) + payload
    }
}

/// A value below `256^k` needs at most `k` minimal big-endian bytes.
pub proof fn lemma_be_min_len(n: nat, k: nat)
    requires
        n < pow256(k),
    ensures
        be_min(n).len() <= k,
    decreases k,
{
    if n > 0 && k > 0 {
        assert(n / 256 < pow256((k - 1) as nat)) by (nonlinear_arith)
            requires n < 256 * pow256((k - 1) as nat);
        lemma_be_min_len(n / 256, (k - 1) as nat);
    }
}

/// On a string without a leading zero, `be_min` inverts `be_nat`.
pub proof fn lemma_be_min_canon(t: Seq<u8>)
    requires
        t.len() == 0 || t[0] != 0,
    ensures
        be_min(be_nat(t)) == t,
    decreases t.len(),
{
    if t.len() == 0 {
        assert(be_min(0) =~= Seq::<u8>::empty());
        assert(be_min(be_nat(t)) =~= t);
    } else {
        let n = be_nat(t);
        lemma_be_nat_first(t);
        lemma_pow256_pos((t.len() - 1) as nat);
        assert(n >= t[0] * pow256((t.len() - 1) as nat)) by {
            assert(be_nat(t.skip(1)) >= 0);
        }
        assert(t[0] * pow256((t.len() - 1) as nat) >= pow256((t.len() - 1) as nat))
            by (nonlinear_arith)
            requires t[0] >= 1, pow256((t.len() - 1) as nat) >= 1;
        assert(n > 0);
        let dl = t.drop_last();
        assert(n == be_nat(dl) * 256 + t.last());
        lemma_fundamental_div_mod_converse(n as int, 256, be_nat(dl) as int, t.last() as int);
        assert(n / 256 == be_nat(dl));
        assert(n % 256 == t.last());
        if t.len() == 1 {
            assert(dl =~= Seq::<u8>::empty());
            assert(be_min(n) =~= be_min(0).push(t.last()));
            assert(be_min(be_nat(t)) =~= t);
        } else {
            assert(dl[0] == t[0]);
            lemma_be_min_canon(dl);
            assert(be_min(n) =~= dl.push(t.last()));
            assert(dl.push(t.last()) =~= t);
        }
    }
}

/// A string whose first `i` bytes are zero is worth what its tail is worth.
pub proof fn lemma_be_nat_zero_prefix(s: Seq<u8>, i: int)
    requires
        0 <= i <= s.len(),
        forall|j: int| 0 <= j < i ==> s[j] == 0,
    ensures
        be_nat(s) == be_nat(s.skip(i)),
{
    lemma_be_nat_split(s, i);
    lemma_be_nat_zero(s.take(i));
}

/// The minimal big-endian bytes of `n`, computed by the defining recursion.
pub fn be_min_vec(n: u64) -> (r: Vec<u8>)
    ensures
        r@ == be_min(n as nat),
    decreases n,
{
    if n == 0 {
        let r: Vec<u8> = Vec::new();
        proof {
            assert(r@ =~= be_min(0));
        }
        r
    } else {
        proof {
            assert(n / 256 < n) by (nonlinear_arith)
                requires n >= 1;
        }
        let mut r = be_min_vec(n / 256);
        r.push((n % 256) as u8);
        r
    }
}

/// The minimal big-endian bytes of a 256-bit integer: its 32 big-endian
/// bytes with the leading zeros removed.
pub fn be_min_of_u256(v: &Uint256) -> (r: Vec<u8>)
    ensures
        r@ == be_min(v.as_nat()),
        r@.len() <= 32,
{
    let bytes = v.to_be_bytes();
    let mut i: usize = 0;
    while i < 32 && bytes[i] == 0
        invariant
            0 <= i <= 32,
            bytes@.len() == 32,
            forall|j: int| 0 <= j < i ==> bytes@[j] == 0,
        decreases 32 - i,
    {
        i = i + 1;
    }
    let mut r: Vec<u8> = Vec::new();
    let mut k: usize = i;
    while k < 32
        invariant
            i <= k <= 32,
            bytes@.len() == 32,
            r@ == bytes@.subrange(i as int, k as int),
        decreases 32 - k,
    {
        r.push(bytes[k]);
        proof {
            assert(r@ =~= bytes@.subrange(i as int, k + 1));
        }
        k = k + 1;
    }
    proof {
        assert(r@ =~= bytes@.skip(i as int));
        lemma_be_nat_zero_prefix(bytes@, i as int);
        lemma_be_min_canon(bytes@.skip(i as int));
    }
    r
}

/// Appends the RLP framing of a byte string no longer than 55 bytes.
pub fn append_str_short(out: &mut Vec<u8>, s: &[u8])
    requires
        s@.len() <= 55,
    ensures
        final(out)@ == old(out)@ + rlp_str(s@),
{
    let n = s.len();
    if n == 1 && s[0] < 0x80 {
        out.push(s[0]);
        proof {
            assert(s@ =~= seq![s@[0]]);
            assert(out@ =~= old(out)@ + rlp_str(s@));
        }
    } else {
        out.push(0x80 + n as u8);
        let mut k: usize = 0;
        while k < n
            invariant
                0 <= k <= n,
                n == s@.len(),
                out@ == old(out)@ + seq![(0x80 + n) as u8] + s@.take(k as int),
            decreases n - k,
        {
            out.push(s[k]);
            proof {
                assert(out@ =~= old(out)@ + seq![(0x80 + n) as u8] + s@.take(k + 1));
            }
            k = k + 1;
        }
        proof {
            assert(s@.take(n as int) =~= s@);
            assert(out@ =~= old(out)@ + rlp_str(s@));
        }
    }
}

/// Appends the RLP encoding of an unsigned 256-bit integer.
pub fn append_uint(out: &mut Vec<u8>, v: &Uint256)
    ensures
        final(out)@ == old(out)@ + rlp_uint(v.as_nat()),
{
    let payload = be_min_of_u256(v);
    append_str_short(out, payload.as_slice());
}

/// Appends the RLP encoding of an unsigned 64-bit integer.
pub fn append_u64(out: &mut Vec<u8>, v: u64)
    ensures
        final(out)@ == old(out)@ + rlp_uint(v as nat),
{
    let payload = be_min_vec(v);
    proof {
        assert(pow256(8) == 0x1_0000_0000_0000_0000) by {
            reveal_with_fuel(pow256, 9);
        }
        lemma_be_min_len(v as nat, 8);
    }
    append_str_short(out, payload.as_slice());
}

/// Frames an encoded payload as an RLP list.
pub fn finish_list(payload: Vec<u8>) -> (r: Vec<u8>)
    ensures
        r@ == rlp_list(payload@),
{
    let ghost orig = payload@;
    let n = payload.len();
    let mut r: Vec<u8> = Vec::new();
    let mut payload = payload;
    if n <= 55 {
        r.push(0xc0 + n as u8);
        r.append(&mut payload);
        proof {
            assert(r@ =~= rlp_list(orig));
        }
    } else {
        let len64: u64 = n as u64;
        let mut lenbytes = be_min_vec(len64);
        proof {
            assert(pow256(8) == 0x1_0000_0000_0000_0000) by {
                reveal_with_fuel(pow256, 9);
            }
            lemma_be_min_len(len64 as nat, 8);
        }
        r.push(0xf7 + lenbytes.len() as u8);
        r.append(&mut lenbytes);
        r.append(&mut payload);
        proof {
            assert(r@ =~= rlp_list(orig));
        }
    }
    r
}

} // verus!
