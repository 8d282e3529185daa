//! The worker/stake snapshot and the deterministic, stake-weighted worker
//! selection.
//!
//! Selection hashes the epoch seed together with the secret-contract
//! address, reduces the first 16 digest bytes modulo the total stake, and
//! walks the cumulative stake distribution: worker `i` owns the stake
//! interval of width `stakes[i]`, so its chance of owning an address grows
//! with its stake, and a worker with zero stake owns an empty interval and
//! is never selected.  The result is a pure function of the inputs, so any
//! third party can recompute and check an assignment.

use vstd::prelude::*;

verus! {

use crate::crypto::{keccak_of, keccak256};
use crate::errors::EpochError;
use crate::rlp::{rlp_str, rlp_uint, rlp_list, append_str_short, append_uint, append_u64,
    finish_list};
use crate::uint256::{be_nat, pow256, lemma_pow256_mono, Uint256};

/// The worker/stake snapshot handed in by the caller: the ledger block it
/// was read at, the worker addresses, and their stakes, index-aligned.
#[derive(Debug)]
pub struct InputWorkerParams {
    pub km_block_number: Uint256,
    pub workers: Vec<[u8; 20]>,
    pub stakes: Vec<u64>,
}

/// The sum of all stakes.
pub open spec fn total_stake(stakes: Seq<u64>) -> nat
    decreases stakes.len(),
{
    if stakes.len() == 0 {
        0
    } else {
        stakes[0] as nat + total_stake(stakes.skip(1))
    }
}

/// The index owning position `r` of the cumulative stake distribution:
/// the first index at which the running stake total exceeds `r`.
pub open spec fn pick_index(stakes: Seq<u64>, r: nat) -> int
    decreases stakes.len(),
{
    if stakes.len() == 0 {
        0
    } else if r < stakes[0] {
        0
    } else {
        1 + pick_index(stakes.skip(1), (r - stakes[0]) as nat)
    }
}

/// The uniform value an address draws for an epoch: the first 16 bytes of
/// the Keccak-256 digest of the seed followed by the address.
pub open spec fn selection_value(seed: Seq<u8>, sc_addr: Seq<u8>) -> nat {
    be_nat(keccak_of(seed + sc_addr).take(16))
}

/// The worker selected for an address, or nothing when the worker set is
/// empty.  Meaningful when workers and stakes are index-aligned and the
/// total stake is positive.
pub open spec fn spec_selected_worker(
    seed: Seq<u8>,
    sc_addr: Seq<u8>,
    workers: Seq<[u8; 20]>,
    stakes: Seq<u64>,
) -> Option<[u8; 20]>
    recommends
        workers.len() == stakes.len(),
        workers.len() == 0 || total_stake(stakes) > 0,
{
    if workers.len() == 0 {
        None
    } else {
        Some(workers[pick_index(stakes, selection_value(seed, sc_addr) % total_stake(stakes))])
    }
}

/// Positions below the total stake always land on an index with positive
/// stake: a worker with zero stake owns an empty interval of the
/// distribution and is never picked.
pub proof fn lemma_pick_index_props(stakes: Seq<u64>, r: nat)
    requires
        r < total_stake(stakes),
    ensures
        0 <= pick_index(stakes, r) < stakes.len(),
        stakes[pick_index(stakes, r)] > 0,
    decreases stakes.len(),
{
    if stakes.len() == 0 {
    } else if r < stakes[0] {
    } else {
        lemma_pick_index_props(stakes.skip(1), (r - stakes[0]) as nat);
    }
}

/// A worker with zero stake is never selected: whenever selection is
/// meaningful, it returns a worker of the set whose stake is positive.
pub proof fn lemma_zero_stake_never_selected(
    seed: Seq<u8>,
    sc_addr: Seq<u8>,
    workers: Seq<[u8; 20]>,
    stakes: Seq<u64>,
)
    requires
        workers.len() == stakes.len(),
        workers.len() > 0,
        total_stake(stakes) > 0,
    ensures
        ({
            let i = pick_index(stakes, selection_value(seed, sc_addr) % total_stake(stakes));
            &&& 0 <= i < workers.len()
            &&& stakes[i] > 0
            &&& spec_selected_worker(seed, sc_addr, workers, stakes) == Some(workers[i])
        }),
{
    let t = total_stake(stakes);
    let r = selection_value(seed, sc_addr) % t;
    assert(r < t);
    lemma_pick_index_props(stakes, r);
}

/// Selection determinism: the selected worker is a pure function of the
/// seed, the address, and the worker set, so two runs on identical inputs
/// agree — on either side of the trust boundary.
pub proof fn lemma_selection_deterministic(
    seed: Seq<u8>,
    sc_addr: Seq<u8>,
    workers: Seq<[u8; 20]>,
    stakes: Seq<u64>,
    r1: Option<[u8; 20]>,
    r2: Option<[u8; 20]>,
)
    requires
        r1 == spec_selected_worker(seed, sc_addr, workers, stakes),
        r2 == spec_selected_worker(seed, sc_addr, workers, stakes),
    ensures
        r1 == r2,
{
}

/// The snapshot is rejected by selection: lengths out of line, or a
/// non-empty worker set whose total stake is zero.
pub open spec fn invalid_snapshot(p: InputWorkerParams) -> bool {
    ||| p.workers@.len() != p.stakes@.len()
    ||| (p.workers@.len() > 0 && total_stake(p.stakes@) == 0)
}

/// The concatenated RLP items of the worker addresses.
pub open spec fn addr_items(ws: Seq<[u8; 20]>) -> Seq<u8>
    decreases ws.len(),
{
    if ws.len() == 0 {
        Seq::empty()
    } else {
        addr_items(ws.drop_last()) + rlp_str(ws.last()@)
    }
}

/// The concatenated RLP items of the stakes.
pub open spec fn stake_items(ss: Seq<u64>) -> Seq<u8>
    decreases ss.len(),
{
    if ss.len() == 0 {
        Seq::empty()
    } else {
        stake_items(ss.drop_last()) + rlp_uint(ss.last() as nat)
    }
}

/// The canonical encoding of a snapshot: the RLP list of its block number,
/// its worker-address list, and its stake list.
pub open spec fn spec_encode(p: InputWorkerParams) -> Seq<u8> {
    rlp_list(
        rlp_uint(p.km_block_number.as_nat()) + rlp_list(addr_items(p.workers@)) + rlp_list(
            stake_items(p.stakes@),
        ),
    )
}

/// The signed material of an epoch: the RLP list of its seed, its sequence
/// number, and the snapshot it was minted over.
pub open spec fn spec_epoch_material(seed: Uint256, nonce: Uint256, p: InputWorkerParams) -> Seq<
    u8,
> {
    rlp_list(rlp_uint(seed.as_nat()) + rlp_uint(nonce.as_nat()) + spec_encode(p))
}

/// The 32-byte digest an epoch is signed over.
pub open spec fn epoch_digest(seed: Uint256, nonce: Uint256, p: InputWorkerParams) -> Seq<u8> {
    keccak_of(spec_epoch_material(seed, nonce, p))
}

/// Two snapshots carrying the same values.
pub open spec fn params_eq(a: InputWorkerParams, b: InputWorkerParams) -> bool {
    &&& a.km_block_number@ == b.km_block_number@
    &&& a.workers@ == b.workers@
    &&& a.stakes@ == b.stakes@
}

impl InputWorkerParams {
    /// A value-equal copy of the snapshot.
    pub fn duplicate(&self) -> (r: Self)
        ensures
            params_eq(r, *self),
    {
        let mut workers: Vec<[u8; 20]> = Vec::new();
        let mut i: usize = 0;
        while i < self.workers.len()
            invariant
                0 <= i <= self.workers@.len(),
                workers@ == self.workers@.take(i as int),
            decreases self.workers@.len() - i,
        {
            workers.push(self.workers[i]);
            proof {
                assert(workers@ =~= self.workers@.take(i + 1));
            }
            i = i + 1;
        }
        let mut stakes: Vec<u64> = Vec::new();
        let mut k: usize = 0;
        while k < self.stakes.len()
            invariant
                0 <= k <= self.stakes@.len(),
                stakes@ == self.stakes@.take(k as int),
            decreases self.stakes@.len() - k,
        {
            stakes.push(self.stakes[k]);
            proof {
                assert(stakes@ =~= self.stakes@.take(k + 1));
            }
            k = k + 1;
        }
        proof {
            assert(workers@ =~= self.workers@);
            assert(stakes@ =~= self.stakes@);
        }
        InputWorkerParams { km_block_number: self.km_block_number, workers, stakes }
    }

    /// The total stake of the snapshot, exactly.
    fn sum_stakes(&self) -> (total: u128)
        ensures
            total == total_stake(self.stakes@),
    {
        let n = self.stakes.len();
        let mut total: u128 = 0;
        let mut i: usize = 0;
        proof {
            assert(self.stakes@.skip(0) =~= self.stakes@);
        }
        while i < n
            invariant
                0 <= i <= n,
                n == self.stakes@.len(),
                total_stake(self.stakes@) == total + total_stake(self.stakes@.skip(i as int)),
                total <= i * 0xffff_ffff_ffff_ffffu64,
            decreases n - i,
        {
            proof {
                assert(self.stakes@.skip(i as int).len() > 0);
                assert(self.stakes@.skip(i as int)[0] == self.stakes@[i as int]);
                assert(self.stakes@.skip(i as int).skip(1) =~= self.stakes@.skip(i + 1));
                assert((i + 1) * 0xffff_ffff_ffff_ffffu64
                    == i * 0xffff_ffff_ffff_ffffu64 + 0xffff_ffff_ffff_ffffu64)
                    by (nonlinear_arith);
                assert(i * 0xffff_ffff_ffff_ffffu64 <= (0xffff_ffff_ffff_ffffu64 as int) * (
                0xffff_ffff_ffff_ffffu64 as int)) by (nonlinear_arith)
                    requires i <= 0xffff_ffff_ffff_ffffu64;
            }
            total = total + self.stakes[i] as u128;
            i = i + 1;
        }
        proof {
            assert(self.stakes@.skip(n as int) =~= Seq::<u64>::empty());
        }
        total
    }

    /// Whether selection accepts this snapshot: workers and stakes are
    /// index-aligned, and a non-empty worker set carries positive stake.
    pub fn is_valid(&self) -> (r: bool)
        ensures
            r == !invalid_snapshot(*self),
    {
        if self.workers.len() != self.stakes.len() {
            return false;
        }
        if self.workers.len() == 0 {
            return true;
        }
        let total = self.sum_stakes();
        total != 0
    }

    /// Runs the worker selection for one secret-contract address under the
    /// given epoch seed.
    ///
    /// Returns the selected worker, nothing when the worker set is empty,
    /// and `InvalidWorkerSet` exactly when the snapshot is malformed or
    /// carries zero total stake.
    pub fn get_selected_worker(&self, sc_addr: &[u8; 32], seed: &Uint256) -> (r: Result<
        Option<[u8; 20]>,
        EpochError,
    >)
        ensures
            r is Err <==> invalid_snapshot(*self),
            r is Err ==> r == Err::<Option<[u8; 20]>, EpochError>(EpochError::InvalidWorkerSet),
            !invalid_snapshot(*self) ==> r == Ok::<Option<[u8; 20]>, EpochError>(
                spec_selected_worker(seed@, sc_addr@, self.workers@, self.stakes@),
            ),
    {
        let nw = self.workers.len();
        if nw != self.stakes.len() {
            return Err(EpochError::InvalidWorkerSet);
        }
        if nw == 0 {
            return Ok(None);
        }
        let total = self.sum_stakes();
        if total == 0 {
            return Err(EpochError::InvalidWorkerSet);
        }
        let seed_bytes = seed.to_be_bytes();
        let mut msg: Vec<u8> = Vec::new();
        let mut i: usize = 0;
        while i < 32
            invariant
                0 <= i <= 32,
                seed_bytes@.len() == 32,
                msg@ == seed_bytes@.take(i as int),
            decreases 32 - i,
        {
            msg.push(seed_bytes[i]);
            proof {
                assert(msg@ =~= seed_bytes@.take(i + 1));
            }
            i = i + 1;
        }
        proof {
            assert(msg@ =~= seed_bytes@);
        }
        let mut k: usize = 0;
        while k < 32
            invariant
                0 <= k <= 32,
                seed_bytes@.len() == 32,
                sc_addr@.len() == 32,
                msg@ == seed_bytes@ + sc_addr@.take(k as int),
            decreases 32 - k,
        {
            msg.push(sc_addr[k]);
            proof {
                assert(msg@ =~= seed_bytes@ + sc_addr@.take(k + 1));
            }
            k = k + 1;
        }
        proof {
            assert(sc_addr@.take(32) =~= sc_addr@);
            assert(msg@ =~= seed@ + sc_addr@);
        }
        let h = keccak256(msg.as_slice());
        let mut acc: u128 = 0;
        let mut j: usize = 0;
        proof {
            assert(h@.take(0) =~= Seq::<u8>::empty());
            assert(pow256(0) == 1);
        }
        while j < 16
            invariant
                0 <= j <= 16,
                h@.len() == 32,
                acc == be_nat(h@.take(j as int)),
                acc < pow256(j as nat),
            decreases 16 - j,
        {
            proof {
                assert(pow256(16) == 0x1_0000_0000_0000_0000_0000_0000_0000_0000) by {
                    reveal_with_fuel(pow256, 17);
                }
                lemma_pow256_mono((j + 1) as nat, 16);
                assert(h@.take(j + 1).drop_last() =~= h@.take(j as int));
            }
            acc = acc * 256 + h[j] as u128;
            j = j + 1;
        }
        proof {
            assert(selection_value(seed@, sc_addr@) == acc);
        }
        let rv: u128 = acc % total;
        let ghost rv0 = rv as nat;
        let mut rcur: u128 = rv;
        let mut w: usize = 0;
        proof {
            assert(self.stakes@.skip(0) =~= self.stakes@);
        }
        while w < nw
            invariant
                0 <= w <= nw,
                nw == self.workers@.len(),
                nw == self.stakes@.len(),
                total_stake(self.stakes@) > 0,
                self.workers@.len() > 0,
                rcur < total_stake(self.stakes@.skip(w as int)),
                pick_index(self.stakes@, rv0) == w + pick_index(
                    self.stakes@.skip(w as int),
                    rcur as nat,
                ),
                rv0 == selection_value(seed@, sc_addr@) % total_stake(self.stakes@),
            decreases nw - w,
        {
            proof {
                assert(self.stakes@.skip(w as int)[0] == self.stakes@[w as int]);
                assert(self.stakes@.skip(w as int).skip(1) =~= self.stakes@.skip(w + 1));
            }
            if rcur < self.stakes[w] as u128 {
                proof {
                    assert(pick_index(self.stakes@.skip(w as int), rcur as nat) == 0);
                    assert(pick_index(self.stakes@, rv0) == w);
                }
                return Ok(Some(self.workers[w]));
            }
            rcur = rcur - self.stakes[w] as u128;
            w = w + 1;
        }
        proof {
            assert(self.stakes@.skip(nw as int) =~= Seq::<u64>::empty());
            assert(false);
        }
        Err(EpochError::InvalidWorkerSet)
    }
}

/// The canonical snapshot encoding carried across the boundary.
pub fn encode(params: &InputWorkerParams) -> (r: Vec<u8>)
    ensures
        r@ == spec_encode(*params),
{
    let mut wp: Vec<u8> = Vec::new();
    let mut i: usize = 0;
    while i < params.workers.len()
        invariant
            0 <= i <= params.workers@.len(),
            wp@ == addr_items(params.workers@.take(i as int)),
        decreases params.workers@.len() - i,
    {
        append_str_short(&mut wp, params.workers[i].as_slice());
        proof {
            assert(params.workers@.take(i + 1).drop_last() =~= params.workers@.take(i as int));
            assert(params.workers@.take(i + 1).last() == params.workers@[i as int]);
            assert(wp@ =~= addr_items(params.workers@.take(i + 1)));
        }
        i = i + 1;
    }
    proof {
        assert(params.workers@.take(params.workers@.len() as int) =~= params.workers@);
    }
    let mut wl = finish_list(wp);
    let mut sp: Vec<u8> = Vec::new();
    let mut k: usize = 0;
    while k < params.stakes.len()
        invariant
            0 <= k <= params.stakes@.len(),
            sp@ == stake_items(params.stakes@.take(k as int)),
        decreases params.stakes@.len() - k,
    {
        append_u64(&mut sp, params.stakes[k]);
        proof {
            assert(params.stakes@.take(k + 1).drop_last() =~= params.stakes@.take(k as int));
            assert(params.stakes@.take(k + 1).last() == params.stakes@[k as int]);
            assert(sp@ =~= stake_items(params.stakes@.take(k + 1)));
        }
        k = k + 1;
    }
    proof {
        assert(params.stakes@.take(params.stakes@.len() as int) =~= params.stakes@);
    }
    let mut sl = finish_list(sp);
    let mut payload: Vec<u8> = Vec::new();
    append_uint(&mut payload, &params.km_block_number);
    payload.append(&mut wl);
    payload.append(&mut sl);
    proof {
        assert(payload@ =~= rlp_uint(params.km_block_number.as_nat()) + rlp_list(
            addr_items(params.workers@),
        ) + rlp_list(stake_items(params.stakes@)));
    }
    finish_list(payload)
}

/// The material an epoch's signature covers, in its canonical encoding.
pub fn encode_epoch_material(seed: &Uint256, nonce: &Uint256, params: &InputWorkerParams) -> (r:
    Vec<u8>)
    ensures
        r@ == spec_epoch_material(*seed, *nonce, *params),
{
    let mut payload: Vec<u8> = Vec::new();
    append_uint(&mut payload, seed);
    append_uint(&mut payload, nonce);
    let mut snap = encode(params);
    payload.append(&mut snap);
    proof {
        assert(payload@ =~= rlp_uint(seed.as_nat()) + rlp_uint(nonce.as_nat()) + spec_encode(
            *params,
        ));
    }
    finish_list(payload)
}

} // verus!
