//! The epoch entity: the signed record of one epoch's seed, sequence
//! number and reference block, and — once confirmation has run the worker
//! selection over the live contract addresses — its resolved assignment.
//!
//! "Unconfirmed" and "confirmed" are two states of the same logical
//! entity; confirmation happens at most once, and the resolved assignment
//! is immutable afterwards.

use vstd::prelude::*;

verus! {

use crate::byteutil::{bytes_eq, copy_vec};
use crate::errors::EpochError;
use crate::keeper_types::{InputWorkerParams, invalid_snapshot, spec_selected_worker};
use crate::uint256::Uint256;

broadcast use vstd::array::axiom_array_ext_equal;

/// The map held by a list of (contract address, worker) pairs, later pairs
/// winning; with distinct keys, the order does not matter.
pub open spec fn pairs_to_map(pairs: Seq<([u8; 32], [u8; 20])>) -> Map<[u8; 32], [u8; 20]>
    decreases pairs.len(),
{
    if pairs.len() == 0 {
        Map::empty()
    } else {
        pairs_to_map(pairs.drop_last()).insert(pairs.last().0, pairs.last().1)
    }
}

/// Distinct contract addresses: each address appears at most once.
pub open spec fn distinct_keys(pairs: Seq<([u8; 32], [u8; 20])>) -> bool {
    forall|i: int, j: int| 0 <= i < j < pairs.len() ==> pairs[i].0 != pairs[j].0
}

/// With distinct keys, the pair list and its map agree: every pair is in
/// the map with its own worker, and every key of the map comes from a pair.
pub proof fn lemma_pairs_to_map_facts(pairs: Seq<([u8; 32], [u8; 20])>)
    requires
        distinct_keys(pairs),
    ensures
        forall|j: int|
            0 <= j < pairs.len() ==> pairs_to_map(pairs).contains_key(#[trigger] pairs[j].0)
                && pairs_to_map(pairs)[pairs[j].0] == pairs[j].1,
        forall|a: [u8; 32]|
            #[trigger] pairs_to_map(pairs).contains_key(a) ==> exists|j: int|
                0 <= j < pairs.len() && pairs[j].0 == a,
    decreases pairs.len(),
{
    if pairs.len() > 0 {
        let prefix = pairs.drop_last();
        lemma_pairs_to_map_facts(prefix);
        assert forall|j: int| 0 <= j < pairs.len() implies pairs_to_map(pairs).contains_key(
            #[trigger] pairs[j].0,
        ) && pairs_to_map(pairs)[pairs[j].0] == pairs[j].1 by {
            if j < pairs.len() - 1 {
                assert(prefix[j] == pairs[j]);
                assert(pairs[j].0 != pairs.last().0);
            }
        }
        assert forall|a: [u8; 32]| #[trigger] pairs_to_map(pairs).contains_key(a) implies exists|
            j: int,
        | 0 <= j < pairs.len() && pairs[j].0 == a by {
            if a == pairs.last().0 {
                assert(pairs[pairs.len() - 1].0 == a);
            } else {
                assert(pairs_to_map(prefix).contains_key(a));
                let j = choose|j: int| 0 <= j < prefix.len() && prefix[j].0 == a;
                assert(prefix[j] == pairs[j]);
                assert(pairs[j].0 == a);
            }
        }
    }
}

/// The assignment that confirmation resolves for a list of contract
/// addresses: each address that selects a worker maps to that worker.
pub open spec fn assignment_map(
    seed: Seq<u8>,
    workers: Seq<[u8; 20]>,
    stakes: Seq<u64>,
    addrs: Seq<[u8; 32]>,
) -> Map<[u8; 32], [u8; 20]>
    decreases addrs.len(),
{
    if addrs.len() == 0 {
        Map::empty()
    } else {
        let m = assignment_map(seed, workers, stakes, addrs.drop_last());
        match spec_selected_worker(seed, addrs.last()@, workers, stakes) {
            Some(w) => m.insert(addrs.last(), w),
            None => m,
        }
    }
}

/// The resolved assignment holds exactly the listed addresses that select
/// a worker, each mapped to the worker the selection picks for it.
pub proof fn lemma_assignment_map_facts(
    seed: Seq<u8>,
    workers: Seq<[u8; 20]>,
    stakes: Seq<u64>,
    addrs: Seq<[u8; 32]>,
)
    ensures
        forall|a: [u8; 32]|
            #[trigger] assignment_map(seed, workers, stakes, addrs).contains_key(a) <==> (
            addrs.contains(a) && spec_selected_worker(seed, a@, workers, stakes) is Some),
        forall|a: [u8; 32]|
            #[trigger] assignment_map(seed, workers, stakes, addrs).contains_key(a)
                ==> assignment_map(seed, workers, stakes, addrs)[a] == spec_selected_worker(
                seed,
                a@,
                workers,
                stakes,
            ).unwrap(),
    decreases addrs.len(),
{
    if addrs.len() > 0 {
        let prefix = addrs.drop_last();
        lemma_assignment_map_facts(seed, workers, stakes, prefix);
        let m0 = assignment_map(seed, workers, stakes, prefix);
        let m = assignment_map(seed, workers, stakes, addrs);
        let last = addrs.last();
        assert forall|a: [u8; 32]| #[trigger] m.contains_key(a) <==> (addrs.contains(a)
            && spec_selected_worker(seed, a@, workers, stakes) is Some) by {
            if m.contains_key(a) {
                if spec_selected_worker(seed, last@, workers, stakes) is Some && a == last {
                    assert(addrs[addrs.len() - 1] == a);
                    assert(addrs.contains(a));
                } else {
                    assert(m0.contains_key(a));
                    let j = choose|j: int| 0 <= j < prefix.len() && prefix[j] == a;
                    assert(addrs[j] == a);
                    assert(addrs.contains(a));
                }
            }
            if addrs.contains(a) && spec_selected_worker(seed, a@, workers, stakes) is Some {
                let j = choose|j: int| 0 <= j < addrs.len() && addrs[j] == a;
                if j == addrs.len() - 1 {
                    assert(a == last);
                    assert(m.contains_key(a));
                } else {
                    assert(prefix[j] == a);
                    assert(prefix.contains(a));
                    assert(m0.contains_key(a));
                    assert(m.contains_key(a));
                }
            }
        }
        assert forall|a: [u8; 32]| #[trigger] m.contains_key(a) implies m[a]
            == spec_selected_worker(seed, a@, workers, stakes).unwrap() by {
            if spec_selected_worker(seed, last@, workers, stakes) is Some && a == last {
            } else {
                assert(m0.contains_key(a));
                assert(m[a] == m0[a]);
            }
        }
    }
}

/// The resolved assignment of a confirmed epoch: the selected worker for
/// each live contract address, and the ledger block observed at
/// confirmation time (which may lag the block the snapshot was read at;
/// the divergence is expected).
#[derive(Debug)]
pub struct ConfirmedEpochState {
    pub selected_workers: Vec<([u8; 32], [u8; 20])>,
    pub ether_block_number: Uint256,
}

impl ConfirmedEpochState {
    /// Each contract address is recorded at most once.
    pub open spec fn wf(self) -> bool {
        distinct_keys(self.selected_workers@)
    }

    /// The assignment as a map from contract address to worker.
    pub open spec fn sel_map(self) -> Map<[u8; 32], [u8; 20]> {
        pairs_to_map(self.selected_workers@)
    }
}

/// A `get_contract_addresses` result for `worker` over the assignment `m`:
/// the distinct addresses that `m` sends to `worker`, all of them, and
/// nothing else.
pub open spec fn contracts_result_ok(
    m: Map<[u8; 32], [u8; 20]>,
    worker: [u8; 20],
    r: Seq<[u8; 32]>,
) -> bool {
    &&& forall|p: int, q: int| 0 <= p < q < r.len() ==> r[p] != r[q]
    &&& forall|p: int| 0 <= p < r.len() ==> m.contains_key(#[trigger] r[p]) && m[r[p]] == worker
    &&& forall|a: [u8; 32]| #[trigger] m.contains_key(a) && m[a] == worker ==> r.contains(a)
}

/// A signed epoch: the entity a mint returns, confirmed at most once.
#[derive(Debug)]
pub struct SignedEpoch {
    seed: Uint256,
    sig: Vec<u8>,
    nonce: Uint256,
    km_block_number: Uint256,
    /// The resolved assignment.  Verified callers set it exactly once,
    /// through [`SignedEpoch::confirm`], which also establishes the
    /// well-formedness `get_contract_addresses` requires; writing the
    /// field directly bypasses both guarantees.
    pub confirmed_state: Option<ConfirmedEpochState>,
}

impl SignedEpoch {
    /// The epoch's random seed.
    pub closed spec fn spec_seed(self) -> Uint256 {
        self.seed
    }

    /// The epoch's signature bytes.
    pub closed spec fn spec_sig(self) -> Seq<u8> {
        self.sig@
    }

    /// The epoch's sequence number.
    pub closed spec fn spec_nonce(self) -> Uint256 {
        self.nonce
    }

    /// The block number the worker snapshot was assembled at.
    pub closed spec fn spec_km_block(self) -> Uint256 {
        self.km_block_number
    }

    /// The resolved assignment, if confirmation has run.
    pub closed spec fn spec_confirmed(self) -> Option<ConfirmedEpochState> {
        self.confirmed_state
    }

    /// A freshly minted, unconfirmed epoch.
    pub fn new(seed: Uint256, sig: Vec<u8>, nonce: Uint256, km_block_number: Uint256) -> (r: Self)
        ensures
            r.spec_seed() == seed,
            r.spec_sig() == sig@,
            r.spec_nonce() == nonce,
            r.spec_km_block() == km_block_number,
            r.spec_confirmed() is None,
    {
        Self { seed, sig, nonce, km_block_number, confirmed_state: None }
    }

    /// The epoch's sequence number.
    pub fn get_nonce(&self) -> (r: Uint256)
        ensures
            r == self.spec_nonce(),
    {
        self.nonce
    }

    /// The epoch's random seed.
    pub fn get_seed(&self) -> (r: Uint256)
        ensures
            r == self.spec_seed(),
    {
        self.seed
    }

    /// The block number the worker snapshot was assembled at.
    pub fn get_km_block_num(&self) -> (r: Uint256)
        ensures
            r == self.spec_km_block(),
    {
        self.km_block_number
    }

    /// The epoch's signature bytes.
    pub fn get_sig(&self) -> (r: Vec<u8>)
        ensures
            r@ == self.spec_sig(),
    {
        copy_vec(&self.sig)
    }

    /// Builds the resolved assignment of this epoch: runs the worker
    /// selection for every given secret-contract address and records, once,
    /// which worker owns which address.
    ///
    /// Fails with `InvalidWorkerSet` exactly when selection rejects the
    /// snapshot; the epoch is then left unchanged.
    pub fn confirm(
        &mut self,
        ether_block_number: Uint256,
        worker_params: &InputWorkerParams,
        sc_addresses: Vec<[u8; 32]>,
    ) -> (r: Result<(), EpochError>)
        requires
            old(self).spec_confirmed() is None,
        ensures
            r is Err <==> invalid_snapshot(*worker_params),
            r is Err ==> r == Err::<(), EpochError>(EpochError::InvalidWorkerSet) && *final(self)
                == *old(self),
            r is Ok ==> ({
                &&& final(self).spec_seed() == old(self).spec_seed()
                &&& final(self).spec_sig() == old(self).spec_sig()
                &&& final(self).spec_nonce() == old(self).spec_nonce()
                &&& final(self).spec_km_block() == old(self).spec_km_block()
                &&& final(self).spec_confirmed() matches Some(cs)
                    && cs.wf()
                    && cs.ether_block_number@ == ether_block_number@
                    && cs.sel_map() == assignment_map(
                        old(self).spec_seed()@,
                        worker_params.workers@,
                        worker_params.stakes@,
                        sc_addresses@,
                    )
            }),
    {
        if !worker_params.is_valid() {
            return Err(EpochError::InvalidWorkerSet);
        }
        let ghost seedv = self.seed@;
        let ghost ws = worker_params.workers@;
        let ghost ss = worker_params.stakes@;
        let mut pairs: Vec<([u8; 32], [u8; 20])> = Vec::new();
        let n = sc_addresses.len();
        let mut i: usize = 0;
        proof {
            assert(sc_addresses@.take(0) =~= Seq::<[u8; 32]>::empty());
            assert(pairs_to_map(pairs@) =~= assignment_map(seedv, ws, ss, sc_addresses@.take(0)));
        }
        while i < n
            invariant
                0 <= i <= n,
                n == sc_addresses@.len(),
                seedv == self.seed@,
                ws == worker_params.workers@,
                ss == worker_params.stakes@,
                !invalid_snapshot(*worker_params),
                distinct_keys(pairs@),
                pairs_to_map(pairs@) == assignment_map(seedv, ws, ss, sc_addresses@.take(i as int)),
            decreases n - i,
        {
            let ghost prev_pairs = pairs@;
            let a = sc_addresses[i];
            proof {
                assert(sc_addresses@.take(i + 1).drop_last() =~= sc_addresses@.take(i as int));
                assert(sc_addresses@.take(i + 1).last() == a);
                lemma_pairs_to_map_facts(prev_pairs);
                lemma_assignment_map_facts(seedv, ws, ss, sc_addresses@.take(i as int));
            }
            match worker_params.get_selected_worker(&a, &self.seed) {
                Err(e) => {
                    proof {
                        assert(false);
                    }
                    return Err(e);
                },
                Ok(None) => {
                    proof {
                        assert(pairs_to_map(pairs@) =~= assignment_map(
                            seedv, ws, ss, sc_addresses@.take(i + 1)));
                    }
                },
                Ok(Some(w)) => {
                    let mut found = false;
                    let m = pairs.len();
                    let mut k: usize = 0;
                    while k < m
                        invariant
                            0 <= k <= m,
                            m == pairs@.len(),
                            found ==> exists|j: int| 0 <= j < m && pairs@[j].0 == a,
                            !found ==> forall|j: int| 0 <= j < k ==> pairs@[j].0 != a,
                        decreases m - k,
                    {
                        if bytes_eq(&pairs[k].0, &a) {
                            proof {
                                assert(pairs@[k as int].0@ == a@);
                                assert(pairs@[k as int].0 =~= a);
                            }
                            found = true;
                        }
                        k = k + 1;
                    }
                    if found {
                        proof {
                            let m0 = pairs_to_map(pairs@);
                            let j = choose|j: int| 0 <= j < pairs@.len() && pairs@[j].0 == a;
                            assert(m0.contains_key(a));
                            assert(spec_selected_worker(seedv, a@, ws, ss) == Some(w));
                            assert(sc_addresses@.take(i as int).contains(a));
                            assert(m0[a] == w);
                            assert(m0.insert(a, w) =~= m0);
                            assert(pairs_to_map(pairs@) =~= assignment_map(
                                seedv, ws, ss, sc_addresses@.take(i + 1)));
                        }
                    } else {
                        pairs.push((a, w));
                        proof {
                            assert(pairs@.drop_last() =~= prev_pairs);
                            assert(pairs@.last() == (a, w));
                            assert(distinct_keys(pairs@)) by {
                                assert(forall|p: int, q: int|
                                    0 <= p < q < pairs@.len() - 1 ==> pairs@[p].0 != pairs@[q].0);
                                assert(forall|p: int|
                                    0 <= p < pairs@.len() - 1 ==> pairs@[p].0 != a);
                            }
                            assert(pairs_to_map(pairs@) =~= assignment_map(
                                seedv, ws, ss, sc_addresses@.take(i + 1)));
                        }
                    }
                },
            }
            i = i + 1;
        }
        proof {
            assert(sc_addresses@.take(n as int) =~= sc_addresses@);
        }
        self.confirmed_state = Some(
            ConfirmedEpochState { selected_workers: pairs, ether_block_number },
        );
        Ok(())
    }

    /// The contract addresses this epoch assigns to `worker`.
    ///
    /// Fails with `UnconfirmedState` exactly when the epoch has not been
    /// confirmed yet.
    pub fn get_contract_addresses(&self, worker: &[u8; 20]) -> (r: Result<Vec<[u8; 32]>, EpochError>)
        requires
            self.spec_confirmed() matches Some(cs) ==> cs.wf(),
        ensures
            r is Err <==> self.spec_confirmed() is None,
            r is Err ==> r == Err::<Vec<[u8; 32]>, EpochError>(EpochError::UnconfirmedState),
            self.spec_confirmed() matches Some(cs) ==> r matches Ok(v) && contracts_result_ok(
                cs.sel_map(),
                *worker,
                v@,
            ),
    {
        let state = match &self.confirmed_state {
            Some(state) => state,
            None => {
                return Err(EpochError::UnconfirmedState);
            },
        };
        let ghost m = state.sel_map();
        let ghost pairs = state.selected_workers@;
        proof {
            lemma_pairs_to_map_facts(pairs);
        }
        let n = state.selected_workers.len();
        let mut out: Vec<[u8; 32]> = Vec::new();
        let mut i: usize = 0;
        while i < n
            invariant
                0 <= i <= n,
                n == pairs.len(),
                pairs == state.selected_workers@,
                m == state.sel_map(),
                distinct_keys(pairs),
                forall|j: int|
                    0 <= j < pairs.len() ==> m.contains_key(#[trigger] pairs[j].0)
                        && m[pairs[j].0] == pairs[j].1,
                forall|p: int, q: int| 0 <= p < q < out@.len() ==> out@[p] != out@[q],
                forall|p: int, j2: int|
                    0 <= p < out@.len() && i <= j2 < n ==> (#[trigger] out@[p]) != (
                    #[trigger] pairs[j2].0),
                forall|p: int|
                    0 <= p < out@.len() ==> m.contains_key(#[trigger] out@[p]) && m[out@[p]]
                        == *worker,
                forall|j: int|
                    0 <= j < i && (#[trigger] pairs[j].1) == *worker ==> out@.contains(pairs[j].0),
            decreases n - i,
        {
            let ghost prev_out = out@;
            if bytes_eq(&state.selected_workers[i].1, worker) {
                proof {
                    assert(pairs[i as int].1@ == worker@);
                    assert(pairs[i as int].1 =~= *worker);
                }
                out.push(state.selected_workers[i].0);
                proof {
                    assert(out@[out@.len() - 1] == pairs[i as int].0);
                    assert forall|p: int, q: int| 0 <= p < q < out@.len() implies out@[p]
                        != out@[q] by {
                        if q == out@.len() - 1 {
                            assert(prev_out[p] != pairs[i as int].0);
                        }
                    }
                    assert forall|j: int|
                        0 <= j < i + 1 && (#[trigger] pairs[j].1) == *worker implies out@.contains(
                        pairs[j].0,
                    ) by {
                        if j == i {
                            assert(out@[out@.len() - 1] == pairs[i as int].0);
                        } else {
                            let p = choose|p: int|
                                0 <= p < prev_out.len() && prev_out[p] == pairs[j].0;
                            assert(out@[p] == pairs[j].0);
                        }
                    }
                }
            } else {
                proof {
                    assert(pairs[i as int].1@ != worker@);
                    assert forall|j: int|
                        0 <= j < i + 1 && (#[trigger] pairs[j].1) == *worker implies out@.contains(
                        pairs[j].0,
                    ) by {
                        if j == i {
                            assert(pairs[i as int].1@ == worker@);
                        }
                    }
                }
            }
            i = i + 1;
        }
        proof {
            assert forall|a: [u8; 32]| #[trigger] m.contains_key(a) && m[a] == *worker implies out@
                .contains(a) by {
                let j = choose|j: int| 0 <= j < pairs.len() && pairs[j].0 == a;
                assert(m[pairs[j].0] == pairs[j].1);
                assert(pairs[j].1 == *worker);
            }
        }
        Ok(out)
    }
}

/// Distinct workers own disjoint shares of a confirmed assignment, and
/// every confirmed address appears in the result for its own worker: the
/// per-worker address lists partition the assignment.
pub proof fn lemma_contracts_partition(
    m: Map<[u8; 32], [u8; 20]>,
    w1: [u8; 20],
    w2: [u8; 20],
    r1: Seq<[u8; 32]>,
    r2: Seq<[u8; 32]>,
)
    requires
        w1 != w2,
        contracts_result_ok(m, w1, r1),
        contracts_result_ok(m, w2, r2),
    ensures
        forall|a: [u8; 32]| !(r1.contains(a) && r2.contains(a)),
        forall|a: [u8; 32]|
            #[trigger] m.contains_key(a) && m[a] == w1 ==> r1.contains(a),
        forall|a: [u8; 32]|
            #[trigger] m.contains_key(a) && m[a] == w2 ==> r2.contains(a),
{
    assert forall|a: [u8; 32]| !(r1.contains(a) && r2.contains(a)) by {
        if r1.contains(a) && r2.contains(a) {
            let p = choose|p: int| 0 <= p < r1.len() && r1[p] == a;
            let q = choose|q: int| 0 <= q < r2.len() && r2[q] == a;
            assert(m[r1[p]] == w1);
            assert(m[r2[q]] == w2);
        }
    }
}

/// The name of the on-chain event that announces a new epoch's worker
/// parameters.
pub const WORKER_PARAMETERIZED_EVENT: &'static str = "WorkersParameterized";

/// The argument types the event carries.
#[derive(Debug, Clone, Copy, PartialEq, Eq, Structural)]
pub enum EventParamKind {
    Uint256,
    Address,
    Uint256Array,
    AddressArray,
}

/// One named, typed argument of the event.
#[derive(Debug)]
pub struct EventParam {
    pub name: &'static str,
    pub kind: EventParamKind,
    pub indexed: bool,
}

/// The schema of the `WorkersParameterized` event: its name and its six
/// arguments, in on-chain order.
#[derive(Debug)]
pub struct WorkersParameterizedEvent {
    pub name: &'static str,
    pub inputs: Vec<EventParam>,
    pub anonymous: bool,
}

impl WorkersParameterizedEvent {
    /// The event schema, exactly as the ledger contract declares it.
    pub fn new() -> (r: Self)
        ensures
            r.name@ == WORKER_PARAMETERIZED_EVENT@,
            r.anonymous == false,
            r.inputs@.len() == 6,
            r.inputs@[0].name@ == "seed"@ && r.inputs@[0].kind == EventParamKind::Uint256
                && !r.inputs@[0].indexed,
            r.inputs@[1].name@ == "firstBlockNumber"@ && r.inputs@[1].kind
                == EventParamKind::Uint256 && !r.inputs@[1].indexed,
            r.inputs@[2].name@ == "inclusionBlockNumber"@ && r.inputs@[2].kind
                == EventParamKind::Uint256 && !r.inputs@[2].indexed,
            r.inputs@[3].name@ == "workers"@ && r.inputs@[3].kind == EventParamKind::AddressArray
                && !r.inputs@[3].indexed,
            r.inputs@[4].name@ == "stakes"@ && r.inputs@[4].kind == EventParamKind::Uint256Array
                && !r.inputs@[4].indexed,
            r.inputs@[5].name@ == "nonce"@ && r.inputs@[5].kind == EventParamKind::Uint256
                && !r.inputs@[5].indexed,
    {
        let mut inputs: Vec<EventParam> = Vec::new();
        inputs.push(EventParam { name: "seed", kind: EventParamKind::Uint256, indexed: false });
        inputs.push(
            EventParam { name: "firstBlockNumber", kind: EventParamKind::Uint256, indexed: false },
        );
        inputs.push(
            EventParam {
                name: "inclusionBlockNumber",
                kind: EventParamKind::Uint256,
                indexed: false,
            },
        );
        inputs.push(
            EventParam { name: "workers", kind: EventParamKind::AddressArray, indexed: false },
        );
        inputs.push(
            EventParam { name: "stakes", kind: EventParamKind::Uint256Array, indexed: false },
        );
        inputs.push(EventParam { name: "nonce", kind: EventParamKind::Uint256, indexed: false });
        WorkersParameterizedEvent { name: WORKER_PARAMETERIZED_EVENT, inputs, anonymous: false }
    }
}

} // verus!
