//! The secure epoch store and its sealed nonce ledger.
//!
//! The store is the single writer of all epoch state: it mints a fresh
//! seed and the next sequence number, records that number durably in the
//! sealed nonce ledger before the new epoch becomes visible, and signs the
//! epoch material under the persistent signing identity.  The sealed
//! sequence number is the sole rollback defense: a restarted store that
//! finds its in-memory map empty consults the ledger, so a sequence number
//! can never be reissued or rewound.

use vstd::prelude::*;

verus! {

use crate::crypto::{keccak256, sign_recoverable, random_bytes32, sig_of, key_ok};
use crate::byteutil::copy_vec;
use crate::errors::EpochError;
use crate::keeper_types::{InputWorkerParams, encode_epoch_material, epoch_digest,
    invalid_snapshot, params_eq, spec_selected_worker};
use crate::uint256::{be_nat, pow256, Uint256};

/// One epoch as the store keeps it: its sequence number, its seed, and the
/// worker/stake snapshot it was minted over.
#[derive(Debug)]
pub struct Epoch {
    pub nonce: Uint256,
    pub seed: Uint256,
    pub worker_params: InputWorkerParams,
}

impl Epoch {
    /// Runs the worker selection of this epoch for one secret-contract
    /// address.
    pub fn get_selected_worker(&self, sc_addr: &[u8; 32]) -> (r: Result<
        Option<[u8; 20]>,
        EpochError,
    >)
        ensures
            r is Err <==> invalid_snapshot(self.worker_params),
            r is Err ==> r == Err::<Option<[u8; 20]>, EpochError>(EpochError::InvalidWorkerSet),
            !invalid_snapshot(self.worker_params) ==> r == Ok::<Option<[u8; 20]>, EpochError>(
                spec_selected_worker(
                    self.seed@,
                    sc_addr@,
                    self.worker_params.workers@,
                    self.worker_params.stakes@,
                ),
            ),
    {
        self.worker_params.get_selected_worker(sc_addr, &self.seed)
    }
}

/// The version tag of the sealed ledger document.
pub const LEDGER_VERSION: u32 = 0x1234;

/// The version tag `LEDGER_VERSION` as it stands in the document,
/// big-endian.
pub open spec fn ledger_version_bytes() -> Seq<u8> {
    seq![0u8, 0u8, 0x12u8, 0x34u8]
}

/// The sealed ledger document for a sequence number: the version tag
/// followed by the number's 32 big-endian bytes.
pub open spec fn encode_ledger(nonce: Uint256) -> Seq<u8> {
    ledger_version_bytes() + nonce@
}

/// Reads a ledger document back: the recorded sequence number, or nothing
/// when the document fails its length or version check.
pub open spec fn parse_ledger(bytes: Seq<u8>) -> Option<nat> {
    if bytes.len() == 36 && bytes.take(4) == ledger_version_bytes() {
        Some(be_nat(bytes.skip(4)))
    } else {
        None
    }
}

/// A document written for a sequence number reads back as that number.
pub proof fn lemma_ledger_round_trip(nonce: Uint256)
    ensures
        parse_ledger(encode_ledger(nonce)) == Some(nonce.as_nat()),
{
    let b = encode_ledger(nonce);
    assert(b.take(4) =~= ledger_version_bytes());
    assert(b.skip(4) =~= nonce@);
}

/// The sealed nonce ledger: the durable, tamper-evident record of the
/// highest sequence number ever issued.  The store holds the document
/// bytes; sealing them to the enclave identity and putting them on disk is
/// the embedding program's part.
#[derive(Debug)]
pub struct NonceLedger {
    record: Option<Vec<u8>>,
}

impl NonceLedger {
    /// The durable document, if one was ever written.
    pub closed spec fn spec_record(self) -> Option<Seq<u8>> {
        match self.record {
            Some(v) => Some(v@),
            None => None,
        }
    }

    /// A ledger with no record: no epoch was ever minted.
    pub fn new() -> (r: Self)
        ensures
            r.spec_record() is None,
    {
        NonceLedger { record: None }
    }

    /// A ledger restored from a persisted document.
    pub fn from_bytes(bytes: Vec<u8>) -> (r: Self)
        ensures
            r.spec_record() == Some(bytes@),
    {
        NonceLedger { record: Some(bytes) }
    }

    /// The document to persist, if one was written.
    pub fn to_bytes(&self) -> (r: Option<Vec<u8>>)
        ensures
            r is Some <==> self.spec_record() is Some,
            r matches Some(v) ==> self.spec_record() == Some(v@),
    {
        match &self.record {
            Some(v) => Some(copy_vec(v)),
            None => None,
        }
    }

    /// Durably records `nonce`, replacing any prior record.
    pub fn store(&mut self, nonce: &Uint256)
        ensures
            final(self).spec_record() == Some(encode_ledger(*nonce)),
    {
        let mut v: Vec<u8> = Vec::new();
        v.push(0);
        v.push(0);
        v.push(0x12);
        v.push(0x34);
        let nb = nonce.to_be_bytes();
        let mut i: usize = 0;
        while i < 32
            invariant
                0 <= i <= 32,
                nb@.len() == 32,
                nb@ == nonce@,
                v@ == ledger_version_bytes() + nb@.take(i as int),
            decreases 32 - i,
        {
            v.push(nb[i]);
            proof {
                assert(v@ =~= ledger_version_bytes() + nb@.take(i + 1));
            }
            i = i + 1;
        }
        proof {
            assert(nb@.take(32) =~= nonce@);
        }
        self.record = Some(v);
    }

    /// The last durably recorded sequence number, nothing when no record
    /// exists, and `StorageCorrupt` when a record exists but fails its
    /// integrity check — never silently "no prior epoch".
    pub fn load(&self) -> (r: Result<Option<Uint256>, EpochError>)
        ensures
            self.spec_record() is None ==> r == Ok::<Option<Uint256>, EpochError>(None),
            self.spec_record() matches Some(b) ==> match parse_ledger(b) {
                Some(n) => r matches Ok(o) && o matches Some(u) && u.as_nat() == n,
                None => r == Err::<Option<Uint256>, EpochError>(EpochError::StorageCorrupt),
            },
    {
        let rec = match &self.record {
            None => {
                return Ok(None);
            },
            Some(v) => v,
        };
        if rec.len() != 36 {
            return Err(EpochError::StorageCorrupt);
        }
        if rec[0] != 0 || rec[1] != 0 || rec[2] != 0x12 || rec[3] != 0x34 {
            proof {
                assert(rec@.take(4)[0] == rec@[0]);
                assert(rec@.take(4)[1] == rec@[1]);
                assert(rec@.take(4)[2] == rec@[2]);
                assert(rec@.take(4)[3] == rec@[3]);
                assert(rec@.take(4) != ledger_version_bytes());
            }
            return Err(EpochError::StorageCorrupt);
        }
        proof {
            assert(rec@.take(4) =~= ledger_version_bytes());
        }
        let mut nb = [0u8; 32];
        let mut i: usize = 0;
        while i < 32
            invariant
                0 <= i <= 32,
                rec@.len() == 36,
                nb@.len() == 32,
                forall|j: int| 0 <= j < i ==> nb@[j] == rec@[4 + j],
            decreases 32 - i,
        {
            nb[i] = rec[4 + i];
            i = i + 1;
        }
        proof {
            assert(nb@ =~= rec@.skip(4));
        }
        Ok(Some(Uint256::from_be_bytes(nb)))
    }
}

/// The raw outputs of one boundary call: the (fresh or echoed) seed, the
/// sequence number, and the recoverable signature over the epoch material.
#[derive(Debug)]
pub struct EpochOutputs {
    pub seed: Uint256,
    pub nonce: Uint256,
    pub sig: [u8; 65],
}

/// Sequence numbers of consecutively minted epochs: each is one more than
/// the one before it.
pub open spec fn nonces_consecutive(epochs: Seq<Epoch>) -> bool {
    forall|i: int|
        1 <= i < epochs.len() ==> (#[trigger] epochs[i]).nonce.as_nat() == epochs[
            i - 1
        ].nonce.as_nat() + 1
}

/// In a consecutive run, the nonce at `j` exceeds the nonce at `i` by
/// exactly their distance.
pub proof fn lemma_consecutive_nonces(epochs: Seq<Epoch>, i: int, j: int)
    requires
        nonces_consecutive(epochs),
        0 <= i <= j < epochs.len(),
    ensures
        epochs[j].nonce.as_nat() == epochs[i].nonce.as_nat() + (j - i),
    decreases j - i,
{
    if i < j {
        lemma_consecutive_nonces(epochs, i, j - 1);
    }
}

/// The secure epoch store: the single-writer owner of all epoch state.
/// Exclusive access is what `&mut self` grants; a program with several
/// threads serializes its calls through one lock around the store.
#[derive(Debug)]
pub struct EpochStore {
    epochs: Vec<Epoch>,
    ledger: NonceLedger,
    signing_key: [u8; 32],
}

impl EpochStore {
    /// The epochs minted so far, in mint order.
    pub closed spec fn spec_epochs(self) -> Seq<Epoch> {
        self.epochs@
    }

    /// The sealed nonce ledger's document.
    pub closed spec fn spec_ledger(self) -> Option<Seq<u8>> {
        self.ledger.spec_record()
    }

    /// The persistent signing identity.
    pub closed spec fn spec_key(self) -> Seq<u8> {
        self.signing_key@
    }

    /// The store's invariant: nonces in the in-memory map are consecutive,
    /// so the most recent epoch carries the maximum sequence number.
    pub open spec fn wf(self) -> bool {
        nonces_consecutive(self.spec_epochs())
    }

    /// The sequence number the next mint returns: one past the most recent
    /// epoch; after a restart, one past the sealed record; zero when
    /// neither exists.
    pub open spec fn next_nonce(self) -> nat {
        if self.spec_epochs().len() > 0 {
            self.spec_epochs().last().nonce.as_nat() + 1
        } else {
            match self.spec_ledger() {
                None => 0,
                Some(b) => match parse_ledger(b) {
                    Some(n) => n + 1,
                    None => 0,
                },
            }
        }
    }

    /// The ledger holds a record that fails its integrity check.
    pub open spec fn ledger_corrupt(self) -> bool {
        self.spec_ledger() matches Some(b) && parse_ledger(b) is None
    }

    /// A store no epoch was ever minted from: empty map, empty ledger.
    pub open spec fn fresh(self) -> bool {
        self.spec_epochs().len() == 0 && self.spec_ledger() is None
    }

    /// A store owning the given ledger and signing identity, with an empty
    /// in-memory map — the state right after process start.
    pub fn new(ledger: NonceLedger, signing_key: [u8; 32]) -> (r: Self)
        ensures
            r.spec_epochs().len() == 0,
            r.spec_ledger() == ledger.spec_record(),
            r.spec_key() == signing_key@,
            r.wf(),
    {
        EpochStore { epochs: Vec::new(), ledger, signing_key }
    }

    /// Releases the sealed nonce ledger, discarding the in-memory map —
    /// what survives a shutdown.
    pub fn into_ledger(self) -> (r: NonceLedger)
        ensures
            r.spec_record() == self.spec_ledger(),
    {
        self.ledger
    }

    /// The sealed ledger document to persist, if one was ever written —
    /// the embedding program writes it out right after each successful
    /// mint, before the minted epoch is put to use.
    pub fn ledger_document(&self) -> (r: Option<Vec<u8>>)
        ensures
            r is Some <==> self.spec_ledger() is Some,
            r matches Some(v) ==> self.spec_ledger() == Some(v@),
    {
        self.ledger.to_bytes()
    }

    /// The current epoch: the one with the maximum sequence number, or
    /// nothing when no epoch is in memory — the sealed ledger records only
    /// the sequence number, not the epoch itself.  A ledger record that
    /// fails its integrity check is `StorageCorrupt`, never a silent "no
    /// prior epoch".  Lookup by a historical block number is not
    /// implemented and is rejected as `Unsupported`.
    pub fn get_epoch(&self, block_number: Option<&Uint256>) -> (r: Result<Option<&Epoch>, EpochError>)
        requires
            self.wf(),
        ensures
            r == Err::<Option<&Epoch>, EpochError>(EpochError::Unsupported) <==> block_number
                is Some,
            block_number is None ==> (r == Err::<Option<&Epoch>, EpochError>(
                EpochError::StorageCorrupt,
            ) <==> (self.spec_epochs().len() == 0 && self.ledger_corrupt())),
            block_number is None && self.spec_epochs().len() == 0 && !self.ledger_corrupt() ==> (
            r matches Ok(o) && o is None),
            block_number is None && self.spec_epochs().len() > 0 ==> (r matches Ok(o) && o matches
                Some(e) && *e == self.spec_epochs().last() && (forall|i: int|
                0 <= i < self.spec_epochs().len() ==> (#[trigger] self.spec_epochs()[
                    i
                ]).nonce.as_nat() <= self.spec_epochs().last().nonce.as_nat())),
    {
        if block_number.is_some() {
            return Err(EpochError::Unsupported);
        }
        if self.epochs.len() == 0 {
            return match self.ledger.load() {
                Err(e) => Err(e),
                Ok(_) => Ok(None),
            };
        }
        proof {
            assert forall|i: int| 0 <= i < self.spec_epochs().len() implies (
            #[trigger] self.spec_epochs()[i]).nonce.as_nat()
                <= self.spec_epochs().last().nonce.as_nat() by {
                lemma_consecutive_nonces(
                    self.spec_epochs(),
                    i,
                    self.spec_epochs().len() - 1,
                );
            }
        }
        Ok(Some(&self.epochs[self.epochs.len() - 1]))
    }

    /// Seals the new sequence number, then makes the new epoch current:
    /// the ledger write happens before the in-memory insertion, so a crash
    /// between the two can never expose an unrecorded sequence number.
    fn new_epoch(&mut self, worker_params: &InputWorkerParams, nonce: Uint256, seed: Uint256)
        ensures
            final(self).spec_epochs().len() == old(self).spec_epochs().len() + 1,
            final(self).spec_epochs().take(old(self).spec_epochs().len() as int) == old(
                self,
            ).spec_epochs(),
            final(self).spec_epochs().last().nonce == nonce,
            final(self).spec_epochs().last().seed == seed,
            params_eq(final(self).spec_epochs().last().worker_params, *worker_params),
            final(self).spec_ledger() == Some(encode_ledger(nonce)),
            final(self).spec_key() == old(self).spec_key(),
    {
        self.ledger.store(&nonce);
        let epoch = Epoch { nonce, seed, worker_params: worker_params.duplicate() };
        self.epochs.push(epoch);
        proof {
            assert(self.epochs@.take(self.epochs@.len() - 1) =~= old(self).spec_epochs());
        }
    }

    /// Mints a new epoch, or re-attests a prior one.
    ///
    /// With `prior` given as the prior epoch's seed and sequence number,
    /// nothing is generated and no state changes: the store re-signs that
    /// epoch's material over the given snapshot, and the caller compares.
    ///
    /// With no `prior`, the store draws a fresh seed, seals the next
    /// sequence number before the epoch becomes visible, and signs the
    /// epoch material.  A random-source or signing failure surfaces as
    /// `EnclaveOperationFailed` with the store unchanged; a ledger record
    /// that fails its integrity check surfaces as `StorageCorrupt`.
    pub fn set_worker_params(
        &mut self,
        worker_params: &InputWorkerParams,
        prior: Option<(Uint256, Uint256)>,
    ) -> (r: Result<EpochOutputs, EpochError>)
        requires
            old(self).wf(),
            prior is None ==> old(self).next_nonce() < pow256(32),
        ensures
            final(self).wf(),
            r is Err ==> *final(self) == *old(self),
            prior matches Some((s, nn)) ==> *final(self) == *old(self) && (match r {
                Ok(out) => out.seed == s && out.nonce == nn && out.sig@ == sig_of(
                    old(self).spec_key(),
                    epoch_digest(s, nn, *worker_params),
                ),
                Err(e) => e == EpochError::EnclaveOperationFailed,
            }),
            prior is Some ==> (r is Ok <==> key_ok(old(self).spec_key())),
            prior is None && !key_ok(old(self).spec_key()) ==> r is Err,
            prior is None ==> (match r {
                Ok(out) => {
                    &&& out.nonce.as_nat() == old(self).next_nonce()
                    &&& out.sig@ == sig_of(
                        old(self).spec_key(),
                        epoch_digest(out.seed, out.nonce, *worker_params),
                    )
                    &&& final(self).spec_epochs().len() == old(self).spec_epochs().len() + 1
                    &&& final(self).spec_epochs().take(old(self).spec_epochs().len() as int)
                        == old(self).spec_epochs()
                    &&& final(self).spec_epochs().last().nonce == out.nonce
                    &&& final(self).spec_epochs().last().seed == out.seed
                    &&& params_eq(final(self).spec_epochs().last().worker_params, *worker_params)
                    &&& final(self).spec_ledger() == Some(encode_ledger(out.nonce))
                    &&& final(self).spec_key() == old(self).spec_key()
                    &&& mint_step(*old(self), *final(self), out.nonce.as_nat())
                },
                Err(e) => {
                    &&& (old(self).spec_epochs().len() == 0 && old(self).ledger_corrupt()) <==> e
                        == EpochError::StorageCorrupt
                    &&& (e == EpochError::StorageCorrupt || e
                        == EpochError::EnclaveOperationFailed)
                },
            }),
    {
        if let Some((seed_in, nonce_in)) = prior {
            let material = encode_epoch_material(&seed_in, &nonce_in, worker_params);
            let digest = keccak256(material.as_slice());
            return match sign_recoverable(&self.signing_key, &digest) {
                Some(sig) => Ok(EpochOutputs { seed: seed_in, nonce: nonce_in, sig }),
                None => Err(EpochError::EnclaveOperationFailed),
            };
        }
        let nonce: Uint256 = if self.epochs.len() > 0 {
            self.epochs[self.epochs.len() - 1].nonce.succ()
        } else {
            match self.ledger.load() {
                Err(e) => {
                    return Err(e);
                },
                Ok(None) => Uint256::zero(),
                Ok(Some(prev)) => prev.succ(),
            }
        };
        let rand = match random_bytes32() {
            Some(b) => b,
            None => {
                return Err(EpochError::EnclaveOperationFailed);
            },
        };
        let seed = Uint256::from_be_bytes(rand);
        let material = encode_epoch_material(&seed, &nonce, worker_params);
        let digest = keccak256(material.as_slice());
        let sig = match sign_recoverable(&self.signing_key, &digest) {
            Some(s) => s,
            None => {
                return Err(EpochError::EnclaveOperationFailed);
            },
        };
        self.new_epoch(worker_params, nonce, seed);
        proof {
            lemma_ledger_round_trip(nonce);
            assert(self.spec_epochs()[self.spec_epochs().len() - 1]
                == self.spec_epochs().last());
            assert forall|i: int| 1 <= i < self.spec_epochs().len() implies (
            #[trigger] self.spec_epochs()[i]).nonce.as_nat() == self.spec_epochs()[
                i - 1
            ].nonce.as_nat() + 1 by {
                if i < self.spec_epochs().len() - 1 {
                    assert(self.spec_epochs().take(old(self).spec_epochs().len() as int)[i]
                        == self.spec_epochs()[i]);
                    assert(self.spec_epochs().take(old(self).spec_epochs().len() as int)[i - 1]
                        == self.spec_epochs()[i - 1]);
                } else {
                    if old(self).spec_epochs().len() > 0 {
                        assert(self.spec_epochs().take(old(self).spec_epochs().len() as int)[i - 1]
                            == self.spec_epochs()[i - 1]);
                        assert(self.spec_epochs()[i - 1] == old(self).spec_epochs().last());
                    }
                }
            }
        }
        Ok(EpochOutputs { seed, nonce, sig })
    }

    /// The worker the current epoch selects for a secret-contract address:
    /// nothing only when the epoch's worker set is empty.  A store holding
    /// no epoch fails with `EpochNotFound`, and a corrupt ledger record
    /// with `StorageCorrupt`.
    pub fn get_epoch_worker(&self, sc_addr: &[u8; 32], block_number: Option<&Uint256>) -> (r:
        Result<Option<[u8; 20]>, EpochError>)
        requires
            self.wf(),
        ensures
            block_number is Some <==> r == Err::<Option<[u8; 20]>, EpochError>(
                EpochError::Unsupported,
            ),
            block_number is None ==> (r == Err::<Option<[u8; 20]>, EpochError>(
                EpochError::StorageCorrupt,
            ) <==> (self.spec_epochs().len() == 0 && self.ledger_corrupt())),
            block_number is None && self.spec_epochs().len() == 0 && !self.ledger_corrupt() ==> r
                == Err::<Option<[u8; 20]>, EpochError>(EpochError::EpochNotFound),
            block_number is None && self.spec_epochs().len() > 0 ==> ({
                let e = self.spec_epochs().last();
                &&& (r is Err <==> invalid_snapshot(e.worker_params))
                &&& r is Err ==> r == Err::<Option<[u8; 20]>, EpochError>(
                    EpochError::InvalidWorkerSet,
                )
                &&& !invalid_snapshot(e.worker_params) ==> r == Ok::<Option<[u8; 20]>, EpochError>(
                    spec_selected_worker(
                        e.seed@,
                        sc_addr@,
                        e.worker_params.workers@,
                        e.worker_params.stakes@,
                    ),
                )
            }),
    {
        let epoch = match self.get_epoch(block_number) {
            Err(e) => {
                return Err(e);
            },
            Ok(None) => {
                return Err(EpochError::EpochNotFound);
            },
            Ok(Some(epoch)) => epoch,
        };
        epoch.get_selected_worker(sc_addr)
    }
}

/// One successful mint, as the outside world can observe it: the returned
/// sequence number is the store's next, the new epoch carrying it is now
/// the most recent, and the sealed ledger records it.
pub open spec fn mint_step(pre: EpochStore, post: EpochStore, n: nat) -> bool {
    &&& n == pre.next_nonce()
    &&& post.spec_epochs().len() == pre.spec_epochs().len() + 1
    &&& post.spec_epochs().last().nonce.as_nat() == n
    &&& post.spec_ledger() matches Some(b) && parse_ledger(b) == Some(n)
    &&& post.spec_key() == pre.spec_key()
}

/// A restart: the in-memory map is gone, the sealed ledger survives —
/// what `into_ledger` followed by `new` under the same signing identity
/// establishes.
pub open spec fn restart_step(pre: EpochStore, post: EpochStore) -> bool {
    &&& post.spec_epochs().len() == 0
    &&& post.spec_ledger() == pre.spec_ledger()
    &&& post.spec_key() == pre.spec_key()
}

/// Along a chain of mints from a fresh store, the store before mint `k`
/// is about to issue sequence number `k`.
proof fn lemma_mint_chain_next(stores: Seq<EpochStore>, nonces: Seq<nat>, k: int)
    requires
        stores.len() == nonces.len() + 1,
        stores[0].fresh(),
        forall|i: int| 0 <= i < nonces.len() ==> #[trigger] mint_step(
            stores[i],
            stores[i + 1],
            nonces[i],
        ),
        0 <= k <= nonces.len(),
    ensures
        stores[k].next_nonce() == k,
    decreases k,
{
    if k > 0 {
        lemma_mint_chain_next(stores, nonces, k - 1);
        let j = k - 1;
        assert(mint_step(stores[j], stores[j + 1], nonces[j]));
        assert(stores[j + 1] == stores[k]);
    }
}

/// Monotonicity: any sequence of mints against a fresh store returns the
/// sequence numbers 0, 1, 2, … in call order, gap-free.
pub proof fn lemma_mint_monotonicity(stores: Seq<EpochStore>, nonces: Seq<nat>)
    requires
        stores.len() == nonces.len() + 1,
        stores[0].fresh(),
        forall|i: int| 0 <= i < nonces.len() ==> #[trigger] mint_step(
            stores[i],
            stores[i + 1],
            nonces[i],
        ),
    ensures
        forall|i: int| 0 <= i < nonces.len() ==> nonces[i] == i,
{
    assert forall|i: int| 0 <= i < nonces.len() implies nonces[i] == i by {
        lemma_mint_chain_next(stores, nonces, i);
        assert(mint_step(stores[i], stores[i + 1], nonces[i]));
    }
}

/// Rollback resistance: after minting sequence numbers 0 and 1, a restart
/// that discards the in-memory map but keeps the sealed nonce ledger mints
/// 2 — never 0 or 1 again.
pub proof fn lemma_rollback_resistance(
    s0: EpochStore,
    s1: EpochStore,
    s2: EpochStore,
    s3: EpochStore,
    s4: EpochStore,
    n0: nat,
    n1: nat,
    n2: nat,
)
    requires
        s0.fresh(),
        mint_step(s0, s1, n0),
        mint_step(s1, s2, n1),
        restart_step(s2, s3),
        mint_step(s3, s4, n2),
    ensures
        n0 == 0,
        n1 == 1,
        n2 == 2,
{
    assert(s1.spec_epochs().len() > 0);
    assert(s2.spec_epochs().len() > 0);
}

} // verus!
