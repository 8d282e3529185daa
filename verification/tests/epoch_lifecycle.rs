//! The epoch lifecycle end to end: monotonic sequence numbers, rollback
//! resistance across a restart, re-verification, confirmation, and the
//! worker-assignment queries.

use epochs::coordinator::set_or_verify_worker_params;
use epochs::epoch_keeper::{EpochStore, NonceLedger};
use epochs::epoch_types::SignedEpoch;
use epochs::errors::EpochError;
use epochs::keeper_types::InputWorkerParams;
use epochs::uint256::Uint256;

const KEY: [u8; 32] = [7u8; 32];

fn params_two_workers() -> InputWorkerParams {
    InputWorkerParams {
        km_block_number: Uint256::from_u64(42),
        workers: vec![[0xaa; 20], [0xbb; 20]],
        stakes: vec![50, 50],
    }
}

#[test]
fn mint_sequence_is_monotonic() {
    let mut store = EpochStore::new(NonceLedger::new(), KEY);
    let params = params_two_workers();
    for i in 0..5u64 {
        let e = set_or_verify_worker_params(&mut store, &params, None).unwrap();
        assert!(e.get_nonce() == Uint256::from_u64(i));
    }
}

#[test]
fn restart_cannot_rewind_the_sequence() {
    let mut store = EpochStore::new(NonceLedger::new(), KEY);
    let params = params_two_workers();
    let e0 = set_or_verify_worker_params(&mut store, &params, None).unwrap();
    let e1 = set_or_verify_worker_params(&mut store, &params, None).unwrap();
    assert!(e0.get_nonce() == Uint256::from_u64(0));
    assert!(e1.get_nonce() == Uint256::from_u64(1));
    // A restart keeps the sealed nonce ledger and loses the in-memory map.
    let ledger = store.into_ledger();
    let mut store2 = EpochStore::new(ledger, KEY);
    let e2 = set_or_verify_worker_params(&mut store2, &params, None).unwrap();
    assert!(e2.get_nonce() == Uint256::from_u64(2));
}

#[test]
fn ledger_survives_serialization() {
    let mut store = EpochStore::new(NonceLedger::new(), KEY);
    let params = params_two_workers();
    let _ = set_or_verify_worker_params(&mut store, &params, None).unwrap();
    let e1 = set_or_verify_worker_params(&mut store, &params, None).unwrap();
    assert!(e1.get_nonce() == Uint256::from_u64(1));
    // Persist the ledger document and restore it, as the host would do
    // around a process restart.
    let bytes = store.into_ledger().to_bytes().unwrap();
    let mut store2 = EpochStore::new(NonceLedger::from_bytes(bytes), KEY);
    let e2 = set_or_verify_worker_params(&mut store2, &params, None).unwrap();
    assert!(e2.get_nonce() == Uint256::from_u64(2));
}

#[test]
fn corrupt_ledger_is_refused() {
    let ledger = NonceLedger::from_bytes(vec![1, 2, 3]);
    let mut store = EpochStore::new(ledger, KEY);
    let params = params_two_workers();
    let err = set_or_verify_worker_params(&mut store, &params, None).unwrap_err();
    assert_eq!(err, EpochError::StorageCorrupt);
}

#[test]
fn reverification_returns_the_epoch_unchanged() {
    let mut store = EpochStore::new(NonceLedger::new(), KEY);
    let params = params_two_workers();
    let e = set_or_verify_worker_params(&mut store, &params, None).unwrap();
    let seed = e.get_seed();
    let nonce = e.get_nonce();
    let sig = e.get_sig();
    let km_block = e.get_km_block_num();
    let e2 = set_or_verify_worker_params(&mut store, &params, Some(e)).unwrap();
    assert!(e2.get_seed() == seed);
    assert!(e2.get_nonce() == nonce);
    assert_eq!(e2.get_sig(), sig);
    assert!(e2.get_km_block_num() == km_block);
}

#[test]
fn reverification_rejects_a_tampered_signature() {
    let mut store = EpochStore::new(NonceLedger::new(), KEY);
    let params = params_two_workers();
    let e = set_or_verify_worker_params(&mut store, &params, None).unwrap();
    let mut sig = e.get_sig();
    sig[0] ^= 0x01;
    let forged = SignedEpoch::new(e.get_seed(), sig, e.get_nonce(), e.get_km_block_num());
    let err = set_or_verify_worker_params(&mut store, &params, Some(forged)).unwrap_err();
    assert_eq!(err, EpochError::EnclaveOperationFailed);
}

#[test]
fn reverification_rejects_a_changed_snapshot() {
    let mut store = EpochStore::new(NonceLedger::new(), KEY);
    let params = params_two_workers();
    let e = set_or_verify_worker_params(&mut store, &params, None).unwrap();
    // The signature binds the snapshot: other stakes cannot re-verify.
    let other = InputWorkerParams {
        km_block_number: Uint256::from_u64(42),
        workers: vec![[0xaa; 20], [0xbb; 20]],
        stakes: vec![50, 51],
    };
    let err = set_or_verify_worker_params(&mut store, &other, Some(e)).unwrap_err();
    assert_eq!(err, EpochError::EnclaveOperationFailed);
}

#[test]
fn lookup_by_block_number_is_unsupported() {
    let mut store = EpochStore::new(NonceLedger::new(), KEY);
    let params = params_two_workers();
    let _ = set_or_verify_worker_params(&mut store, &params, None).unwrap();
    let block = Uint256::from_u64(3);
    let err = store.get_epoch(Some(&block)).unwrap_err();
    assert_eq!(err, EpochError::Unsupported);
    assert!(store.get_epoch(None).unwrap().is_some());
}

#[test]
fn confirm_then_query_partitions_the_addresses() {
    let mut store = EpochStore::new(NonceLedger::new(), KEY);
    let params = params_two_workers();
    let mut e = set_or_verify_worker_params(&mut store, &params, None).unwrap();
    let c1 = [0x01u8; 32];
    let c2 = [0x02u8; 32];
    e.confirm(Uint256::from_u64(43), &params, vec![c1, c2]).unwrap();
    let wa: [u8; 20] = [0xaa; 20];
    let wb: [u8; 20] = [0xbb; 20];
    let for_a = e.get_contract_addresses(&wa).unwrap();
    let for_b = e.get_contract_addresses(&wb).unwrap();
    // Every address goes to exactly one of the two workers.
    assert_eq!(for_a.len() + for_b.len(), 2);
    for c in [c1, c2] {
        let in_a = for_a.contains(&c);
        let in_b = for_b.contains(&c);
        assert!(in_a != in_b);
    }
}

#[test]
fn unconfirmed_query_fails() {
    let mut store = EpochStore::new(NonceLedger::new(), KEY);
    let params = params_two_workers();
    let e = set_or_verify_worker_params(&mut store, &params, None).unwrap();
    let wa: [u8; 20] = [0xaa; 20];
    let err = e.get_contract_addresses(&wa).unwrap_err();
    assert_eq!(err, EpochError::UnconfirmedState);
}

#[test]
fn confirm_rejects_a_zero_stake_snapshot() {
    let mut store = EpochStore::new(NonceLedger::new(), KEY);
    let params = params_two_workers();
    let mut e = set_or_verify_worker_params(&mut store, &params, None).unwrap();
    let zeroed = InputWorkerParams {
        km_block_number: Uint256::from_u64(42),
        workers: vec![[0xaa; 20], [0xbb; 20]],
        stakes: vec![0, 0],
    };
    let err = e.confirm(Uint256::from_u64(43), &zeroed, vec![[0x01; 32]]).unwrap_err();
    assert_eq!(err, EpochError::InvalidWorkerSet);
    assert!(e.confirmed_state.is_none());
}
