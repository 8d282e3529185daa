//! Worker lookup through an epoch held by the store.

use epochs::coordinator::set_or_verify_worker_params;
use epochs::epoch_keeper::{Epoch, EpochStore, NonceLedger};
use epochs::errors::EpochError;
use epochs::keeper_types::InputWorkerParams;
use epochs::uint256::Uint256;

fn addr(i: u8) -> [u8; 20] {
    let mut a = [0u8; 20];
    a[19] = i;
    a
}

#[test]
fn test_get_epoch_worker_internal() {
    let worker_params = InputWorkerParams {
        km_block_number: Uint256::from_u64(1),
        workers: vec![addr(0), addr(1), addr(2), addr(3)],
        stakes: vec![1, 1, 1, 1],
    };
    let epoch = Epoch {
        nonce: Uint256::from_u64(0),
        seed: Uint256::from_u64(1),
        worker_params,
    };
    let mut sc_addr = [0u8; 32];
    sc_addr[31] = 1;
    let worker = epoch.get_selected_worker(&sc_addr).unwrap();
    assert!(worker.is_some());
}

#[test]
fn store_resolves_the_current_epochs_worker() {
    let mut store = EpochStore::new(NonceLedger::new(), [9u8; 32]);
    let params = InputWorkerParams {
        km_block_number: Uint256::from_u64(5),
        workers: vec![addr(1), addr(2)],
        stakes: vec![40, 60],
    };
    // No epoch yet: nothing to resolve against, and that is an error of
    // its own, not an empty selection.
    let err = store.get_epoch_worker(&[0x01; 32], None).unwrap_err();
    assert_eq!(err, EpochError::EpochNotFound);
    let _ = set_or_verify_worker_params(&mut store, &params, None).unwrap();
    let w = store.get_epoch_worker(&[0x01; 32], None).unwrap();
    assert!(w == Some(addr(1)) || w == Some(addr(2)));
    let block = Uint256::from_u64(5);
    let err = store.get_epoch_worker(&[0x01; 32], Some(&block)).unwrap_err();
    assert_eq!(err, EpochError::Unsupported);
}

#[test]
fn lookup_on_a_corrupt_ledger_fails() {
    // A tampered sealed record must fail lookups, never read as "no
    // prior epoch".
    let store = EpochStore::new(NonceLedger::from_bytes(vec![9, 9, 9]), [9u8; 32]);
    let err = store.get_epoch(None).unwrap_err();
    assert_eq!(err, EpochError::StorageCorrupt);
    let err = store.get_epoch_worker(&[0x01; 32], None).unwrap_err();
    assert_eq!(err, EpochError::StorageCorrupt);
}

#[test]
fn empty_worker_set_is_no_selection_not_an_error() {
    let mut store = EpochStore::new(NonceLedger::new(), [9u8; 32]);
    let params = InputWorkerParams {
        km_block_number: Uint256::from_u64(5),
        workers: Vec::new(),
        stakes: Vec::new(),
    };
    let _ = set_or_verify_worker_params(&mut store, &params, None).unwrap();
    // An epoch exists; its worker set is empty, so nothing is selected.
    assert!(store.get_epoch_worker(&[0x01; 32], None).unwrap().is_none());
}
