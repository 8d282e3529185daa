//! The coordinator-level mint path: a mint returns an unconfirmed epoch.

use epochs::coordinator::set_or_verify_worker_params;
use epochs::epoch_keeper::{EpochStore, NonceLedger};
use epochs::keeper_types::InputWorkerParams;
use epochs::uint256::Uint256;

pub fn get_worker_params(
    km_block_number: u64,
    workers: Vec<[u8; 20]>,
    stakes: Vec<u64>,
) -> InputWorkerParams {
    InputWorkerParams { km_block_number: Uint256::from_u64(km_block_number), workers, stakes }
}

fn fresh_store() -> EpochStore {
    EpochStore::new(NonceLedger::new(), [7u8; 32])
}

#[test]
fn test_set_mock_worker_params() {
    let mut store = fresh_store();
    let workers: Vec<[u8; 20]> = vec![
        [156, 26, 193, 252, 165, 167, 191, 244, 251, 126, 53, 154, 158, 14, 64, 194, 164, 48, 231, 179],
    ];
    let stakes: Vec<u64> = vec![90000000000];
    let km_block_number = 1;
    let worker_params = get_worker_params(km_block_number, workers, stakes);
    let epoch_state = set_or_verify_worker_params(&mut store, &worker_params, None).unwrap();
    assert!(epoch_state.confirmed_state.is_none());
}

#[test]
fn test_set_mock_worker_params_above_cap() {
    let mut store = fresh_store();
    let workers: Vec<[u8; 20]> = vec![
        [156, 26, 193, 252, 165, 167, 191, 244, 251, 126, 53, 154, 158, 14, 64, 194, 164, 48, 231, 179],
    ];
    let stakes: Vec<u64> = vec![90000000000];
    let km_block_number = 1;
    let worker_params = get_worker_params(km_block_number, workers, stakes);
    for _ in 0..5 {
        let epoch_state = set_or_verify_worker_params(&mut store, &worker_params, None).unwrap();
        assert!(epoch_state.confirmed_state.is_none());
    }
}
