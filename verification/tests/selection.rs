//! The worker selection: determinism, stake weighting, rejection of
//! degenerate worker sets, and agreement with an independent computation
//! of the hash-onto-cumulative-stakes construction.

use epochs::keeper_types::InputWorkerParams;
use epochs::errors::EpochError;
use epochs::uint256::Uint256;
use tiny_keccak::Hasher;

fn params(workers: Vec<[u8; 20]>, stakes: Vec<u64>) -> InputWorkerParams {
    InputWorkerParams { km_block_number: Uint256::from_u64(1), workers, stakes }
}

/// The construction recomputed from scratch: Keccak-256 of seed then
/// address, first 16 digest bytes as a big-endian number, reduced modulo
/// the total stake, walked over the cumulative stakes.
fn independent_select(
    seed: &Uint256,
    sc_addr: &[u8; 32],
    workers: &[[u8; 20]],
    stakes: &[u64],
) -> Option<[u8; 20]> {
    if workers.is_empty() {
        return None;
    }
    let total: u128 = stakes.iter().map(|s| *s as u128).sum();
    let mut input = Vec::new();
    input.extend_from_slice(&seed.to_be_bytes());
    input.extend_from_slice(sc_addr);
    let mut k = tiny_keccak::Keccak::v256();
    k.update(&input);
    let mut h = [0u8; 32];
    k.finalize(&mut h);
    let mut acc: u128 = 0;
    for i in 0..16 {
        acc = acc * 256 + h[i] as u128;
    }
    let mut r = acc % total;
    for (i, st) in stakes.iter().enumerate() {
        if r < *st as u128 {
            return Some(workers[i]);
        }
        r -= *st as u128;
    }
    unreachable!()
}

#[test]
fn selection_is_deterministic() {
    let p = params(vec![[0x01; 20], [0x02; 20]], vec![10, 90]);
    let seed = Uint256::from_u64(12345);
    let addr = [0x55u8; 32];
    let first = p.get_selected_worker(&addr, &seed).unwrap();
    let second = p.get_selected_worker(&addr, &seed).unwrap();
    assert_eq!(first, second);
    assert!(first.is_some());
}

#[test]
fn selection_matches_the_independent_computation() {
    let workers = vec![[0x01; 20], [0x02; 20], [0x03; 20]];
    let stakes = vec![3u64, 0, 7];
    let p = params(workers.clone(), stakes.clone());
    for i in 0..50u64 {
        let seed = Uint256::from_u64(1_000_000 + i);
        let mut addr = [0u8; 32];
        addr[31] = i as u8;
        let got = p.get_selected_worker(&addr, &seed).unwrap();
        let expected = independent_select(&seed, &addr, &workers, &stakes);
        assert_eq!(got, expected);
        // A worker with zero stake is never selected.
        assert_ne!(got, Some([0x02; 20]));
    }
}

#[test]
fn selection_is_stake_weighted() {
    let w1 = [0x01u8; 20];
    let w2 = [0x02u8; 20];
    let p = params(vec![w1, w2], vec![10, 90]);
    let addr = [0x42u8; 32];
    let mut w2_count = 0u32;
    for i in 0..10_000u64 {
        let seed = Uint256::from_u64(i);
        match p.get_selected_worker(&addr, &seed).unwrap() {
            Some(w) if w == w2 => w2_count += 1,
            Some(_) => {},
            None => panic!("selection returned nothing for a non-empty set"),
        }
    }
    // Within plus or minus three percentage points of the 90% stake share.
    assert!(w2_count >= 8700, "w2 selected only {} times", w2_count);
    assert!(w2_count <= 9300, "w2 selected {} times", w2_count);
}

#[test]
fn selection_depends_on_the_address() {
    let workers: Vec<[u8; 20]> = (0u8..16).map(|i| [i; 20]).collect();
    let stakes = vec![1u64; 16];
    let p = params(workers, stakes);
    let seed = Uint256::from_u64(7);
    let mut distinct = std::collections::HashSet::new();
    for i in 0..64u8 {
        let mut addr = [0u8; 32];
        addr[0] = i;
        let w = p.get_selected_worker(&addr, &seed).unwrap().unwrap();
        distinct.insert(w);
    }
    assert!(distinct.len() > 1, "every address selected the same worker");
}

#[test]
fn zero_total_stake_is_rejected() {
    let p = params(vec![[0x01; 20], [0x02; 20]], vec![0, 0]);
    let seed = Uint256::from_u64(1);
    let err = p.get_selected_worker(&[0x11; 32], &seed).unwrap_err();
    assert_eq!(err, EpochError::InvalidWorkerSet);
}

#[test]
fn mismatched_snapshot_is_rejected() {
    let p = params(vec![[0x01; 20], [0x02; 20]], vec![5]);
    let seed = Uint256::from_u64(1);
    let err = p.get_selected_worker(&[0x11; 32], &seed).unwrap_err();
    assert_eq!(err, EpochError::InvalidWorkerSet);
}

#[test]
fn empty_worker_set_selects_nothing() {
    let p = params(Vec::new(), Vec::new());
    let seed = Uint256::from_u64(1);
    let r = p.get_selected_worker(&[0x11; 32], &seed).unwrap();
    assert!(r.is_none());
}

#[test]
fn single_worker_is_always_selected() {
    let w = [0x0au8; 20];
    let p = params(vec![w], vec![1]);
    for i in 0..32u64 {
        let seed = Uint256::from_u64(i * 977);
        let r = p.get_selected_worker(&[0x33; 32], &seed).unwrap();
        assert_eq!(r, Some(w));
    }
}
