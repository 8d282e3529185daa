//! The canonical encodings: 256-bit integers, the hexadecimal spelling,
//! and the RLP wire format, cross-checked against an independent encoder.

use epochs::epoch_keeper::NonceLedger;
use epochs::hexutil::to_hex;
use epochs::keeper_types::{encode, InputWorkerParams};
use epochs::uint256::Uint256;

#[test]
fn from_u64_round_trips_through_bytes() {
    let v = Uint256::from_u64(0x0123_4567_89ab_cdef);
    let b = v.to_be_bytes();
    for i in 0..24 {
        assert_eq!(b[i], 0);
    }
    assert_eq!(&b[24..], &[0x01, 0x23, 0x45, 0x67, 0x89, 0xab, 0xcd, 0xef]);
    assert!(Uint256::from_be_bytes(b) == v);
}

#[test]
fn succ_carries_across_bytes() {
    assert!(Uint256::from_u64(0).succ() == Uint256::from_u64(1));
    assert!(Uint256::from_u64(255).succ() == Uint256::from_u64(256));
    assert!(Uint256::from_u64(0xffff).succ() == Uint256::from_u64(0x1_0000));
    // Carrying out of the low 64 bits.
    let max64 = Uint256::from_u64(u64::MAX);
    let mut expected = [0u8; 32];
    expected[23] = 1;
    assert!(max64.succ() == Uint256::from_be_bytes(expected));
}

#[test]
fn lt_orders_by_value() {
    let a = Uint256::from_u64(3);
    let b = Uint256::from_u64(300);
    assert!(a.lt(&b));
    assert!(!b.lt(&a));
    assert!(!a.lt(&a));
    let mut high = [0u8; 32];
    high[0] = 1;
    let h = Uint256::from_be_bytes(high);
    assert!(b.lt(&h));
}

#[test]
fn zero_is_zero() {
    assert!(Uint256::zero() == Uint256::from_u64(0));
}

#[test]
fn ledger_document_is_exact() {
    let mut ledger = NonceLedger::new();
    assert!(ledger.to_bytes().is_none());
    ledger.store(&Uint256::from_u64(5));
    let bytes = ledger.to_bytes().unwrap();
    let mut expected = vec![0u8, 0, 0x12, 0x34];
    expected.extend_from_slice(&[0u8; 31]);
    expected.push(5);
    assert_eq!(bytes, expected);
    let restored = NonceLedger::from_bytes(bytes);
    let loaded = restored.load().unwrap().unwrap();
    assert!(loaded == Uint256::from_u64(5));
}

#[test]
fn hex_spelling_is_exact() {
    assert_eq!(to_hex(&[]), "");
    assert_eq!(to_hex(&[0x00, 0x1f, 0xab]), "001fab");
    assert_eq!(to_hex(&[0xff]), "ff");
    assert_eq!(to_hex(&[0x09, 0x90]), "0990");
}

#[test]
fn empty_snapshot_encoding_is_exact() {
    let p = InputWorkerParams {
        km_block_number: Uint256::from_u64(0),
        workers: Vec::new(),
        stakes: Vec::new(),
    };
    // A list of: the integer 0 (empty string), an empty list, an empty list.
    assert_eq!(encode(&p), vec![0xc3, 0x80, 0xc0, 0xc0]);
}

#[test]
fn snapshot_encoding_matches_an_independent_encoder() {
    let addr1: [u8; 20] = [0x11; 20];
    let addr2: [u8; 20] = [
        0x00, 0x01, 0x02, 0x03, 0x04, 0x05, 0x06, 0x07, 0x08, 0x09, 0x0a, 0x0b, 0x0c, 0x0d,
        0x0e, 0x0f, 0x10, 0x11, 0x12, 0x13,
    ];
    let p = InputWorkerParams {
        km_block_number: Uint256::from_u64(123456),
        workers: vec![addr1, addr2],
        stakes: vec![5, 90000000000],
    };
    let mut stream = rlp::RlpStream::new_list(3);
    stream.append(&123456u64);
    stream.begin_list(2);
    stream.append(&addr1.to_vec());
    stream.append(&addr2.to_vec());
    stream.begin_list(2);
    stream.append(&5u64);
    stream.append(&90000000000u64);
    let expected: Vec<u8> = stream.out().to_vec();
    assert_eq!(encode(&p), expected);
}

#[test]
fn long_snapshot_encoding_matches_an_independent_encoder() {
    // Enough workers that the inner and outer lists need the long framing.
    let workers: Vec<[u8; 20]> = (0u8..10).map(|i| [i; 20]).collect();
    let stakes: Vec<u64> = (0u64..10).map(|i| 1000 + i).collect();
    let p = InputWorkerParams {
        km_block_number: Uint256::from_u64(1),
        workers: workers.clone(),
        stakes: stakes.clone(),
    };
    let mut stream = rlp::RlpStream::new_list(3);
    stream.append(&1u64);
    stream.begin_list(workers.len());
    for w in &workers {
        stream.append(&w.to_vec());
    }
    stream.begin_list(stakes.len());
    for s in &stakes {
        stream.append(s);
    }
    let expected: Vec<u8> = stream.out().to_vec();
    assert_eq!(encode(&p), expected);
}
