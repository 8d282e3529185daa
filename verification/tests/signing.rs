//! The epoch signature: externally verifiable against the signing
//! identity, over the canonical epoch material.

use epochs::coordinator::set_or_verify_worker_params;
use epochs::epoch_keeper::{EpochStore, NonceLedger};
use epochs::keeper_types::{encode_epoch_material, InputWorkerParams};
use epochs::uint256::Uint256;
use tiny_keccak::Hasher;

const KEY: [u8; 32] = [
    0x11, 0x22, 0x33, 0x44, 0x55, 0x66, 0x77, 0x88, 0x99, 0xaa, 0xbb, 0xcc, 0xdd, 0xee, 0xff,
    0x01, 0x02, 0x03, 0x04, 0x05, 0x06, 0x07, 0x08, 0x09, 0x0a, 0x0b, 0x0c, 0x0d, 0x0e, 0x0f,
    0x10, 0x20,
];

#[test]
fn signature_recovers_to_the_signing_identity() {
    let mut store = EpochStore::new(NonceLedger::new(), KEY);
    let params = InputWorkerParams {
        km_block_number: Uint256::from_u64(9),
        workers: vec![[0x01; 20], [0x02; 20]],
        stakes: vec![30, 70],
    };
    let e = set_or_verify_worker_params(&mut store, &params, None).unwrap();

    // Recompute the digest the enclave signed: Keccak-256 of the canonical
    // epoch material.
    let material = encode_epoch_material(&e.get_seed(), &e.get_nonce(), &params);
    let mut k = tiny_keccak::Keccak::v256();
    k.update(&material);
    let mut digest = [0u8; 32];
    k.finalize(&mut digest);

    // The 65-byte signature must recover to the public key of the store's
    // signing identity.
    let sig = e.get_sig();
    assert_eq!(sig.len(), 65);
    let mut sig64 = [0u8; 64];
    sig64.copy_from_slice(&sig[..64]);
    let signature = libsecp256k1::Signature::parse_standard(&sig64).unwrap();
    let rec_id = libsecp256k1::RecoveryId::parse(sig[64]).unwrap();
    let msg = libsecp256k1::Message::parse(&digest);
    let recovered = libsecp256k1::recover(&msg, &signature, &rec_id).unwrap();

    let seckey = libsecp256k1::SecretKey::parse(&KEY).unwrap();
    let expected = libsecp256k1::PublicKey::from_secret_key(&seckey);
    assert_eq!(recovered.serialize().to_vec(), expected.serialize().to_vec());
}

#[test]
fn signatures_differ_across_epochs() {
    let mut store = EpochStore::new(NonceLedger::new(), KEY);
    let params = InputWorkerParams {
        km_block_number: Uint256::from_u64(9),
        workers: vec![[0x01; 20]],
        stakes: vec![5],
    };
    let e0 = set_or_verify_worker_params(&mut store, &params, None).unwrap();
    let e1 = set_or_verify_worker_params(&mut store, &params, None).unwrap();
    // Different sequence numbers sign different material.
    assert_ne!(e0.get_sig(), e1.get_sig());
}
