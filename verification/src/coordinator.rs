//! The epoch coordinator: the façade callers outside the trust boundary
//! use to mint or re-attest epochs.
//!
//! A mint wraps the store's raw outputs into a [`SignedEpoch`].
//! Re-attestation hands a prior epoch's seed and sequence number back to
//! the store, which re-signs the material over the given snapshot; the
//! coordinator compares the signatures and returns the prior entity
//! unchanged exactly when the store agrees.

use vstd::prelude::*;

verus! {

use crate::byteutil::{bytes_eq_vec, bytes_to_vec};
use crate::crypto::{key_ok, sig_of};
use crate::epoch_keeper::{EpochStore, mint_step};
use crate::epoch_types::SignedEpoch;
use crate::errors::EpochError;
use crate::keeper_types::{InputWorkerParams, epoch_digest, params_eq};
use crate::uint256::pow256;

/// Mints a new epoch from the worker/stake snapshot, or re-verifies a
/// previously issued one.
///
/// With `epoch` given, the store re-attests it: on success the given
/// entity comes back unchanged — equal in seed, sequence number and
/// signature — and any signature the store cannot reproduce is rejected.
/// With no `epoch`, a fresh entity is built from the store's outputs,
/// carrying the snapshot's block number and no resolved assignment yet.
pub fn set_or_verify_worker_params(
    store: &mut EpochStore,
    worker_params: &InputWorkerParams,
    epoch: Option<SignedEpoch>,
) -> (r: Result<SignedEpoch, EpochError>)
    requires
        old(store).wf(),
        epoch is None ==> old(store).next_nonce() < pow256(32),
    ensures
        final(store).wf(),
        r is Err ==> *final(store) == *old(store),
        epoch matches Some(e) ==> *final(store) == *old(store) && (match r {
            Ok(out) => out == e && e.spec_sig() == sig_of(
                old(store).spec_key(),
                epoch_digest(e.spec_seed(), e.spec_nonce(), *worker_params),
            ),
            Err(err) => err == EpochError::EnclaveOperationFailed,
        }),
        epoch matches Some(e) ==> (r is Ok <==> (key_ok(old(store).spec_key())
            && e.spec_sig() == sig_of(
            old(store).spec_key(),
            epoch_digest(e.spec_seed(), e.spec_nonce(), *worker_params),
        ))),
        epoch is None && !key_ok(old(store).spec_key()) ==> r is Err,
        epoch is None ==> (match r {
            Ok(out) => {
                &&& out.spec_nonce().as_nat() == old(store).next_nonce()
                &&& out.spec_km_block() == worker_params.km_block_number
                &&& out.spec_sig() == sig_of(
                    old(store).spec_key(),
                    epoch_digest(out.spec_seed(), out.spec_nonce(), *worker_params),
                )
                &&& out.spec_confirmed() is None
                &&& mint_step(*old(store), *final(store), out.spec_nonce().as_nat())
                &&& final(store).spec_epochs().last().seed == out.spec_seed()
                &&& final(store).spec_epochs().last().nonce == out.spec_nonce()
                &&& params_eq(final(store).spec_epochs().last().worker_params, *worker_params)
                &&& final(store).spec_epochs().take(old(store).spec_epochs().len() as int) == old(
                    store,
                ).spec_epochs()
            },
            Err(err) => {
                &&& ((old(store).spec_epochs().len() == 0 && old(store).ledger_corrupt()) <==> err
                    == EpochError::StorageCorrupt)
                &&& (err == EpochError::StorageCorrupt || err
                    == EpochError::EnclaveOperationFailed)
            },
        }),
{
    match epoch {
        Some(e) => {
            let seed = e.get_seed();
            let nonce = e.get_nonce();
            match store.set_worker_params(worker_params, Some((seed, nonce))) {
                Err(err) => Err(err),
                Ok(out) => {
                    let sigv = e.get_sig();
                    if bytes_eq_vec(&out.sig, &sigv) {
                        Ok(e)
                    } else {
                        Err(EpochError::EnclaveOperationFailed)
                    }
                },
            }
        },
        None => {
            match store.set_worker_params(worker_params, None) {
                Err(err) => Err(err),
                Ok(out) => {
                    let sig_vec = bytes_to_vec(&out.sig);
                    Ok(
                        SignedEpoch::new(
                            out.seed,
                            sig_vec,
                            out.nonce,
                            worker_params.km_block_number,
                        ),
                    )
                },
            }
        },
    }
}

} // verus!
