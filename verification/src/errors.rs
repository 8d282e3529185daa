use vstd::prelude::*;

verus! {

/// Errors surfaced by the epoch subsystem.
///
/// None of these is retried internally: a failed mint could otherwise burn a
/// sequence number or issue two seeds for one logical epoch request.
#[derive(Debug, Clone, Copy, PartialEq, Eq, Structural)]
pub enum EpochError {
    /// The boundary call failed: the random source or the signing step
    /// reported an internal failure.
    EnclaveOperationFailed,
    /// The sealed nonce ledger holds a record that fails its integrity or
    /// version check.  This is never treated as "no prior epoch", since that
    /// would silently permit a rollback.
    StorageCorrupt,
    /// A worker-assignment query was made before the epoch was confirmed.
    UnconfirmedState,
    /// No epoch is present to resolve against: none was ever minted, or
    /// none survives in memory.
    EpochNotFound,
    /// The worker/stake snapshot is malformed or carries zero total stake.
    InvalidWorkerSet,
    /// Epoch lookup by a historical block number is not implemented.
    Unsupported,
}

} // verus!
