//! Epoch lifecycle and deterministic worker assignment for a confidential
//! computation platform.
//!
//! The crate models the protocol by which a single principal node mints
//! epochs: each epoch carries a fresh random seed, a strictly increasing
//! sequence number that survives restarts through a sealed nonce ledger, and
//! a recoverable signature that binds the seed, the sequence number and the
//! worker/stake snapshot together.  Once the set of live secret-contract
//! addresses is known, the epoch is confirmed: every address is mapped to
//! exactly one worker by a stake-weighted, seed-keyed selection that any
//! third party can recompute.

pub mod byteutil;
pub mod coordinator;
pub mod crypto;
pub mod rlp;
pub mod errors;
pub mod hexutil;
pub mod db;
pub mod epoch_keeper;
pub mod eng_resolver;
pub mod epoch_types;
pub mod keeper_types;
pub mod messages;
pub mod uint256;
