//! The keys under which the worker node stores contract state: a contract
//! has bytecode, a current state, and a numbered sequence of state deltas.

use vstd::prelude::*;

verus! {

/// What a stored record is: one state delta (with its index), the current
/// state, or the contract's bytecode.
#[derive(Debug, Clone, Copy, PartialEq, Eq, Structural)]
pub enum Stype {
    Delta(u32),
    State,
    ByteCode,
}

impl Stype {
    /// The index of a delta record.
    pub fn unwrap_delta(&self) -> (r: u32)
        requires
            *self matches Stype::Delta(_),
        ensures
            *self == Stype::Delta(r),
    {
        match self {
            Stype::Delta(i) => *i,
            _ => {
                proof {
                    assert(false);
                }
                0
            },
        }
    }
}

/// The storage key of one record: the contract it belongs to and what the
/// record is.
#[derive(Debug, Clone, Copy)]
pub struct DeltaKey {
    pub contract_address: [u8; 32],
    pub key_type: Stype,
}

/// One stored state delta: its key and its bytes.
pub struct Delta {
    pub key: DeltaKey,
    pub value: Vec<u8>,
}

} // verus!
