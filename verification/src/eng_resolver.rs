//! The host interface a secret contract's module links against: the table
//! of host functions, each with its signature and its call id, and the
//! admission rule for the module's memory request.
//!
//! The surrounding interpreter glue asks by import name; the table and the
//! memory rule are the decisions, and they are exact.

use vstd::prelude::*;

verus! {

use vstd::string::StrSliceExecFns;

pub const RET_FUNC: usize = 1;

pub const WRITE_STATE_FUNC: usize = 2;

pub const READ_STATE_FUNC: usize = 3;

pub const FROM_MEM_FUNC: usize = 4;

pub const EPRINT_FUNC: usize = 5;

pub const NAME_LENGTH_FUNC: usize = 6;

pub const NAME_FUNC: usize = 7;

pub const ARGS_FUNC: usize = 8;

pub const ARGS_LENGTH_FUNC: usize = 9;

pub const TYPES_LENGTH_FUNC: usize = 10;

pub const TYPES_FUNC: usize = 11;

pub const WRITE_PAYLOAD_FUNC: usize = 12;

pub const WRITE_ADDRESS_FUNC: usize = 13;

pub const GAS_FUNC: usize = 14;

/// The numeric value types the host interface speaks.
#[derive(Debug, Clone, Copy, PartialEq, Eq, Structural)]
pub enum ValType {
    I32,
    I64,
}

/// A host function's signature: its parameter types and its result type.
pub struct StaticSignature(pub Vec<ValType>, pub Option<ValType>);

/// Whether two strings hold the same characters.
pub fn str_eq(a: &str, b: &str) -> (r: bool)
    ensures
        r == (a@ == b@),
{
    let la = a.unicode_len();
    let lb = b.unicode_len();
    if la != lb {
        return false;
    }
    let mut i: usize = 0;
    while i < la
        invariant
            0 <= i <= la,
            la == a@.len(),
            la == b@.len(),
            forall|j: int| 0 <= j < i ==> a@[j] == b@[j],
        decreases la - i,
    {
        if a.get_char(i) != b.get_char(i) {
            return false;
        }
        i = i + 1;
    }
    proof {
        assert(a@ =~= b@);
    }
    true
}

/// The host function a module import resolves to: parameter types, result
/// type, and call id — or nothing for an unknown name.
pub open spec fn spec_resolve_func(name: Seq<char>) -> Option<(Seq<ValType>, Option<ValType>, int)> {
    if name == "ret"@ {
        Some((seq![ValType::I32, ValType::I32], None::<ValType>, RET_FUNC as int))
    } else if name == "write_state"@ {
        Some(
            (
                seq![ValType::I32, ValType::I32, ValType::I32, ValType::I32],
                None::<ValType>,
                WRITE_STATE_FUNC as int,
            ),
        )
    } else if name == "read_state"@ {
        Some(
            (seq![ValType::I32, ValType::I32], Some(ValType::I32), READ_STATE_FUNC as int),
        )
    } else if name == "from_memory"@ {
        Some((seq![ValType::I32, ValType::I32], None::<ValType>, FROM_MEM_FUNC as int))
    } else if name == "eprint"@ {
        Some((seq![ValType::I32, ValType::I32], None::<ValType>, EPRINT_FUNC as int))
    } else if name == "fetch_function_name_length"@ {
        Some((Seq::<ValType>::empty(), Some(ValType::I32), NAME_LENGTH_FUNC as int))
    } else if name == "fetch_function_name"@ {
        Some((seq![ValType::I32], None::<ValType>, NAME_FUNC as int))
    } else if name == "fetch_args_length"@ {
        Some((Seq::<ValType>::empty(), Some(ValType::I32), ARGS_LENGTH_FUNC as int))
    } else if name == "fetch_args"@ {
        Some((seq![ValType::I32], None::<ValType>, ARGS_FUNC as int))
    } else if name == "fetch_types_length"@ {
        Some((Seq::<ValType>::empty(), Some(ValType::I32), TYPES_LENGTH_FUNC as int))
    } else if name == "fetch_types"@ {
        Some((seq![ValType::I32], None::<ValType>, TYPES_FUNC as int))
    } else if name == "write_payload"@ {
        Some((seq![ValType::I32, ValType::I32], None::<ValType>, WRITE_PAYLOAD_FUNC as int))
    } else if name == "write_address"@ {
        Some((seq![ValType::I32], None::<ValType>, WRITE_ADDRESS_FUNC as int))
    } else if name == "gas"@ {
        Some((seq![ValType::I32], None::<ValType>, GAS_FUNC as int))
    } else {
        None
    }
}

/// Whether a module's initial/maximum memory request (in 64 KiB pages)
/// fits under the limit: the initial request and the declared maximum must
/// both stay within it, and a module that declares no maximum is refused.
pub open spec fn spec_memory_allowed(max_memory: u32, initial: u32, maximum: Option<u32>) -> bool {
    initial <= max_memory && match maximum {
        Some(m) => m <= max_memory,
        None => false,
    }
}

/// The import resolver: holds the memory limit a module must stay under
/// (in 64 KiB pages).
pub struct ImportResolver {
    max_memory: u32,
}

impl ImportResolver {
    /// The memory limit, in 64 KiB pages.
    pub closed spec fn spec_max_memory(self) -> u32 {
        self.max_memory
    }

    /// A resolver with the given limit on a module's initial memory.
    pub fn with_limit(max_memory: u32) -> (r: ImportResolver)
        ensures
            r.spec_max_memory() == max_memory,
    {
        ImportResolver { max_memory }
    }

    /// Resolves an imported function name to its signature and call id;
    /// an unknown export resolves to nothing.
    pub fn resolve_func(&self, field_name: &str) -> (r: Option<(StaticSignature, usize)>)
        ensures
            match spec_resolve_func(field_name@) {
                Some((ps, ret, id)) => r matches Some((sig, rid)) && sig.0@ == ps && sig.1 == ret
                    && rid == id,
                None => r is None,
            },
    {
        if str_eq(field_name, "ret") {
            Some((StaticSignature(vec![ValType::I32, ValType::I32], None), RET_FUNC))
        } else if str_eq(field_name, "write_state") {
            Some(
                (
                    StaticSignature(
                        vec![ValType::I32, ValType::I32, ValType::I32, ValType::I32],
                        None,
                    ),
                    WRITE_STATE_FUNC,
                ),
            )
        } else if str_eq(field_name, "read_state") {
            Some(
                (
                    StaticSignature(vec![ValType::I32, ValType::I32], Some(ValType::I32)),
                    READ_STATE_FUNC,
                ),
            )
        } else if str_eq(field_name, "from_memory") {
            Some((StaticSignature(vec![ValType::I32, ValType::I32], None), FROM_MEM_FUNC))
        } else if str_eq(field_name, "eprint") {
            Some((StaticSignature(vec![ValType::I32, ValType::I32], None), EPRINT_FUNC))
        } else if str_eq(field_name, "fetch_function_name_length") {
            Some((StaticSignature(Vec::new(), Some(ValType::I32)), NAME_LENGTH_FUNC))
        } else if str_eq(field_name, "fetch_function_name") {
            Some((StaticSignature(vec![ValType::I32], None), NAME_FUNC))
        } else if str_eq(field_name, "fetch_args_length") {
            Some((StaticSignature(Vec::new(), Some(ValType::I32)), ARGS_LENGTH_FUNC))
        } else if str_eq(field_name, "fetch_args") {
            Some((StaticSignature(vec![ValType::I32], None), ARGS_FUNC))
        } else if str_eq(field_name, "fetch_types_length") {
            Some((StaticSignature(Vec::new(), Some(ValType::I32)), TYPES_LENGTH_FUNC))
        } else if str_eq(field_name, "fetch_types") {
            Some((StaticSignature(vec![ValType::I32], None), TYPES_FUNC))
        } else if str_eq(field_name, "write_payload") {
            Some((StaticSignature(vec![ValType::I32, ValType::I32], None), WRITE_PAYLOAD_FUNC))
        } else if str_eq(field_name, "write_address") {
            Some((StaticSignature(vec![ValType::I32], None), WRITE_ADDRESS_FUNC))
        } else if str_eq(field_name, "gas") {
            Some((StaticSignature(vec![ValType::I32], None), GAS_FUNC))
        } else {
            None
        }
    }

    /// Whether a module's memory request fits under this resolver's limit.
    pub fn memory_request_allowed(&self, initial: u32, maximum: Option<u32>) -> (r: bool)
        ensures
            r == spec_memory_allowed(self.spec_max_memory(), initial, maximum),
    {
        if initial > self.max_memory {
            return false;
        }
        match maximum {
            Some(m) => m <= self.max_memory,
            None => false,
        }
    }
}

} // verus!
