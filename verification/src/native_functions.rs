//! Native functions: Move functions implemented by the VM, which the compiler provides in WASM
//! or maps onto host functions of the Stylus environment.
use vstd::prelude::*;

use crate::text::str_equals;

verus! {

/// The native functions known to the compiler, by the names under which Move declares them.
pub struct NativeFunction;

impl NativeFunction {
    pub const NATIVE_SENDER: &'static str = "native_sender";
    pub const NATIVE_MSG_VALUE: &'static str = "native_msg_value";
    pub const NATIVE_BLOCK_NUMBER: &'static str = "native_block_number";
    pub const NATIVE_BLOCK_BASEFEE: &'static str = "native_block_basefee";
    pub const NATIVE_BLOCK_GAS_LIMIT: &'static str = "native_block_gas_limit";
    pub const NATIVE_BLOCK_TIMESTAMP: &'static str = "native_block_timestamp";
    pub const NATIVE_CHAIN_ID: &'static str = "native_chain_id";
    pub const NATIVE_GAS_PRICE: &'static str = "native_gas_price";
    pub const NATIVE_FRESH_ID: &'static str = "fresh_id";

    // Transfer functions
    pub const NATIVE_TRANSFER_OBJECT: &'static str = "transfer";
    pub const NATIVE_SHARE_OBJECT: &'static str = "share_object";
    pub const NATIVE_FREEZE_OBJECT: &'static str = "freeze_object";

    // Types functions
    pub const NATIVE_IS_ONE_TIME_WITNESS: &'static str = "is_one_time_witness";

    // Storage functions
    pub const SAVE_IN_SLOT: &'static str = "save_in_slot";
    pub const READ_SLOT: &'static str = "read_slot";

    // Event functions
    pub const NATIVE_EMIT: &'static str = "emit";

    // Object functions
    pub const NATIVE_DELETE_OBJECT: &'static str = "delete";

    // Host functions
    pub const HOST_BLOCK_NUMBER: &'static str = "block_number";
    pub const HOST_BLOCK_GAS_LIMIT: &'static str = "block_gas_limit";
    pub const HOST_BLOCK_TIMESTAMP: &'static str = "block_timestamp";
    pub const HOST_CHAIN_ID: &'static str = "chainid";

    /// Maps the name of a native function that a host function implements directly to the
    /// name of that host function.
    pub fn host_fn_name(name: &str) -> (r: Option<&'static str>)
        ensures
            match r {
                Some(h) => host_fn_of(name@) == Some(h@),
                None => host_fn_of(name@) is None,
            },
    {
        proof {
            reveal_strlit("native_block_number");
            reveal_strlit("native_block_gas_limit");
            reveal_strlit("native_block_timestamp");
            reveal_strlit("native_chain_id");
            reveal_strlit("block_number");
            reveal_strlit("block_gas_limit");
            reveal_strlit("block_timestamp");
            reveal_strlit("chainid");
            assert(Self::NATIVE_BLOCK_NUMBER@ =~= seq!['n', 'a', 't', 'i', 'v', 'e', '_', 'b', 'l', 'o', 'c', 'k', '_', 'n', 'u', 'm', 'b', 'e', 'r']);
            assert(Self::NATIVE_BLOCK_GAS_LIMIT@ =~= seq!['n', 'a', 't', 'i', 'v', 'e', '_', 'b', 'l', 'o', 'c', 'k', '_', 'g', 'a', 's', '_', 'l', 'i', 'm', 'i', 't']);
            assert(Self::NATIVE_BLOCK_TIMESTAMP@ =~= seq!['n', 'a', 't', 'i', 'v', 'e', '_', 'b', 'l', 'o', 'c', 'k', '_', 't', 'i', 'm', 'e', 's', 't', 'a', 'm', 'p']);
            assert(Self::NATIVE_CHAIN_ID@ =~= seq!['n', 'a', 't', 'i', 'v', 'e', '_', 'c', 'h', 'a', 'i', 'n', '_', 'i', 'd']);
            assert(Self::HOST_BLOCK_NUMBER@ =~= seq!['b', 'l', 'o', 'c', 'k', '_', 'n', 'u', 'm', 'b', 'e', 'r']);
            assert(Self::HOST_BLOCK_GAS_LIMIT@ =~= seq!['b', 'l', 'o', 'c', 'k', '_', 'g', 'a', 's', '_', 'l', 'i', 'm', 'i', 't']);
            assert(Self::HOST_BLOCK_TIMESTAMP@ =~= seq!['b', 'l', 'o', 'c', 'k', '_', 't', 'i', 'm', 'e', 's', 't', 'a', 'm', 'p']);
            assert(Self::HOST_CHAIN_ID@ =~= seq!['c', 'h', 'a', 'i', 'n', 'i', 'd']);
        }
        if str_equals(name, Self::NATIVE_BLOCK_NUMBER) {
            Some(Self::HOST_BLOCK_NUMBER)
        } else if str_equals(name, Self::NATIVE_BLOCK_GAS_LIMIT) {
            Some(Self::HOST_BLOCK_GAS_LIMIT)
        } else if str_equals(name, Self::NATIVE_BLOCK_TIMESTAMP) {
            Some(Self::HOST_BLOCK_TIMESTAMP)
        } else if str_equals(name, Self::NATIVE_CHAIN_ID) {
            Some(Self::HOST_CHAIN_ID)
        } else {
            None
        }
    }
}

/// The host function that implements the native function named `name`, if any.
pub open spec fn host_fn_of(name: Seq<char>) -> Option<Seq<char>> {
    if name == seq!['n', 'a', 't', 'i', 'v', 'e', '_', 'b', 'l', 'o', 'c', 'k', '_', 'n', 'u', 'm', 'b', 'e', 'r'] {
        Some(seq!['b', 'l', 'o', 'c', 'k', '_', 'n', 'u', 'm', 'b', 'e', 'r'])
    } else if name == seq!['n', 'a', 't', 'i', 'v', 'e', '_', 'b', 'l', 'o', 'c', 'k', '_', 'g', 'a', 's', '_', 'l', 'i', 'm', 'i', 't'] {
        Some(seq!['b', 'l', 'o', 'c', 'k', '_', 'g', 'a', 's', '_', 'l', 'i', 'm', 'i', 't'])
    } else if name == seq!['n', 'a', 't', 'i', 'v', 'e', '_', 'b', 'l', 'o', 'c', 'k', '_', 't', 'i', 'm', 'e', 's', 't', 'a', 'm', 'p'] {
        Some(seq!['b', 'l', 'o', 'c', 'k', '_', 't', 'i', 'm', 'e', 's', 't', 'a', 'm', 'p'])
    } else if name == seq!['n', 'a', 't', 'i', 'v', 'e', '_', 'c', 'h', 'a', 'i', 'n', '_', 'i', 'd'] {
        Some(seq!['c', 'h', 'a', 'i', 'n', 'i', 'd'])
    } else {
        None
    }
}

} // verus!
