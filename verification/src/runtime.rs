//! The runtime helper functions that compiled modules link, and their names.
use vstd::prelude::*;

pub mod integers;
pub mod copy;
pub mod equality;
pub mod link;
pub mod storage;
pub mod swap;
pub mod vector;

verus! {

/// A helper function that the compiler adds to a module on first use, found again by name.
#[derive(PartialEq, Eq, Structural, Debug, Clone, Copy)]
pub enum RuntimeFunction {
    // Integer operations
    HeapIntSum,
    HeapIntShiftLeft,
    HeapIntShiftRight,
    AddU32,
    AddU64,
    CheckOverflowU8U16,
    DowncastU64ToU32,
    DowncastU128U256ToU32,
    DowncastU128U256ToU64,
    SubU32,
    SubU64,
    HeapIntSub,
    HeapIntDivMod,
    MulU32,
    MulU64,
    HeapIntMul,
    LessThan,
    // Swap bytes
    SwapI32Bytes,
    SwapI64Bytes,
    SwapI128Bytes,
    SwapI256Bytes,
    // Copy
    CopyU128,
    CopyU256,
    // Equality
    HeapTypeEquality,
    VecEqualityHeapType,
    IsZero,
    // Vector
    VecSwap32,
    VecSwap64,
    VecPopBack32,
    VecPopBack64,
    VecBorrow,
    VecIncrementLen,
    VecDecrementLen,
    // Storage
    StorageNextSlot,
    DeriveMappingSlot,
    DeriveDynArraySlot,
    WriteObjectSlot,
    LocateStorageData,
    LocateStructSlot,
    GetIdBytesPtr,
    EncodeAndSaveInStorage,
    DecodeAndReadFromStorage,
    DeleteFromStorage,
}

/// The name under which a runtime function is linked into a module.
pub open spec fn runtime_function_name(f: RuntimeFunction) -> Seq<char> {
    match f {
        RuntimeFunction::HeapIntSum => seq!['h', 'e', 'a', 'p', '_', 'i', 'n', 't', 'e', 'g', 'e', 'r', '_', 'a', 'd', 'd'],
        RuntimeFunction::HeapIntShiftLeft => seq!['h', 'e', 'a', 'p', '_', 'i', 'n', 't', 'e', 'g', 'e', 'r', '_', 's', 'h', 'i', 'f', 't', '_', 'l', 'e', 'f', 't'],
        RuntimeFunction::HeapIntShiftRight => seq!['h', 'e', 'a', 'p', '_', 'i', 'n', 't', 'e', 'g', 'e', 'r', '_', 's', 'h', 'i', 'f', 't', '_', 'r', 'i', 'g', 'h', 't'],
        RuntimeFunction::AddU32 => seq!['a', 'd', 'd', '_', 'u', '3', '2'],
        RuntimeFunction::AddU64 => seq!['a', 'd', 'd', '_', 'u', '6', '4'],
        RuntimeFunction::CheckOverflowU8U16 => seq!['c', 'h', 'e', 'c', 'k', '_', 'o', 'v', 'e', 'r', 'f', 'l', 'o', 'w', '_', 'u', '8', '_', 'u', '1', '6'],
        RuntimeFunction::DowncastU64ToU32 => seq!['d', 'o', 'w', 'n', 'c', 'a', 's', 't', '_', 'u', '6', '4', '_', 't', 'o', '_', 'u', '3', '2'],
        RuntimeFunction::DowncastU128U256ToU32 => seq!['d', 'o', 'w', 'n', 'c', 'a', 's', 't', '_', 'u', '1', '2', '8', '_', 'u', '2', '5', '6', '_', 't', 'o', '_', 'u', '3', '2'],
        RuntimeFunction::DowncastU128U256ToU64 => seq!['d', 'o', 'w', 'n', 'c', 'a', 's', 't', '_', 'u', '1', '2', '8', '_', 'u', '2', '5', '6', '_', 't', 'o', '_', 'u', '6', '4'],
        RuntimeFunction::SubU32 => seq!['s', 'u', 'b', '_', 'u', '3', '2'],
        RuntimeFunction::SubU64 => seq!['s', 'u', 'b', '_', 'u', '6', '4'],
        RuntimeFunction::HeapIntSub => seq!['h', 'e', 'a', 'p', '_', 'i', 'n', 't', 'e', 'g', 'e', 'r', '_', 's', 'u', 'b'],
        RuntimeFunction::HeapIntDivMod => seq!['h', 'e', 'a', 'p', '_', 'i', 'n', 't', 'e', 'g', 'e', 'r', '_', 'd', 'i', 'v', '_', 'm', 'o', 'd'],
        RuntimeFunction::MulU32 => seq!['m', 'u', 'l', '_', 'u', '3', '2'],
        RuntimeFunction::MulU64 => seq!['m', 'u', 'l', '_', 'u', '6', '4'],
        RuntimeFunction::HeapIntMul => seq!['h', 'e', 'a', 'p', '_', 'i', 'n', 't', 'e', 'g', 'e', 'r', '_', 'm', 'u', 'l'],
        RuntimeFunction::LessThan => seq!['l', 'e', 's', 's', '_', 't', 'h', 'a', 'n'],
        RuntimeFunction::SwapI32Bytes => seq!['s', 'w', 'a', 'p', '_', 'i', '3', '2', '_', 'b', 'y', 't', 'e', 's'],
        RuntimeFunction::SwapI64Bytes => seq!['s', 'w', 'a', 'p', '_', 'i', '6', '4', '_', 'b', 'y', 't', 'e', 's'],
        RuntimeFunction::SwapI128Bytes => seq!['s', 'w', 'a', 'p', '_', 'i', '1', '2', '8', '_', 'b', 'y', 't', 'e', 's'],
        RuntimeFunction::SwapI256Bytes => seq!['s', 'w', 'a', 'p', '_', 'i', '2', '5', '6', '_', 'b', 'y', 't', 'e', 's'],
        RuntimeFunction::CopyU128 => seq!['c', 'o', 'p', 'y', '_', 'u', '1', '2', '8'],
        RuntimeFunction::CopyU256 => seq!['c', 'o', 'p', 'y', '_', 'u', '2', '5', '6'],
        RuntimeFunction::HeapTypeEquality => seq!['h', 'e', 'a', 'p', '_', 't', 'y', 'p', 'e', '_', 'e', 'q', 'u', 'a', 'l', 'i', 't', 'y'],
        RuntimeFunction::VecEqualityHeapType => seq!['v', 'e', 'c', '_', 'e', 'q', 'u', 'a', 'l', 'i', 't', 'y', '_', 'h', 'e', 'a', 'p', '_', 't', 'y', 'p', 'e'],
        RuntimeFunction::IsZero => seq!['i', 's', '_', 'z', 'e', 'r', 'o'],
        RuntimeFunction::VecSwap32 => seq!['v', 'e', 'c', '_', 's', 'w', 'a', 'p', '_', '3', '2'],
        RuntimeFunction::VecSwap64 => seq!['v', 'e', 'c', '_', 's', 'w', 'a', 'p', '_', '6', '4'],
        RuntimeFunction::VecPopBack32 => seq!['v', 'e', 'c', '_', 'p', 'o', 'p', '_', 'b', 'a', 'c', 'k', '_', '3', '2'],
        RuntimeFunction::VecPopBack64 => seq!['v', 'e', 'c', '_', 'p', 'o', 'p', '_', 'b', 'a', 'c', 'k', '_', '6', '4'],
        RuntimeFunction::VecBorrow => seq!['v', 'e', 'c', '_', 'b', 'o', 'r', 'r', 'o', 'w'],
        RuntimeFunction::VecIncrementLen => seq!['v', 'e', 'c', '_', 'i', 'n', 'c', 'r', 'e', 'm', 'e', 'n', 't', '_', 'l', 'e', 'n'],
        RuntimeFunction::VecDecrementLen => seq!['v', 'e', 'c', '_', 'd', 'e', 'c', 'r', 'e', 'm', 'e', 'n', 't', '_', 'l', 'e', 'n'],
        RuntimeFunction::StorageNextSlot => seq!['s', 't', 'o', 'r', 'a', 'g', 'e', '_', 'n', 'e', 'x', 't', '_', 's', 'l', 'o', 't'],
        RuntimeFunction::DeriveMappingSlot => seq!['d', 'e', 'r', 'i', 'v', 'e', '_', 'm', 'a', 'p', 'p', 'i', 'n', 'g', '_', 's', 'l', 'o', 't'],
        RuntimeFunction::DeriveDynArraySlot => seq!['d', 'e', 'r', 'i', 'v', 'e', '_', 'd', 'y', 'n', '_', 'a', 'r', 'r', 'a', 'y', '_', 's', 'l', 'o', 't'],
        RuntimeFunction::WriteObjectSlot => seq!['w', 'r', 'i', 't', 'e', '_', 'o', 'b', 'j', 'e', 'c', 't', '_', 's', 'l', 'o', 't'],
        RuntimeFunction::LocateStorageData => seq!['l', 'o', 'c', 'a', 't', 'e', '_', 's', 't', 'o', 'r', 'a', 'g', 'e', '_', 'd', 'a', 't', 'a'],
        RuntimeFunction::LocateStructSlot => seq!['l', 'o', 'c', 'a', 't', 'e', '_', 's', 't', 'r', 'u', 'c', 't', '_', 's', 'l', 'o', 't'],
        RuntimeFunction::GetIdBytesPtr => seq!['g', 'e', 't', '_', 'i', 'd', '_', 'b', 'y', 't', 'e', 's', '_', 'p', 't', 'r'],
        RuntimeFunction::EncodeAndSaveInStorage => seq!['e', 'n', 'c', 'o', 'd', 'e', '_', 'a', 'n', 'd', '_', 's', 'a', 'v', 'e', '_', 'i', 'n', '_', 's', 't', 'o', 'r', 'a', 'g', 'e'],
        RuntimeFunction::DecodeAndReadFromStorage => seq!['d', 'e', 'c', 'o', 'd', 'e', '_', 'a', 'n', 'd', '_', 'r', 'e', 'a', 'd', '_', 'f', 'r', 'o', 'm', '_', 's', 't', 'o', 'r', 'a', 'g', 'e'],
        RuntimeFunction::DeleteFromStorage => seq!['d', 'e', 'l', 'e', 't', 'e', '_', 'f', 'r', 'o', 'm', '_', 's', 't', 'o', 'r', 'a', 'g', 'e'],
    }
}

impl RuntimeFunction {
    /// The name under which this function is linked into a module.
    pub fn name(&self) -> (r: &'static str)
        ensures
            r@ == runtime_function_name(*self),
    {
        let r = match self {
            Self::HeapIntSum => "heap_integer_add",
            Self::HeapIntShiftLeft => "heap_integer_shift_left",
            Self::HeapIntShiftRight => "heap_integer_shift_right",
            Self::AddU32 => "add_u32",
            Self::AddU64 => "add_u64",
            Self::CheckOverflowU8U16 => "check_overflow_u8_u16",
            Self::DowncastU64ToU32 => "downcast_u64_to_u32",
            Self::DowncastU128U256ToU32 => "downcast_u128_u256_to_u32",
            Self::DowncastU128U256ToU64 => "downcast_u128_u256_to_u64",
            Self::SubU32 => "sub_u32",
            Self::SubU64 => "sub_u64",
            Self::HeapIntSub => "heap_integer_sub",
            Self::HeapIntDivMod => "heap_integer_div_mod",
            Self::MulU32 => "mul_u32",
            Self::MulU64 => "mul_u64",
            Self::HeapIntMul => "heap_integer_mul",
            Self::LessThan => "less_than",
            Self::SwapI32Bytes => "swap_i32_bytes",
            Self::SwapI64Bytes => "swap_i64_bytes",
            Self::SwapI128Bytes => "swap_i128_bytes",
            Self::SwapI256Bytes => "swap_i256_bytes",
            Self::CopyU128 => "copy_u128",
            Self::CopyU256 => "copy_u256",
            Self::HeapTypeEquality => "heap_type_equality",
            Self::VecEqualityHeapType => "vec_equality_heap_type",
            Self::IsZero => "is_zero",
            Self::VecSwap32 => "vec_swap_32",
            Self::VecSwap64 => "vec_swap_64",
            Self::VecPopBack32 => "vec_pop_back_32",
            Self::VecPopBack64 => "vec_pop_back_64",
            Self::VecBorrow => "vec_borrow",
            Self::VecIncrementLen => "vec_increment_len",
            Self::VecDecrementLen => "vec_decrement_len",
            Self::StorageNextSlot => "storage_next_slot",
            Self::DeriveMappingSlot => "derive_mapping_slot",
            Self::DeriveDynArraySlot => "derive_dyn_array_slot",
            Self::WriteObjectSlot => "write_object_slot",
            Self::LocateStorageData => "locate_storage_data",
            Self::LocateStructSlot => "locate_struct_slot",
            Self::GetIdBytesPtr => "get_id_bytes_ptr",
            Self::EncodeAndSaveInStorage => "encode_and_save_in_storage",
            Self::DecodeAndReadFromStorage => "decode_and_read_from_storage",
            Self::DeleteFromStorage => "delete_from_storage",
        };
        proof {
            reveal_strlit("heap_integer_add");
            reveal_strlit("heap_integer_shift_left");
            reveal_strlit("heap_integer_shift_right");
            reveal_strlit("add_u32");
            reveal_strlit("add_u64");
            reveal_strlit("check_overflow_u8_u16");
            reveal_strlit("downcast_u64_to_u32");
            reveal_strlit("downcast_u128_u256_to_u32");
            reveal_strlit("downcast_u128_u256_to_u64");
            reveal_strlit("sub_u32");
            reveal_strlit("sub_u64");
            reveal_strlit("heap_integer_sub");
            reveal_strlit("heap_integer_div_mod");
            reveal_strlit("mul_u32");
            reveal_strlit("mul_u64");
            reveal_strlit("heap_integer_mul");
            reveal_strlit("less_than");
            reveal_strlit("swap_i32_bytes");
            reveal_strlit("swap_i64_bytes");
            reveal_strlit("swap_i128_bytes");
            reveal_strlit("swap_i256_bytes");
            reveal_strlit("copy_u128");
            reveal_strlit("copy_u256");
            reveal_strlit("heap_type_equality");
            reveal_strlit("vec_equality_heap_type");
            reveal_strlit("is_zero");
            reveal_strlit("vec_swap_32");
            reveal_strlit("vec_swap_64");
            reveal_strlit("vec_pop_back_32");
            reveal_strlit("vec_pop_back_64");
            reveal_strlit("vec_borrow");
            reveal_strlit("vec_increment_len");
            reveal_strlit("vec_decrement_len");
            reveal_strlit("storage_next_slot");
            reveal_strlit("derive_mapping_slot");
            reveal_strlit("derive_dyn_array_slot");
            reveal_strlit("write_object_slot");
            reveal_strlit("locate_storage_data");
            reveal_strlit("locate_struct_slot");
            reveal_strlit("get_id_bytes_ptr");
            reveal_strlit("encode_and_save_in_storage");
            reveal_strlit("decode_and_read_from_storage");
            reveal_strlit("delete_from_storage");
            assert(r@ =~= runtime_function_name(*self));
        }
        r
    }
}

/// Distinct runtime functions have distinct names, so that a function linked once is found
/// again by its name and never mistaken for another.
pub proof fn law_runtime_function_names_distinct(f: RuntimeFunction, g: RuntimeFunction)
    requires
        f != g,
    ensures
        runtime_function_name(f) != runtime_function_name(g),
{
    match f {
        RuntimeFunction::HeapIntSum => match g {
            RuntimeFunction::HeapIntSub => {
                assert(runtime_function_name(f)[13] != runtime_function_name(g)[13]);
            },
            RuntimeFunction::HeapIntMul => {
                assert(runtime_function_name(f)[13] != runtime_function_name(g)[13]);
            },
            RuntimeFunction::GetIdBytesPtr => {
                assert(runtime_function_name(f)[0] != runtime_function_name(g)[0]);
            },
            _ => {},
        },
        RuntimeFunction::AddU32 => match g {
            RuntimeFunction::AddU64 => {
                assert(runtime_function_name(f)[5] != runtime_function_name(g)[5]);
            },
            RuntimeFunction::SubU32 => {
                assert(runtime_function_name(f)[0] != runtime_function_name(g)[0]);
            },
            RuntimeFunction::SubU64 => {
                assert(runtime_function_name(f)[0] != runtime_function_name(g)[0]);
            },
            RuntimeFunction::MulU32 => {
                assert(runtime_function_name(f)[0] != runtime_function_name(g)[0]);
            },
            RuntimeFunction::MulU64 => {
                assert(runtime_function_name(f)[0] != runtime_function_name(g)[0]);
            },
            RuntimeFunction::IsZero => {
                assert(runtime_function_name(f)[0] != runtime_function_name(g)[0]);
            },
            _ => {},
        },
        RuntimeFunction::AddU64 => match g {
            RuntimeFunction::AddU32 => {
                assert(runtime_function_name(f)[5] != runtime_function_name(g)[5]);
            },
            RuntimeFunction::SubU32 => {
                assert(runtime_function_name(f)[0] != runtime_function_name(g)[0]);
            },
            RuntimeFunction::SubU64 => {
                assert(runtime_function_name(f)[0] != runtime_function_name(g)[0]);
            },
            RuntimeFunction::MulU32 => {
                assert(runtime_function_name(f)[0] != runtime_function_name(g)[0]);
            },
            RuntimeFunction::MulU64 => {
                assert(runtime_function_name(f)[0] != runtime_function_name(g)[0]);
            },
            RuntimeFunction::IsZero => {
                assert(runtime_function_name(f)[0] != runtime_function_name(g)[0]);
            },
            _ => {},
        },
        RuntimeFunction::CheckOverflowU8U16 => match g {
            RuntimeFunction::DeriveDynArraySlot => {
                assert(runtime_function_name(f)[0] != runtime_function_name(g)[0]);
            },
            _ => {},
        },
        RuntimeFunction::DowncastU64ToU32 => match g {
            RuntimeFunction::DeriveMappingSlot => {
                assert(runtime_function_name(f)[1] != runtime_function_name(g)[1]);
            },
            RuntimeFunction::LocateStorageData => {
                assert(runtime_function_name(f)[0] != runtime_function_name(g)[0]);
            },
            RuntimeFunction::DeleteFromStorage => {
                assert(runtime_function_name(f)[1] != runtime_function_name(g)[1]);
            },
            _ => {},
        },
        RuntimeFunction::DowncastU128U256ToU32 => match g {
            RuntimeFunction::DowncastU128U256ToU64 => {
                assert(runtime_function_name(f)[23] != runtime_function_name(g)[23]);
            },
            _ => {},
        },
        RuntimeFunction::DowncastU128U256ToU64 => match g {
            RuntimeFunction::DowncastU128U256ToU32 => {
                assert(runtime_function_name(f)[23] != runtime_function_name(g)[23]);
            },
            _ => {},
        },
        RuntimeFunction::SubU32 => match g {
            RuntimeFunction::AddU32 => {
                assert(runtime_function_name(f)[0] != runtime_function_name(g)[0]);
            },
            RuntimeFunction::AddU64 => {
                assert(runtime_function_name(f)[0] != runtime_function_name(g)[0]);
            },
            RuntimeFunction::SubU64 => {
                assert(runtime_function_name(f)[5] != runtime_function_name(g)[5]);
            },
            RuntimeFunction::MulU32 => {
                assert(runtime_function_name(f)[0] != runtime_function_name(g)[0]);
            },
            RuntimeFunction::MulU64 => {
                assert(runtime_function_name(f)[0] != runtime_function_name(g)[0]);
            },
            RuntimeFunction::IsZero => {
                assert(runtime_function_name(f)[0] != runtime_function_name(g)[0]);
            },
            _ => {},
        },
        RuntimeFunction::SubU64 => match g {
            RuntimeFunction::AddU32 => {
                assert(runtime_function_name(f)[0] != runtime_function_name(g)[0]);
            },
            RuntimeFunction::AddU64 => {
                assert(runtime_function_name(f)[0] != runtime_function_name(g)[0]);
            },
            RuntimeFunction::SubU32 => {
                assert(runtime_function_name(f)[5] != runtime_function_name(g)[5]);
            },
            RuntimeFunction::MulU32 => {
                assert(runtime_function_name(f)[0] != runtime_function_name(g)[0]);
            },
            RuntimeFunction::MulU64 => {
                assert(runtime_function_name(f)[0] != runtime_function_name(g)[0]);
            },
            RuntimeFunction::IsZero => {
                assert(runtime_function_name(f)[0] != runtime_function_name(g)[0]);
            },
            _ => {},
        },
        RuntimeFunction::HeapIntSub => match g {
            RuntimeFunction::HeapIntSum => {
                assert(runtime_function_name(f)[13] != runtime_function_name(g)[13]);
            },
            RuntimeFunction::HeapIntMul => {
                assert(runtime_function_name(f)[13] != runtime_function_name(g)[13]);
            },
            RuntimeFunction::GetIdBytesPtr => {
                assert(runtime_function_name(f)[0] != runtime_function_name(g)[0]);
            },
            _ => {},
        },
        RuntimeFunction::MulU32 => match g {
            RuntimeFunction::AddU32 => {
                assert(runtime_function_name(f)[0] != runtime_function_name(g)[0]);
            },
            RuntimeFunction::AddU64 => {
                assert(runtime_function_name(f)[0] != runtime_function_name(g)[0]);
            },
            RuntimeFunction::SubU32 => {
                assert(runtime_function_name(f)[0] != runtime_function_name(g)[0]);
            },
            RuntimeFunction::SubU64 => {
                assert(runtime_function_name(f)[0] != runtime_function_name(g)[0]);
            },
            RuntimeFunction::MulU64 => {
                assert(runtime_function_name(f)[5] != runtime_function_name(g)[5]);
            },
            RuntimeFunction::IsZero => {
                assert(runtime_function_name(f)[0] != runtime_function_name(g)[0]);
            },
            _ => {},
        },
        RuntimeFunction::MulU64 => match g {
            RuntimeFunction::AddU32 => {
                assert(runtime_function_name(f)[0] != runtime_function_name(g)[0]);
            },
            RuntimeFunction::AddU64 => {
                assert(runtime_function_name(f)[0] != runtime_function_name(g)[0]);
            },
            RuntimeFunction::SubU32 => {
                assert(runtime_function_name(f)[0] != runtime_function_name(g)[0]);
            },
            RuntimeFunction::SubU64 => {
                assert(runtime_function_name(f)[0] != runtime_function_name(g)[0]);
            },
            RuntimeFunction::MulU32 => {
                assert(runtime_function_name(f)[5] != runtime_function_name(g)[5]);
            },
            RuntimeFunction::IsZero => {
                assert(runtime_function_name(f)[0] != runtime_function_name(g)[0]);
            },
            _ => {},
        },
        RuntimeFunction::HeapIntMul => match g {
            RuntimeFunction::HeapIntSum => {
                assert(runtime_function_name(f)[13] != runtime_function_name(g)[13]);
            },
            RuntimeFunction::HeapIntSub => {
                assert(runtime_function_name(f)[13] != runtime_function_name(g)[13]);
            },
            RuntimeFunction::GetIdBytesPtr => {
                assert(runtime_function_name(f)[0] != runtime_function_name(g)[0]);
            },
            _ => {},
        },
        RuntimeFunction::LessThan => match g {
            RuntimeFunction::CopyU128 => {
                assert(runtime_function_name(f)[0] != runtime_function_name(g)[0]);
            },
            RuntimeFunction::CopyU256 => {
                assert(runtime_function_name(f)[0] != runtime_function_name(g)[0]);
            },
            _ => {},
        },
        RuntimeFunction::SwapI32Bytes => match g {
            RuntimeFunction::SwapI64Bytes => {
                assert(runtime_function_name(f)[6] != runtime_function_name(g)[6]);
            },
            _ => {},
        },
        RuntimeFunction::SwapI64Bytes => match g {
            RuntimeFunction::SwapI32Bytes => {
                assert(runtime_function_name(f)[6] != runtime_function_name(g)[6]);
            },
            _ => {},
        },
        RuntimeFunction::SwapI128Bytes => match g {
            RuntimeFunction::SwapI256Bytes => {
                assert(runtime_function_name(f)[6] != runtime_function_name(g)[6]);
            },
            RuntimeFunction::VecPopBack32 => {
                assert(runtime_function_name(f)[0] != runtime_function_name(g)[0]);
            },
            RuntimeFunction::VecPopBack64 => {
                assert(runtime_function_name(f)[0] != runtime_function_name(g)[0]);
            },
            _ => {},
        },
        RuntimeFunction::SwapI256Bytes => match g {
            RuntimeFunction::SwapI128Bytes => {
                assert(runtime_function_name(f)[6] != runtime_function_name(g)[6]);
            },
            RuntimeFunction::VecPopBack32 => {
                assert(runtime_function_name(f)[0] != runtime_function_name(g)[0]);
            },
            RuntimeFunction::VecPopBack64 => {
                assert(runtime_function_name(f)[0] != runtime_function_name(g)[0]);
            },
            _ => {},
        },
        RuntimeFunction::CopyU128 => match g {
            RuntimeFunction::LessThan => {
                assert(runtime_function_name(f)[0] != runtime_function_name(g)[0]);
            },
            RuntimeFunction::CopyU256 => {
                assert(runtime_function_name(f)[6] != runtime_function_name(g)[6]);
            },
            _ => {},
        },
        RuntimeFunction::CopyU256 => match g {
            RuntimeFunction::LessThan => {
                assert(runtime_function_name(f)[0] != runtime_function_name(g)[0]);
            },
            RuntimeFunction::CopyU128 => {
                assert(runtime_function_name(f)[6] != runtime_function_name(g)[6]);
            },
            _ => {},
        },
        RuntimeFunction::HeapTypeEquality => match g {
            RuntimeFunction::LocateStructSlot => {
                assert(runtime_function_name(f)[0] != runtime_function_name(g)[0]);
            },
            _ => {},
        },
        RuntimeFunction::IsZero => match g {
            RuntimeFunction::AddU32 => {
                assert(runtime_function_name(f)[0] != runtime_function_name(g)[0]);
            },
            RuntimeFunction::AddU64 => {
                assert(runtime_function_name(f)[0] != runtime_function_name(g)[0]);
            },
            RuntimeFunction::SubU32 => {
                assert(runtime_function_name(f)[0] != runtime_function_name(g)[0]);
            },
            RuntimeFunction::SubU64 => {
                assert(runtime_function_name(f)[0] != runtime_function_name(g)[0]);
            },
            RuntimeFunction::MulU32 => {
                assert(runtime_function_name(f)[0] != runtime_function_name(g)[0]);
            },
            RuntimeFunction::MulU64 => {
                assert(runtime_function_name(f)[0] != runtime_function_name(g)[0]);
            },
            _ => {},
        },
        RuntimeFunction::VecSwap32 => match g {
            RuntimeFunction::VecSwap64 => {
                assert(runtime_function_name(f)[9] != runtime_function_name(g)[9]);
            },
            _ => {},
        },
        RuntimeFunction::VecSwap64 => match g {
            RuntimeFunction::VecSwap32 => {
                assert(runtime_function_name(f)[9] != runtime_function_name(g)[9]);
            },
            _ => {},
        },
        RuntimeFunction::VecPopBack32 => match g {
            RuntimeFunction::SwapI128Bytes => {
                assert(runtime_function_name(f)[0] != runtime_function_name(g)[0]);
            },
            RuntimeFunction::SwapI256Bytes => {
                assert(runtime_function_name(f)[0] != runtime_function_name(g)[0]);
            },
            RuntimeFunction::VecPopBack64 => {
                assert(runtime_function_name(f)[13] != runtime_function_name(g)[13]);
            },
            _ => {},
        },
        RuntimeFunction::VecPopBack64 => match g {
            RuntimeFunction::SwapI128Bytes => {
                assert(runtime_function_name(f)[0] != runtime_function_name(g)[0]);
            },
            RuntimeFunction::SwapI256Bytes => {
                assert(runtime_function_name(f)[0] != runtime_function_name(g)[0]);
            },
            RuntimeFunction::VecPopBack32 => {
                assert(runtime_function_name(f)[13] != runtime_function_name(g)[13]);
            },
            _ => {},
        },
        RuntimeFunction::VecIncrementLen => match g {
            RuntimeFunction::VecDecrementLen => {
                assert(runtime_function_name(f)[4] != runtime_function_name(g)[4]);
            },
            RuntimeFunction::StorageNextSlot => {
                assert(runtime_function_name(f)[0] != runtime_function_name(g)[0]);
            },
            RuntimeFunction::WriteObjectSlot => {
                assert(runtime_function_name(f)[0] != runtime_function_name(g)[0]);
            },
            _ => {},
        },
        RuntimeFunction::VecDecrementLen => match g {
            RuntimeFunction::VecIncrementLen => {
                assert(runtime_function_name(f)[4] != runtime_function_name(g)[4]);
            },
            RuntimeFunction::StorageNextSlot => {
                assert(runtime_function_name(f)[0] != runtime_function_name(g)[0]);
            },
            RuntimeFunction::WriteObjectSlot => {
                assert(runtime_function_name(f)[0] != runtime_function_name(g)[0]);
            },
            _ => {},
        },
        RuntimeFunction::StorageNextSlot => match g {
            RuntimeFunction::VecIncrementLen => {
                assert(runtime_function_name(f)[0] != runtime_function_name(g)[0]);
            },
            RuntimeFunction::VecDecrementLen => {
                assert(runtime_function_name(f)[0] != runtime_function_name(g)[0]);
            },
            RuntimeFunction::WriteObjectSlot => {
                assert(runtime_function_name(f)[0] != runtime_function_name(g)[0]);
            },
            _ => {},
        },
        RuntimeFunction::DeriveMappingSlot => match g {
            RuntimeFunction::DowncastU64ToU32 => {
                assert(runtime_function_name(f)[1] != runtime_function_name(g)[1]);
            },
            RuntimeFunction::LocateStorageData => {
                assert(runtime_function_name(f)[0] != runtime_function_name(g)[0]);
            },
            RuntimeFunction::DeleteFromStorage => {
                assert(runtime_function_name(f)[2] != runtime_function_name(g)[2]);
            },
            _ => {},
        },
        RuntimeFunction::DeriveDynArraySlot => match g {
            RuntimeFunction::CheckOverflowU8U16 => {
                assert(runtime_function_name(f)[0] != runtime_function_name(g)[0]);
            },
            _ => {},
        },
        RuntimeFunction::WriteObjectSlot => match g {
            RuntimeFunction::VecIncrementLen => {
                assert(runtime_function_name(f)[0] != runtime_function_name(g)[0]);
            },
            RuntimeFunction::VecDecrementLen => {
                assert(runtime_function_name(f)[0] != runtime_function_name(g)[0]);
            },
            RuntimeFunction::StorageNextSlot => {
                assert(runtime_function_name(f)[0] != runtime_function_name(g)[0]);
            },
            _ => {},
        },
        RuntimeFunction::LocateStorageData => match g {
            RuntimeFunction::DowncastU64ToU32 => {
                assert(runtime_function_name(f)[0] != runtime_function_name(g)[0]);
            },
            RuntimeFunction::DeriveMappingSlot => {
                assert(runtime_function_name(f)[0] != runtime_function_name(g)[0]);
            },
            RuntimeFunction::DeleteFromStorage => {
                assert(runtime_function_name(f)[0] != runtime_function_name(g)[0]);
            },
            _ => {},
        },
        RuntimeFunction::LocateStructSlot => match g {
            RuntimeFunction::HeapTypeEquality => {
                assert(runtime_function_name(f)[0] != runtime_function_name(g)[0]);
            },
            _ => {},
        },
        RuntimeFunction::GetIdBytesPtr => match g {
            RuntimeFunction::HeapIntSum => {
                assert(runtime_function_name(f)[0] != runtime_function_name(g)[0]);
            },
            RuntimeFunction::HeapIntSub => {
                assert(runtime_function_name(f)[0] != runtime_function_name(g)[0]);
            },
            RuntimeFunction::HeapIntMul => {
                assert(runtime_function_name(f)[0] != runtime_function_name(g)[0]);
            },
            _ => {},
        },
        RuntimeFunction::DeleteFromStorage => match g {
            RuntimeFunction::DowncastU64ToU32 => {
                assert(runtime_function_name(f)[1] != runtime_function_name(g)[1]);
            },
            RuntimeFunction::DeriveMappingSlot => {
                assert(runtime_function_name(f)[2] != runtime_function_name(g)[2]);
            },
            RuntimeFunction::LocateStorageData => {
                assert(runtime_function_name(f)[0] != runtime_function_name(g)[0]);
            },
            _ => {},
        },
        _ => {},
    }
}

} // verus!
