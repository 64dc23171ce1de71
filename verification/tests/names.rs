use move_bytecode_to_wasm::intermediate_types::IntermediateType;
use move_bytecode_to_wasm::names::{generic_function_name_from_hash, get_generic_function_name};
use move_bytecode_to_wasm::native_functions::NativeFunction;
use move_bytecode_to_wasm::runtime::RuntimeFunction;

#[test]
fn generic_name_is_base_and_hex_hash() {
    assert_eq!(generic_function_name_from_hash("foo", 0), "foo_0");
    assert_eq!(generic_function_name_from_hash("foo", 255), "foo_ff");
    assert_eq!(generic_function_name_from_hash("bar", 0x1a2b), "bar_1a2b");
    assert_eq!(generic_function_name_from_hash("x", u64::MAX), "x_ffffffffffffffff");
}

#[test]
fn generic_names_depend_on_the_types() {
    let a = get_generic_function_name("f", &[&IntermediateType::IU8]);
    let b = get_generic_function_name("f", &[&IntermediateType::IU8]);
    let c = get_generic_function_name("f", &[&IntermediateType::IU64]);
    assert_eq!(a, b);
    assert_ne!(a, c);
    assert!(a.starts_with("f_"));
    assert!(a[2..].chars().all(|ch| ch.is_ascii_hexdigit() && !ch.is_ascii_uppercase()));
}

#[test]
fn runtime_function_names() {
    assert_eq!(RuntimeFunction::AddU32.name(), "add_u32");
    assert_eq!(RuntimeFunction::SwapI32Bytes.name(), "swap_i32_bytes");
    assert_eq!(RuntimeFunction::HeapIntSum.name(), "heap_integer_add");
    assert_eq!(RuntimeFunction::DeleteFromStorage.name(), "delete_from_storage");
}

#[test]
fn runtime_function_names_are_distinct() {
    let all = [
        RuntimeFunction::HeapIntSum, RuntimeFunction::HeapIntShiftLeft, RuntimeFunction::HeapIntShiftRight,
        RuntimeFunction::AddU32, RuntimeFunction::AddU64, RuntimeFunction::CheckOverflowU8U16,
        RuntimeFunction::DowncastU64ToU32, RuntimeFunction::DowncastU128U256ToU32,
        RuntimeFunction::DowncastU128U256ToU64, RuntimeFunction::SubU32, RuntimeFunction::SubU64,
        RuntimeFunction::HeapIntSub, RuntimeFunction::HeapIntDivMod, RuntimeFunction::MulU32,
        RuntimeFunction::MulU64, RuntimeFunction::HeapIntMul, RuntimeFunction::LessThan,
        RuntimeFunction::SwapI32Bytes, RuntimeFunction::SwapI64Bytes, RuntimeFunction::SwapI128Bytes,
        RuntimeFunction::SwapI256Bytes, RuntimeFunction::CopyU128, RuntimeFunction::CopyU256,
        RuntimeFunction::HeapTypeEquality, RuntimeFunction::VecEqualityHeapType, RuntimeFunction::IsZero,
        RuntimeFunction::VecSwap32, RuntimeFunction::VecSwap64, RuntimeFunction::VecPopBack32,
        RuntimeFunction::VecPopBack64, RuntimeFunction::VecBorrow, RuntimeFunction::VecIncrementLen,
        RuntimeFunction::VecDecrementLen, RuntimeFunction::StorageNextSlot, RuntimeFunction::DeriveMappingSlot,
        RuntimeFunction::DeriveDynArraySlot, RuntimeFunction::WriteObjectSlot, RuntimeFunction::LocateStorageData,
        RuntimeFunction::LocateStructSlot, RuntimeFunction::GetIdBytesPtr, RuntimeFunction::EncodeAndSaveInStorage,
        RuntimeFunction::DecodeAndReadFromStorage, RuntimeFunction::DeleteFromStorage,
    ];
    for i in 0..all.len() {
        for j in 0..all.len() {
            if i != j {
                assert_ne!(all[i].name(), all[j].name());
            }
        }
    }
}

#[test]
fn native_functions_map_to_host_functions() {
    assert_eq!(NativeFunction::host_fn_name("native_block_number"), Some("block_number"));
    assert_eq!(NativeFunction::host_fn_name("native_block_gas_limit"), Some("block_gas_limit"));
    assert_eq!(NativeFunction::host_fn_name("native_block_timestamp"), Some("block_timestamp"));
    assert_eq!(NativeFunction::host_fn_name("native_chain_id"), Some("chainid"));
    assert_eq!(NativeFunction::host_fn_name("native_sender"), None);
    assert_eq!(NativeFunction::host_fn_name(""), None);
}
