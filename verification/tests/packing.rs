use move_bytecode_to_wasm::abi_types::packing::tuple_head_size_of;
use move_bytecode_to_wasm::intermediate_types::IntermediateType;

#[test]
fn every_known_type_is_encoded_in_32_bytes() {
    let types = vec![
        IntermediateType::IBool,
        IntermediateType::IU8,
        IntermediateType::IU16,
        IntermediateType::IU32,
        IntermediateType::IU64,
        IntermediateType::IU128,
        IntermediateType::IU256,
        IntermediateType::IAddress,
        IntermediateType::ISigner,
        IntermediateType::IEnum(3),
        IntermediateType::IVector(Box::new(IntermediateType::IU8)),
        IntermediateType::IRef(Box::new(IntermediateType::IU64)),
        IntermediateType::IMutRef(Box::new(IntermediateType::IVector(Box::new(IntermediateType::IU8)))),
    ];
    for t in &types {
        assert_eq!(t.encoded_size(), 32);
    }
}

#[test]
fn only_vectors_are_dynamic() {
    assert!(!IntermediateType::IU64.is_dynamic());
    assert!(!IntermediateType::IAddress.is_dynamic());
    assert!(IntermediateType::IVector(Box::new(IntermediateType::IU8)).is_dynamic());
    assert!(IntermediateType::IRef(Box::new(IntermediateType::IVector(Box::new(IntermediateType::IU8)))).is_dynamic());
    assert!(!IntermediateType::IMutRef(Box::new(IntermediateType::IU128)).is_dynamic());
}

#[test]
fn tuple_head_takes_32_bytes_per_value() {
    assert_eq!(tuple_head_size_of(&[]), 0);
    let signature = vec![
        IntermediateType::IU8,
        IntermediateType::IVector(Box::new(IntermediateType::IU128)),
        IntermediateType::IAddress,
    ];
    assert_eq!(tuple_head_size_of(&signature), 96);
}
