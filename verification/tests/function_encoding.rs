use move_bytecode_to_wasm::abi_types::function_encoding::{
    SolName, move_signature_to_abi_selector, selector,
};
use move_bytecode_to_wasm::intermediate_types::IntermediateType;
use move_bytecode_to_wasm::utils::snake_to_camel;

#[test]
fn test_move_signature_to_abi_selector() {
    let signature: &[IntermediateType] = &[IntermediateType::IU8, IntermediateType::IU16];
    assert_eq!(
        move_signature_to_abi_selector("test", signature),
        selector("test(uint8,uint16)")
    );

    let signature: &[IntermediateType] = &[IntermediateType::IAddress, IntermediateType::IU256];
    assert_eq!(
        move_signature_to_abi_selector("transfer", signature),
        selector("transfer(address,uint256)")
    );

    let signature: &[IntermediateType] = &[
        IntermediateType::IVector(Box::new(IntermediateType::IU128)),
        IntermediateType::IVector(Box::new(IntermediateType::IBool)),
    ];
    assert_eq!(
        move_signature_to_abi_selector("test_array", signature),
        selector("testArray(uint128[],bool[])")
    );

    let signature: &[IntermediateType] = &[
        IntermediateType::IVector(Box::new(IntermediateType::IVector(Box::new(
            IntermediateType::IU128,
        )))),
        IntermediateType::IVector(Box::new(IntermediateType::IBool)),
    ];
    assert_eq!(
        move_signature_to_abi_selector("test_array", signature),
        selector("testArray(uint128[][],bool[])")
    );
}

#[test]
fn selector_is_the_known_erc20_transfer_selector() {
    // The selector of `transfer(address,uint256)` is 0xa9059cbb.
    assert_eq!(selector("transfer(address,uint256)"), [0xa9, 0x05, 0x9c, 0xbb]);
    // The selector of `balanceOf(address)` is 0x70a08231.
    let signature: &[IntermediateType] = &[IntermediateType::IAddress];
    assert_eq!(
        move_signature_to_abi_selector("balance_of", signature),
        [0x70, 0xa0, 0x82, 0x31]
    );
}

#[test]
fn selector_of_function_without_parameters() {
    let signature: &[IntermediateType] = &[];
    // `totalSupply()` has the selector 0x18160ddd.
    assert_eq!(
        move_signature_to_abi_selector("total_supply", signature),
        [0x18, 0x16, 0x0d, 0xdd]
    );
    assert_eq!(move_signature_to_abi_selector("total_supply", signature), selector("totalSupply()"));
}

#[test]
fn solidity_names_of_intermediate_types() {
    assert_eq!(IntermediateType::IBool.sol_name(), "bool");
    assert_eq!(IntermediateType::IU8.sol_name(), "uint8");
    assert_eq!(IntermediateType::IU16.sol_name(), "uint16");
    assert_eq!(IntermediateType::IU32.sol_name(), "uint32");
    assert_eq!(IntermediateType::IU64.sol_name(), "uint64");
    assert_eq!(IntermediateType::IU128.sol_name(), "uint128");
    assert_eq!(IntermediateType::IU256.sol_name(), "uint256");
    assert_eq!(IntermediateType::IAddress.sol_name(), "address");
    let nested = IntermediateType::IVector(Box::new(IntermediateType::IVector(Box::new(
        IntermediateType::IU32,
    ))));
    assert_eq!(nested.sol_name(), "uint32[][]");
}

#[test]
fn snake_case_names_become_camel_case() {
    assert_eq!(snake_to_camel("test_array"), "testArray");
    assert_eq!(snake_to_camel("balance_of"), "balanceOf");
    assert_eq!(snake_to_camel("get_a_b"), "getAB");
    assert_eq!(snake_to_camel("plain"), "plain");
    assert_eq!(snake_to_camel(""), "");
    assert_eq!(snake_to_camel("trailing_"), "trailing");
}
