use move_bytecode_to_wasm::abi_types::type_mapping::map_move_type_to_sol_name;
use move_bytecode_to_wasm::move_model::SignatureToken;

#[test]
fn move_types_map_to_solidity_names() {
    assert_eq!(map_move_type_to_sol_name(&SignatureToken::Bool), "bool");
    assert_eq!(map_move_type_to_sol_name(&SignatureToken::U8), "uint8");
    assert_eq!(map_move_type_to_sol_name(&SignatureToken::U16), "uint16");
    assert_eq!(map_move_type_to_sol_name(&SignatureToken::U32), "uint32");
    assert_eq!(map_move_type_to_sol_name(&SignatureToken::U64), "uint64");
    assert_eq!(map_move_type_to_sol_name(&SignatureToken::U128), "uint128");
    assert_eq!(map_move_type_to_sol_name(&SignatureToken::U256), "uint256");
    assert_eq!(map_move_type_to_sol_name(&SignatureToken::Address), "address");
}

#[test]
fn vector_tokens_map_to_array_names() {
    let t = SignatureToken::Vector(Box::new(SignatureToken::Vector(Box::new(SignatureToken::U8))));
    assert_eq!(map_move_type_to_sol_name(&t), "uint8[][]");
    let t = SignatureToken::Vector(Box::new(SignatureToken::Address));
    assert_eq!(map_move_type_to_sol_name(&t), "address[]");
}
