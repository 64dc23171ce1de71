use move_bytecode_to_wasm::address::{Address, ModuleId};

#[test]
fn address_text_starts_at_last_nonzero_byte() {
    let mut bytes = [0u8; 32];
    bytes[31] = 2;
    assert_eq!(Address::from_bytes(bytes).to_text(), "0x02");
    let zero = Address::from_bytes([0u8; 32]);
    assert_eq!(zero.to_text(), "0x0");
    // Only the bytes from the last nonzero one on are written.
    let mut bytes = [0u8; 32];
    bytes[30] = 0x1f;
    bytes[31] = 0xab;
    assert_eq!(Address::from(bytes).to_text(), "0xab");
    let mut bytes = [0u8; 32];
    bytes[30] = 0x1f;
    assert_eq!(Address::from(bytes).to_text(), "0x1f0x00");
}

#[test]
fn module_id_text_and_default() {
    let mut bytes = [0u8; 32];
    bytes[31] = 1;
    let id = ModuleId { address: Address::from_bytes(bytes), module_name: "coin".to_string() };
    assert_eq!(id.to_text(), "0x01::coin");
    let d = ModuleId::default();
    assert_eq!(d.module_name, "default");
    assert!(d.address == Address::from_bytes([0u8; 32]));
    assert_eq!(d.to_text(), "0x0::default");
}

#[test]
fn module_ids_compare_by_address_and_name() {
    let a = ModuleId { address: Address::from_bytes([1u8; 32]), module_name: "m".to_string() };
    let b = a.clone();
    assert!(a == b);
    let c = ModuleId { address: Address::from_bytes([1u8; 32]), module_name: "n".to_string() };
    assert!(a != c);
    let d = ModuleId { address: Address::from_bytes([2u8; 32]), module_name: "m".to_string() };
    assert!(a != d);
}
