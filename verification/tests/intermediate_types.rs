use move_bytecode_to_wasm::address::ModuleId;
use move_bytecode_to_wasm::compilation_context::module_data::UserDefinedType;
use move_bytecode_to_wasm::intermediate_types::{IEnum, IEnumVariant, IStruct, IntermediateType, TypeConversionError};
use move_bytecode_to_wasm::move_model::SignatureToken;
use move_bytecode_to_wasm::vm_handled_datatypes::TxContext;

fn handles() -> Vec<UserDefinedType> {
    vec![
        UserDefinedType::Struct { module_id: ModuleId::default(), index: 4 },
        UserDefinedType::Enum(2),
    ]
}

#[test]
fn tokens_convert_to_intermediate_types() {
    let map = handles();
    let t = SignatureToken::Vector(Box::new(SignatureToken::Reference(Box::new(SignatureToken::U16))));
    assert_eq!(
        IntermediateType::try_from_signature_token(&t, &map),
        Ok(IntermediateType::IVector(Box::new(IntermediateType::IRef(Box::new(IntermediateType::IU16)))))
    );
    assert_eq!(
        IntermediateType::try_from_signature_token(&SignatureToken::Datatype(0), &map),
        Ok(IntermediateType::IStruct { module_id: ModuleId::default(), index: 4 })
    );
    assert_eq!(
        IntermediateType::try_from_signature_token(&SignatureToken::Datatype(1), &map),
        Ok(IntermediateType::IEnum(2))
    );
    let generic = SignatureToken::DatatypeInstantiation(0, vec![SignatureToken::U8, SignatureToken::TypeParameter(0)]);
    assert_eq!(
        IntermediateType::try_from_signature_token(&generic, &map),
        Ok(IntermediateType::IGenericStructInstance {
            module_id: ModuleId::default(),
            index: 4,
            types: vec![IntermediateType::IU8, IntermediateType::ITypeParameter(0)],
        })
    );
}

#[test]
fn unknown_datatypes_and_generic_enums_are_errors() {
    let map = handles();
    assert_eq!(
        IntermediateType::try_from_signature_token(&SignatureToken::Datatype(7), &map),
        Err(TypeConversionError::DatatypeNotFound(7))
    );
    let generic_enum = SignatureToken::DatatypeInstantiation(1, vec![SignatureToken::U8]);
    assert_eq!(
        IntermediateType::try_from_signature_token(&generic_enum, &map),
        Err(TypeConversionError::GenericEnumNotSupported(1))
    );
}

#[test]
fn enums_without_fields_are_simple() {
    let simple = IEnum::new(0, vec![IEnumVariant::new(0, 0, vec![]), IEnumVariant::new(1, 0, vec![])]);
    assert!(simple.is_simple);
    let with_fields = IEnum::new(1, vec![IEnumVariant::new(0, 1, vec![]), IEnumVariant::new(1, 1, vec![IntermediateType::IU8])]);
    assert!(!with_fields.is_simple);
}

#[test]
fn structs_are_instantiated_field_by_field() {
    let s = IStruct {
        struct_definition_index: 3,
        identifier: "Pair".to_string(),
        fields: vec![IntermediateType::ITypeParameter(1), IntermediateType::IVector(Box::new(IntermediateType::ITypeParameter(0)))],
        field_handles: vec![Some(5), None],
        saved_in_storage: true,
        is_one_time_witness: false,
    };
    let instance = s.instantiate(&[IntermediateType::IU8, IntermediateType::IBool]);
    assert_eq!(instance.index(), 3);
    assert_eq!(instance.identifier, "Pair");
    assert_eq!(instance.fields, vec![IntermediateType::IBool, IntermediateType::IVector(Box::new(IntermediateType::IU8))]);
    assert_eq!(instance.field_handles, vec![Some(5), None]);
    assert!(instance.saved_in_storage);
}

#[test]
fn only_the_framework_tx_context_is_the_transaction_context() {
    let framework = TxContext::tx_context_module();
    assert_eq!(framework.module_name, "tx_context");
    assert_eq!(framework.to_text(), "0x02::tx_context");
    assert!(TxContext::struct_is_tx_context(&framework, "TxContext"));
    assert!(!TxContext::struct_is_tx_context(&framework, "Other"));
    assert!(!TxContext::struct_is_tx_context(&ModuleId::default(), "Other"));
}
