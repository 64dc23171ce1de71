use move_bytecode_to_wasm::address::{Address, ModuleId};
use move_bytecode_to_wasm::compilation_context::error::CompilationContextError;
use move_bytecode_to_wasm::compilation_context::module_data::function_data::{FunctionId, GlobalFunctionTable};
use move_bytecode_to_wasm::compilation_context::module_data::{
    FunctionDefinitionError, InitFunctionError, ModuleData, UserDefinedType, is_one_time_witness,
};
use move_bytecode_to_wasm::compilation_context::{CompilationContext, StructRef};
use move_bytecode_to_wasm::intermediate_types::IntermediateType;
use move_bytecode_to_wasm::move_model::{
    ABILITY_DROP, ABILITY_KEY, ABILITY_STORE, CompiledModule, CompiledUnit, DatatypeHandle,
    EnumDefinition, FieldDefinition, FieldHandle, FieldInstantiation, FunctionDefinition,
    FunctionHandle, ModuleHandle, SignatureToken, StructDefInstantiation, StructDefinition,
    VariantDefinition, VariantHandle, Visibility,
};

fn address(last: u8) -> Address {
    let mut bytes = [0u8; 32];
    bytes[31] = last;
    Address::from_bytes(bytes)
}

fn counter_id() -> ModuleId {
    ModuleId { address: address(1), module_name: "counter".to_string() }
}

fn framework_id() -> ModuleId {
    ModuleId { address: address(2), module_name: "tx_context".to_string() }
}

fn strings(names: &[&str]) -> Vec<String> {
    names.iter().map(|s| s.to_string()).collect()
}

/// The Stylus framework's `tx_context` module, with its `TxContext` struct.
fn framework_unit() -> CompiledUnit {
    CompiledUnit {
        name: "tx_context".to_string(),
        address: address(2),
        module: CompiledModule {
            self_handle_idx: 0,
            module_handles: vec![ModuleHandle { address: 0, name: 0 }],
            datatype_handles: vec![DatatypeHandle { module: 0, name: 1, abilities: ABILITY_DROP, type_parameters: 0 }],
            function_handles: vec![],
            field_handles: vec![],
            variant_handles: vec![],
            struct_instantiations: vec![],
            function_instantiations: vec![],
            field_instantiations: vec![],
            signatures: vec![],
            identifiers: strings(&["tx_context", "TxContext"]),
            address_identifiers: vec![address(2)],
            struct_defs: vec![StructDefinition { struct_handle: 0, fields: Some(vec![]) }],
            enum_defs: vec![],
            function_defs: vec![],
        },
    }
}

fn private_def(function: u16) -> FunctionDefinition {
    FunctionDefinition {
        function,
        visibility: Visibility::Private,
        is_entry: false,
        acquires_global_resources: 0,
        code_locals: None,
    }
}

/// A module `counter` with a stored struct `Counter { value: u64 }`, a one-time witness
/// `COUNTER`, a generic struct `Box<T> { x: T }` instantiated as `Box<u64>`, an enum
/// `Color { Red, Green }`, an `init(COUNTER, &mut TxContext)` and an `increment(&mut Counter)`.
fn counter_module() -> CompiledModule {
    CompiledModule {
        self_handle_idx: 0,
        module_handles: vec![ModuleHandle { address: 0, name: 0 }, ModuleHandle { address: 1, name: 6 }],
        datatype_handles: vec![
            DatatypeHandle { module: 0, name: 1, abilities: ABILITY_KEY | ABILITY_STORE, type_parameters: 0 },
            DatatypeHandle { module: 0, name: 2, abilities: ABILITY_DROP, type_parameters: 0 },
            DatatypeHandle { module: 1, name: 7, abilities: ABILITY_DROP, type_parameters: 0 },
            DatatypeHandle { module: 0, name: 8, abilities: ABILITY_DROP, type_parameters: 0 },
            DatatypeHandle { module: 0, name: 9, abilities: ABILITY_DROP, type_parameters: 1 },
        ],
        function_handles: vec![
            FunctionHandle { module: 0, name: 3, parameters: 2, return_: 0 },
            FunctionHandle { module: 0, name: 4, parameters: 3, return_: 0 },
        ],
        field_handles: vec![FieldHandle { owner: 0, field: 0 }, FieldHandle { owner: 2, field: 0 }],
        variant_handles: vec![VariantHandle { enum_def: 0, variant: 1 }],
        struct_instantiations: vec![StructDefInstantiation { def: 2, type_parameters: 4 }],
        function_instantiations: vec![],
        field_instantiations: vec![FieldInstantiation { handle: 1, type_parameters: 4 }],
        signatures: vec![
            vec![],
            vec![SignatureToken::U64],
            vec![
                SignatureToken::Datatype(1),
                SignatureToken::MutableReference(Box::new(SignatureToken::Datatype(2))),
            ],
            vec![SignatureToken::MutableReference(Box::new(SignatureToken::Datatype(0)))],
            vec![SignatureToken::U64],
        ],
        identifiers: strings(&[
            "counter", "Counter", "COUNTER", "init", "increment", "value", "tx_context", "TxContext",
            "Color", "Box", "x", "dummy_field", "Red", "Green",
        ]),
        address_identifiers: vec![address(1), address(2)],
        struct_defs: vec![
            StructDefinition { struct_handle: 0, fields: Some(vec![FieldDefinition { name: 5, signature: SignatureToken::U64 }]) },
            StructDefinition { struct_handle: 1, fields: Some(vec![FieldDefinition { name: 11, signature: SignatureToken::Bool }]) },
            StructDefinition { struct_handle: 4, fields: Some(vec![FieldDefinition { name: 10, signature: SignatureToken::TypeParameter(0) }]) },
        ],
        enum_defs: vec![EnumDefinition {
            enum_handle: 3,
            variants: vec![
                VariantDefinition { variant_name: 12, fields: vec![] },
                VariantDefinition { variant_name: 13, fields: vec![] },
            ],
        }],
        function_defs: vec![
            private_def(0),
            FunctionDefinition { visibility: Visibility::Public, ..private_def(1) },
        ],
    }
}

fn build(module: &CompiledModule) -> Result<ModuleData, FunctionDefinitionError> {
    let mut table = GlobalFunctionTable::new();
    ModuleData::build_module_data(counter_id(), module, &[framework_unit()], &[], &mut table)
}

#[test]
fn one_time_witness_is_recognised() {
    let m = counter_module();
    assert!(is_one_time_witness(&m, 1));
    assert!(!is_one_time_witness(&m, 0));
    assert!(!is_one_time_witness(&m, 4));
}

#[test]
fn datatype_handles_resolve_to_their_definitions() {
    let m = counter_module();
    let map = ModuleData::process_datatype_handles(&counter_id(), &m, &[framework_unit()], &[]);
    assert_eq!(map.len(), 5);
    assert!(matches!(&map[0], UserDefinedType::Struct { module_id, index: 0 } if *module_id == counter_id()));
    assert!(matches!(&map[1], UserDefinedType::Struct { module_id, index: 1 } if *module_id == counter_id()));
    assert!(matches!(&map[2], UserDefinedType::Struct { module_id, index: 0 } if *module_id == framework_id()));
    assert!(matches!(&map[3], UserDefinedType::Enum(0)));
    assert!(matches!(&map[4], UserDefinedType::Struct { module_id, index: 2 } if *module_id == counter_id()));
}

#[test]
fn module_data_is_built() {
    let m = counter_module();
    let data = build(&m).ok().unwrap();
    assert!(data.id == counter_id());

    // Structs
    let structs = &data.structs;
    assert_eq!(structs.structs.len(), 3);
    assert_eq!(structs.structs[0].identifier, "Counter");
    assert_eq!(structs.structs[0].fields, vec![IntermediateType::IU64]);
    assert_eq!(structs.structs[0].field_handles, vec![Some(0)]);
    assert!(structs.structs[0].saved_in_storage);
    assert!(!structs.structs[0].is_one_time_witness);
    assert!(structs.structs[1].is_one_time_witness);
    assert!(!structs.structs[1].saved_in_storage);
    assert_eq!(structs.structs[2].fields, vec![IntermediateType::ITypeParameter(0)]);
    assert_eq!(structs.fields_to_struct, vec![Some(0), Some(2)]);
    assert_eq!(structs.generic_structs_instances.len(), 1);
    assert_eq!(structs.generic_structs_instances[0].0, 2);
    assert_eq!(structs.generic_structs_instances[0].1, vec![IntermediateType::IU64]);
    assert_eq!(structs.generic_fields_to_struct, vec![Some(0)]);
    assert_eq!(structs.instantiated_fields_to_generic_fields.len(), 1);
    assert_eq!(structs.instantiated_fields_to_generic_fields[0].0, 1);
    assert_eq!(structs.instantiated_fields_to_generic_fields[0].1, vec![IntermediateType::IU64]);

    // Enums
    assert_eq!(data.enums.enums.len(), 1);
    assert!(data.enums.enums[0].is_simple);
    assert_eq!(data.enums.enums[0].variants.len(), 2);
    assert_eq!(data.enums.enums[0].variants[1].index, 1);
    assert_eq!(data.enums.get_variant_position_by_variant_handle_idx(0).ok(), Some(1));
    assert_eq!(data.enums.get_enum_by_variant_handle_idx(0).ok().unwrap().index, 0);
    assert_eq!(data.enums.get_enum_by_index(0).ok().unwrap().index, 0);
    assert!(matches!(data.enums.get_enum_by_index(1), Err(CompilationContextError::EnumNotFound(1))));
    assert!(matches!(
        data.enums.get_enum_by_variant_handle_idx(5),
        Err(CompilationContextError::EnumWithVariantIdxNotFound(5))
    ));

    // Functions
    let counter_struct = IntermediateType::IStruct { module_id: counter_id(), index: 0 };
    let witness = IntermediateType::IStruct { module_id: counter_id(), index: 1 };
    let tx_context = IntermediateType::IStruct { module_id: framework_id(), index: 0 };
    assert_eq!(
        data.functions.arguments,
        vec![
            vec![witness, IntermediateType::IMutRef(Box::new(tx_context))],
            vec![IntermediateType::IMutRef(Box::new(counter_struct))],
        ]
    );
    assert_eq!(data.functions.returns, vec![Vec::<IntermediateType>::new(), vec![]]);
    assert_eq!(data.functions.calls.len(), 2);
    assert_eq!(data.functions.calls[1].identifier, "increment");
    assert!(data.functions.calls[1].module_id == counter_id());
    let init = data.functions.init.as_ref().unwrap();
    assert_eq!(init.identifier, "init");
    assert!(data.functions.generic_calls.is_empty());

    // Signatures
    assert_eq!(data.signatures.len(), 5);
    assert_eq!(data.get_signatures_by_index(1).ok().unwrap(), &vec![IntermediateType::IU64]);
    assert!(matches!(data.get_signatures_by_index(5), Err(CompilationContextError::SignatureNotFound(5))));
}

#[test]
fn struct_lookups() {
    let m = counter_module();
    let data = build(&m).ok().unwrap();
    let structs = &data.structs;
    assert_eq!(structs.get_by_index(0).ok().unwrap().identifier, "Counter");
    assert_eq!(structs.get_by_struct_definition_idx(2).ok().unwrap().identifier, "Box");
    assert_eq!(structs.get_by_field_handle_idx(1).ok().unwrap().identifier, "Box");
    assert!(matches!(structs.get_by_index(7), Err(CompilationContextError::StructNotFound(7))));
    assert!(matches!(
        structs.get_by_struct_definition_idx(7),
        Err(CompilationContextError::StructWithDefinitionIdxNotFound(7))
    ));
    assert!(matches!(
        structs.get_by_field_handle_idx(4),
        Err(CompilationContextError::StructWithFieldIdxNotFound(4))
    ));

    let instance = structs.get_struct_instance_by_struct_definition_idx(0).ok().unwrap();
    assert_eq!(instance.identifier, "Box");
    assert_eq!(instance.fields, vec![IntermediateType::IU64]);
    let instance = structs.get_struct_instance_by_field_handle_idx(0).ok().unwrap();
    assert_eq!(instance.fields, vec![IntermediateType::IU64]);
    assert!(matches!(
        structs.get_struct_instance_by_field_handle_idx(3),
        Err(CompilationContextError::GenericStructWithFieldIdxNotFound(3))
    ));
    assert_eq!(structs.get_generic_struct_types_instances(0).ok().unwrap(), &[IntermediateType::IU64]);
    assert_eq!(structs.get_generic_struct_idx_by_struct_definition_idx(0), 2);
}

#[test]
fn public_init_is_rejected() {
    let mut m = counter_module();
    m.function_defs[0].visibility = Visibility::Public;
    assert!(matches!(build(&m), Err(FunctionDefinitionError::InvalidInit(InitFunctionError::NotPrivate))));
}

#[test]
fn init_returning_values_is_rejected() {
    let mut m = counter_module();
    m.function_handles[0].return_ = 1;
    assert!(matches!(build(&m), Err(FunctionDefinitionError::InvalidInit(InitFunctionError::ReturnsValues))));
}

#[test]
fn init_without_tx_context_is_rejected() {
    let mut m = counter_module();
    m.signatures[2] = vec![SignatureToken::Datatype(1), SignatureToken::U64];
    assert!(matches!(build(&m), Err(FunctionDefinitionError::InvalidInit(InitFunctionError::InvalidArguments))));
}

#[test]
fn init_with_a_non_witness_first_argument_is_rejected() {
    let mut m = counter_module();
    m.signatures[2][0] = SignatureToken::Datatype(0);
    assert!(matches!(build(&m), Err(FunctionDefinitionError::InvalidInit(InitFunctionError::InvalidArguments))));
}

#[test]
fn init_needs_the_framework() {
    let m = counter_module();
    let framework_as_root = [framework_unit()];
    let mut table = GlobalFunctionTable::new();
    let r = ModuleData::build_module_data(counter_id(), &m, &[], &framework_as_root, &mut table);
    assert!(table.entries.is_empty());
    assert!(matches!(r, Err(FunctionDefinitionError::InvalidInit(InitFunctionError::FrameworkNotFound))));
}

#[test]
fn a_second_init_is_rejected() {
    let mut m = counter_module();
    m.function_handles[1] = FunctionHandle { module: 0, name: 3, parameters: 2, return_: 0 };
    m.function_defs[1] = private_def(1);
    assert!(matches!(build(&m), Err(FunctionDefinitionError::MultipleInit)));
}

#[test]
fn acquiring_global_resources_is_rejected() {
    let mut m = counter_module();
    m.function_defs[1].acquires_global_resources = 1;
    assert!(matches!(build(&m), Err(FunctionDefinitionError::AcquiresGlobalResources)));
}

#[test]
fn module_without_init() {
    let mut m = counter_module();
    m.identifiers[3] = "setup".to_string();
    let data = build(&m).ok().unwrap();
    assert!(data.functions.init.is_none());
}

#[test]
fn is_init_checks_a_single_function() {
    let m = counter_module();
    let deps = [framework_unit()];
    let map = ModuleData::process_datatype_handles(&counter_id(), &m, &deps, &[]);
    let init_id = FunctionId { identifier: "init".to_string(), module_id: counter_id(), type_instantiations: None };
    let other_id = FunctionId { identifier: "other".to_string(), module_id: counter_id(), type_instantiations: None };
    let def = private_def(0);
    let tx_ref = vec![SignatureToken::Reference(Box::new(SignatureToken::Datatype(2)))];
    assert_eq!(ModuleData::is_init(&init_id, &tx_ref, &vec![], &def, &map, &m, &deps), Ok(true));
    assert_eq!(ModuleData::is_init(&other_id, &vec![], &vec![SignatureToken::U8], &def, &map, &m, &deps), Ok(false));
    assert_eq!(
        ModuleData::is_init(&init_id, &vec![], &vec![], &def, &map, &m, &deps),
        Err(InitFunctionError::InvalidArguments)
    );
    let unknown = vec![SignatureToken::Reference(Box::new(SignatureToken::Datatype(40)))];
    assert!(matches!(
        ModuleData::is_init(&init_id, &unknown, &vec![], &def, &map, &m, &deps),
        Err(InitFunctionError::UnknownType(_))
    ));
}

#[test]
fn compilation_context_lookups() {
    let m = counter_module();
    let root = build(&m).ok().unwrap();
    let deps: Vec<ModuleData> = vec![];
    let ctx = CompilationContext::new(&root, &deps, 0u32, 1u32);
    assert_eq!(ctx.memory_id, 0);
    assert_eq!(ctx.allocator, 1);
    assert!(ctx.get_module_data_by_id(&counter_id()).ok().unwrap().id == counter_id());
    assert!(matches!(
        ctx.get_module_data_by_id(&framework_id()),
        Err(CompilationContextError::ModuleNotFound(id)) if id == framework_id()
    ));
    assert_eq!(ctx.get_struct_by_index(&counter_id(), 1).ok().unwrap().identifier, "COUNTER");

    let concrete = IntermediateType::IStruct { module_id: counter_id(), index: 0 };
    match ctx.get_struct_by_intermediate_type(&concrete) {
        Ok(StructRef::Borrowed(s)) => assert_eq!(s.identifier, "Counter"),
        _ => panic!("expected a borrowed struct"),
    }
    let generic = IntermediateType::IGenericStructInstance {
        module_id: counter_id(),
        index: 2,
        types: vec![IntermediateType::IAddress],
    };
    match ctx.get_struct_by_intermediate_type(&generic) {
        Ok(StructRef::Owned(s)) => {
            assert_eq!(s.identifier, "Box");
            assert_eq!(s.fields, vec![IntermediateType::IAddress]);
        },
        _ => panic!("expected an instantiated struct"),
    }
    assert!(matches!(
        ctx.get_struct_by_intermediate_type(&IntermediateType::IU8),
        Err(CompilationContextError::ExpectedStruct)
    ));
    let missing = IntermediateType::IStruct { module_id: counter_id(), index: 9 };
    assert!(matches!(
        ctx.get_struct_by_intermediate_type(&missing),
        Err(CompilationContextError::StructNotFound(9))
    ));
}

#[test]
fn dependencies_are_looked_up_first() {
    let m = counter_module();
    let root = build(&m).ok().unwrap();
    let dep = build(&m).ok().unwrap();
    let mut renamed = dep;
    renamed.id = framework_id();
    renamed.structs.structs[0].identifier = "Renamed".to_string();
    let deps = vec![renamed];
    let ctx = CompilationContext::new(&root, &deps, (), ());
    assert!(ctx.get_module_data_by_id(&framework_id()).ok().unwrap().id == framework_id());
    assert_eq!(ctx.get_struct_by_index(&framework_id(), 0).ok().unwrap().identifier, "Renamed");
    // A module that is not a dependency is looked up in the root module.
    assert_eq!(ctx.get_struct_by_index(&counter_id(), 0).ok().unwrap().identifier, "Counter");
}

#[test]
fn own_functions_fill_the_function_table() {
    let m = counter_module();
    let mut table = GlobalFunctionTable::new();
    let data = ModuleData::build_module_data(counter_id(), &m, &[framework_unit()], &[], &mut table).ok().unwrap();
    assert_eq!(table.entries.len(), 2);
    assert_eq!(table.entries[0].0.identifier, data.functions.calls[0].identifier);
    assert_eq!(table.entries[0].1, 0);
    assert_eq!(table.entries[1].0.identifier, data.functions.calls[1].identifier);
    assert_eq!(table.entries[1].1, 1);
    assert_eq!(table.entries[0].0.identifier, "init");
    assert_eq!(table.entries[1].0.identifier, "increment");
    assert!(table.entries[0].0.module_id == counter_id());
    assert!(table.entries[0].0.type_instantiations.is_none());
    // A second module adds its entries after those already there
    let again = ModuleData::build_module_data(counter_id(), &m, &[framework_unit()], &[], &mut table);
    assert!(again.is_ok());
    assert_eq!(table.entries.len(), 4);
}

#[test]
fn a_rejected_module_leaves_the_function_table_alone() {
    let mut m = counter_module();
    m.function_defs[1].acquires_global_resources = 1;
    let mut table = GlobalFunctionTable::new();
    let r = ModuleData::build_module_data(counter_id(), &m, &[framework_unit()], &[], &mut table);
    assert!(matches!(r, Err(FunctionDefinitionError::AcquiresGlobalResources)));
    assert!(table.entries.is_empty());
}

/// A module `palette` with two enums, `Hue` and `Tone`.
fn palette_unit() -> CompiledUnit {
    let variants = || vec![VariantDefinition { variant_name: 3, fields: vec![] }];
    CompiledUnit {
        name: "palette".to_string(),
        address: address(3),
        module: CompiledModule {
            self_handle_idx: 0,
            module_handles: vec![ModuleHandle { address: 0, name: 0 }],
            datatype_handles: vec![
                DatatypeHandle { module: 0, name: 1, abilities: ABILITY_DROP, type_parameters: 0 },
                DatatypeHandle { module: 0, name: 2, abilities: ABILITY_DROP, type_parameters: 0 },
            ],
            function_handles: vec![],
            field_handles: vec![],
            variant_handles: vec![],
            struct_instantiations: vec![],
            function_instantiations: vec![],
            field_instantiations: vec![],
            signatures: vec![],
            identifiers: strings(&["palette", "Hue", "Tone", "Red"]),
            address_identifiers: vec![address(3)],
            struct_defs: vec![],
            enum_defs: vec![
                EnumDefinition { enum_handle: 0, variants: variants() },
                EnumDefinition { enum_handle: 1, variants: variants() },
            ],
            function_defs: vec![],
        },
    }
}

#[test]
fn an_external_enum_is_found_in_its_own_module() {
    let mut m = counter_module();
    m.identifiers.push("palette".to_string());
    m.identifiers.push("Tone".to_string());
    m.address_identifiers.push(address(3));
    m.module_handles.push(ModuleHandle { address: 2, name: 14 });
    m.datatype_handles.push(DatatypeHandle { module: 2, name: 15, abilities: ABILITY_DROP, type_parameters: 0 });
    let map = ModuleData::process_datatype_handles(&counter_id(), &m, &[framework_unit(), palette_unit()], &[]);
    assert_eq!(map.len(), 6);
    // `Tone` is the second enum of `palette`; `counter` has a single enum
    assert!(matches!(&map[5], UserDefinedType::Enum(1)));
    assert!(matches!(&map[3], UserDefinedType::Enum(0)));
}
