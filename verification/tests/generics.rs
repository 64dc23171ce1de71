use move_bytecode_to_wasm::address::ModuleId;
use move_bytecode_to_wasm::generics::{
    extract_generic_type_parameters, extract_type_instances_from_stack, instantiate_vec_type_parameters,
    replace_type_parameters, type_contains_generics,
};
use move_bytecode_to_wasm::intermediate_types::IntermediateType;

#[test]
fn vector_of_type_parameter_contains_generics() {
    let t = IntermediateType::IVector(Box::new(IntermediateType::ITypeParameter(0)));
    assert!(type_contains_generics(&t));
    assert!(!type_contains_generics(&IntermediateType::IU64));
    assert_eq!(extract_generic_type_parameters(&t), vec![IntermediateType::ITypeParameter(0)]);
    let inst = IntermediateType::IVector(Box::new(IntermediateType::IU64));
    assert_eq!(extract_type_instances_from_stack(&t, &inst), Some(IntermediateType::IU64));
}

#[test]
fn type_parameters_are_replaced_by_their_instances() {
    let t = IntermediateType::IRef(Box::new(IntermediateType::IVector(Box::new(
        IntermediateType::ITypeParameter(1),
    ))));
    let instances = vec![IntermediateType::IU8, IntermediateType::IAddress];
    assert_eq!(
        replace_type_parameters(&t, &instances),
        IntermediateType::IRef(Box::new(IntermediateType::IVector(Box::new(IntermediateType::IAddress))))
    );
    // A concrete type is left as it is.
    assert_eq!(replace_type_parameters(&IntermediateType::IU128, &instances), IntermediateType::IU128);
}

#[test]
fn type_parameters_are_found_inside_generic_structs() {
    let s = IntermediateType::IGenericStructInstance {
        module_id: ModuleId::default(),
        index: 0,
        types: vec![IntermediateType::ITypeParameter(1), IntermediateType::IU8, IntermediateType::ITypeParameter(0)],
    };
    assert!(type_contains_generics(&s));
    assert_eq!(
        extract_generic_type_parameters(&s),
        vec![IntermediateType::ITypeParameter(1), IntermediateType::ITypeParameter(0)]
    );
    let concrete = IntermediateType::IGenericStructInstance {
        module_id: ModuleId::default(),
        index: 0,
        types: vec![IntermediateType::IU16],
    };
    assert!(!type_contains_generics(&concrete));
    assert!(extract_generic_type_parameters(&concrete).is_empty());
}

#[test]
fn instances_are_read_from_the_stack_type() {
    let generic = IntermediateType::IMutRef(Box::new(IntermediateType::ITypeParameter(0)));
    let on_stack = IntermediateType::IMutRef(Box::new(IntermediateType::IU32));
    assert_eq!(extract_type_instances_from_stack(&generic, &on_stack), Some(IntermediateType::IU32));
    // A shape that does not match gives nothing.
    assert_eq!(extract_type_instances_from_stack(&generic, &IntermediateType::IU32), None);
    assert_eq!(extract_type_instances_from_stack(&IntermediateType::IU8, &IntermediateType::IU8), None);
}

#[test]
fn vector_element_types_are_instantiated() {
    let inner = IntermediateType::IVector(Box::new(IntermediateType::ITypeParameter(0)));
    let instances = vec![IntermediateType::IU64];
    assert_eq!(
        instantiate_vec_type_parameters(&inner, &instances),
        IntermediateType::IVector(Box::new(IntermediateType::IU64))
    );
    assert_eq!(instantiate_vec_type_parameters(&IntermediateType::IBool, &instances), IntermediateType::IBool);
    // Each parameter takes the instance at its own index.
    let instances = vec![IntermediateType::IU8, IntermediateType::IU64];
    assert_eq!(
        instantiate_vec_type_parameters(&IntermediateType::ITypeParameter(1), &instances),
        IntermediateType::IU64
    );
    let swapped = IntermediateType::IRef(Box::new(IntermediateType::IVector(Box::new(IntermediateType::ITypeParameter(1)))));
    assert_eq!(
        instantiate_vec_type_parameters(&swapped, &instances),
        IntermediateType::IRef(Box::new(IntermediateType::IVector(Box::new(IntermediateType::IU64))))
    );
}
