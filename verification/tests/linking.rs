use move_bytecode_to_wasm::runtime::RuntimeFunction;
use move_bytecode_to_wasm::runtime::link::linking_plan;

fn names(plan: &[RuntimeFunction]) -> Vec<&'static str> {
    plan.iter().map(|f| f.name()).collect()
}

#[test]
fn a_function_is_linked_after_the_functions_it_calls() {
    let plan = linking_plan(RuntimeFunction::VecSwap32, &vec![]);
    assert_eq!(names(&plan), vec!["downcast_u64_to_u32", "vec_swap_32"]);
}

#[test]
fn a_present_callee_is_not_linked_again() {
    let plan = linking_plan(RuntimeFunction::VecSwap64, &vec!["downcast_u64_to_u32".to_string()]);
    assert_eq!(names(&plan), vec!["vec_swap_64"]);
}

#[test]
fn linking_a_present_function_adds_nothing() {
    let present = vec!["allocator".to_string(), "vec_swap_32".to_string()];
    assert!(linking_plan(RuntimeFunction::VecSwap32, &present).is_empty());
    // Carrying out a plan and planning again adds nothing
    let plan = linking_plan(RuntimeFunction::SwapI64Bytes, &vec![]);
    assert_eq!(names(&plan), vec!["swap_i32_bytes", "swap_i64_bytes"]);
    let after: Vec<String> = names(&plan).iter().map(|s| s.to_string()).collect();
    assert!(linking_plan(RuntimeFunction::SwapI64Bytes, &after).is_empty());
}
