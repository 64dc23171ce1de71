//! What linking a runtime function into a module takes: the instructions of each function this
//! library builds, and the functions it calls, by their position in its list of callees.
use vstd::prelude::*;

use crate::runtime::{RuntimeFunction, runtime_function_name};
use crate::runtime::copy::{copy_u128_code, copy_u128_function, copy_u256_code, copy_u256_function};
use crate::runtime::equality::{
    a_equals_b, a_equals_b_code, elems_equal, elems_in_memory, law_vec_equality_heap_type, vec_equality_heap_type,
    vec_equality_heap_type_code,
};
use crate::runtime::integers::add::{add_u32, add_u32_code, add_u64, add_u64_code, heap_integers_add, heap_integers_add_code};
use crate::runtime::integers::sub::{heap_integers_sub, heap_integers_sub_code, sub_u32, sub_u32_code, sub_u64, sub_u64_code};
use crate::runtime::integers::{
    check_if_a_less_than_b, check_if_a_less_than_b_code,
    check_overflow_u8_u16, check_overflow_u8_u16_code, downcast_u128_u256_to_u32, downcast_u128_u256_to_u64,
    downcast_u64_to_u32, downcast_u64_to_u32_code, heap_downcast_code,
};
use crate::runtime::storage::{
    derive_mapping_slot, derive_mapping_slot_code, get_id_bytes_ptr, get_id_bytes_ptr_code, locate_struct_slot,
    locate_struct_slot_code,
};
use crate::runtime::swap::{
    bswap64, law_swap_i64_bytes, swap_i32_bytes_code, swap_i32_bytes_function, swap_i64_bytes_code, swap_i64_bytes_function,
};
use crate::runtime::vector::{
    decrement_vec_len_code, decrement_vec_len_function, increment_vec_len_code, increment_vec_len_function,
    vec_borrow_code, vec_borrow_function, vec_pop_back_32_function, vec_pop_back_64_function,
    vec_pop_back_code, vec_swap_32_function, vec_swap_64_function, vec_swap_code,
    law_vec_pop_back, law_vec_swap, pop_back_result, swap_result, vec_in_memory,
};
use crate::wasm::{Completion, FunctionBody, FunctionView, InstrView, ValType, Value, args1, args3, args4, byte_width, invoke};
use crate::text::str_equals;

verus! {

/// A function of the host that a runtime function imports.
#[derive(PartialEq, Eq, Structural, Debug, Clone, Copy)]
pub enum HostFunction {
    /// Writes the keccak-256 hash of the bytes at an address, of a length, to a third address.
    NativeKeccak256,
}

impl HostFunction {
    /// The name under which the host exports this function.
    pub fn import_name(&self) -> (r: &'static str)
        ensures
            r@ == seq!['n', 'a', 't', 'i', 'v', 'e', '_', 'k', 'e', 'c', 'c', 'a', 'k', '2', '5', '6'],
    {
        let r = match self {
            HostFunction::NativeKeccak256 => "native_keccak256",
        };
        proof {
            reveal_strlit("native_keccak256");
        }
        r
    }
}

/// A function that a runtime function calls: another runtime function, the module's memory
/// allocator, or a function of the host.
#[derive(PartialEq, Eq, Structural, Debug, Clone, Copy)]
pub enum Callee {
    Runtime(RuntimeFunction),
    Allocator,
    Host(HostFunction),
}

/// The instructions of runtime function `f`, for the functions this library builds.
pub open spec fn runtime_function_code(f: RuntimeFunction) -> Option<FunctionView> {
    match f {
        RuntimeFunction::HeapIntSum => Some(heap_integers_add_code()),
        RuntimeFunction::HeapIntSub => Some(heap_integers_sub_code()),
        RuntimeFunction::AddU32 => Some(add_u32_code()),
        RuntimeFunction::AddU64 => Some(add_u64_code()),
        RuntimeFunction::SubU32 => Some(sub_u32_code()),
        RuntimeFunction::SubU64 => Some(sub_u64_code()),
        RuntimeFunction::CheckOverflowU8U16 => Some(check_overflow_u8_u16_code()),
        RuntimeFunction::DowncastU64ToU32 => Some(downcast_u64_to_u32_code()),
        RuntimeFunction::DowncastU128U256ToU32 => Some(heap_downcast_code(f, ValType::I32)),
        RuntimeFunction::DowncastU128U256ToU64 => Some(heap_downcast_code(f, ValType::I64)),
        RuntimeFunction::LessThan => Some(check_if_a_less_than_b_code()),
        RuntimeFunction::SwapI32Bytes => Some(swap_i32_bytes_code()),
        RuntimeFunction::SwapI64Bytes => Some(swap_i64_bytes_code()),
        RuntimeFunction::CopyU128 => Some(copy_u128_code()),
        RuntimeFunction::CopyU256 => Some(copy_u256_code()),
        RuntimeFunction::VecSwap32 => Some(vec_swap_code(f, ValType::I32)),
        RuntimeFunction::VecSwap64 => Some(vec_swap_code(f, ValType::I64)),
        RuntimeFunction::VecPopBack32 => Some(vec_pop_back_code(f, ValType::I32)),
        RuntimeFunction::VecPopBack64 => Some(vec_pop_back_code(f, ValType::I64)),
        RuntimeFunction::VecBorrow => Some(vec_borrow_code()),
        RuntimeFunction::VecIncrementLen => Some(increment_vec_len_code()),
        RuntimeFunction::VecDecrementLen => Some(decrement_vec_len_code()),
        RuntimeFunction::GetIdBytesPtr => Some(get_id_bytes_ptr_code()),
        RuntimeFunction::LocateStructSlot => Some(locate_struct_slot_code()),
        RuntimeFunction::DeriveMappingSlot => Some(derive_mapping_slot_code()),
        RuntimeFunction::HeapTypeEquality => Some(a_equals_b_code()),
        RuntimeFunction::VecEqualityHeapType => Some(vec_equality_heap_type_code()),
        _ => None,
    }
}

/// The functions that runtime function `f` calls, in the order of its list of callees: a
/// `Call(k)` in its instructions calls the `k`-th.
pub open spec fn runtime_function_callees(f: RuntimeFunction) -> Seq<Callee> {
    match f {
        RuntimeFunction::SwapI64Bytes => seq![Callee::Runtime(RuntimeFunction::SwapI32Bytes)],
        RuntimeFunction::CopyU128 => seq![Callee::Allocator],
        RuntimeFunction::CopyU256 => seq![Callee::Allocator],
        RuntimeFunction::VecSwap32 => seq![Callee::Runtime(RuntimeFunction::DowncastU64ToU32)],
        RuntimeFunction::VecSwap64 => seq![Callee::Runtime(RuntimeFunction::DowncastU64ToU32)],
        RuntimeFunction::VecPopBack32 => seq![Callee::Runtime(RuntimeFunction::VecDecrementLen)],
        RuntimeFunction::VecPopBack64 => seq![Callee::Runtime(RuntimeFunction::VecDecrementLen)],
        RuntimeFunction::VecBorrow => seq![Callee::Allocator],
        RuntimeFunction::LocateStructSlot => seq![
            Callee::Runtime(RuntimeFunction::GetIdBytesPtr),
            Callee::Runtime(RuntimeFunction::WriteObjectSlot),
        ],
        RuntimeFunction::DeriveMappingSlot => seq![Callee::Allocator, Callee::Host(HostFunction::NativeKeccak256)],
        RuntimeFunction::VecEqualityHeapType => seq![Callee::Runtime(RuntimeFunction::HeapTypeEquality)],
        _ => seq![],
    }
}

/// Whether runtime function `f` reads or writes the module's memory, or calls its allocator.
pub open spec fn runtime_function_needs_memory(f: RuntimeFunction) -> bool {
    match f {
        RuntimeFunction::HeapIntSum | RuntimeFunction::HeapIntSub | RuntimeFunction::DowncastU128U256ToU32
        | RuntimeFunction::DowncastU128U256ToU64 | RuntimeFunction::LessThan | RuntimeFunction::CopyU128
        | RuntimeFunction::CopyU256 | RuntimeFunction::VecSwap32 | RuntimeFunction::VecSwap64
        | RuntimeFunction::VecPopBack32 | RuntimeFunction::VecPopBack64 | RuntimeFunction::VecBorrow
        | RuntimeFunction::VecIncrementLen | RuntimeFunction::VecDecrementLen | RuntimeFunction::GetIdBytesPtr
        | RuntimeFunction::LocateStructSlot | RuntimeFunction::DeriveMappingSlot | RuntimeFunction::HeapTypeEquality
        | RuntimeFunction::VecEqualityHeapType => true,
        _ => false,
    }
}

impl RuntimeFunction {
    /// Builds this runtime function, or `None` for one this library does not build.
    pub fn build(&self) -> (r: Option<FunctionBody>)
        ensures
            match r {
                Some(body) => runtime_function_code(*self) == Some(body@),
                None => runtime_function_code(*self) is None,
            },
    {
        match self {
            RuntimeFunction::HeapIntSum => Some(heap_integers_add()),
            RuntimeFunction::HeapIntSub => Some(heap_integers_sub()),
            RuntimeFunction::AddU32 => Some(add_u32()),
            RuntimeFunction::AddU64 => Some(add_u64()),
            RuntimeFunction::SubU32 => Some(sub_u32()),
            RuntimeFunction::SubU64 => Some(sub_u64()),
            RuntimeFunction::CheckOverflowU8U16 => Some(check_overflow_u8_u16()),
            RuntimeFunction::DowncastU64ToU32 => Some(downcast_u64_to_u32()),
            RuntimeFunction::DowncastU128U256ToU32 => Some(downcast_u128_u256_to_u32()),
            RuntimeFunction::DowncastU128U256ToU64 => Some(downcast_u128_u256_to_u64()),
            RuntimeFunction::LessThan => Some(check_if_a_less_than_b()),
            RuntimeFunction::SwapI32Bytes => Some(swap_i32_bytes_function()),
            RuntimeFunction::SwapI64Bytes => Some(swap_i64_bytes_function()),
            RuntimeFunction::CopyU128 => Some(copy_u128_function()),
            RuntimeFunction::CopyU256 => Some(copy_u256_function()),
            RuntimeFunction::VecSwap32 => Some(vec_swap_32_function()),
            RuntimeFunction::VecSwap64 => Some(vec_swap_64_function()),
            RuntimeFunction::VecPopBack32 => Some(vec_pop_back_32_function()),
            RuntimeFunction::VecPopBack64 => Some(vec_pop_back_64_function()),
            RuntimeFunction::VecBorrow => Some(vec_borrow_function()),
            RuntimeFunction::VecIncrementLen => Some(increment_vec_len_function()),
            RuntimeFunction::VecDecrementLen => Some(decrement_vec_len_function()),
            RuntimeFunction::GetIdBytesPtr => Some(get_id_bytes_ptr()),
            RuntimeFunction::LocateStructSlot => Some(locate_struct_slot()),
            RuntimeFunction::DeriveMappingSlot => Some(derive_mapping_slot()),
            RuntimeFunction::HeapTypeEquality => Some(a_equals_b()),
            RuntimeFunction::VecEqualityHeapType => Some(vec_equality_heap_type()),
            _ => None,
        }
    }

    /// The functions this runtime function calls, in the order of its list of callees.
    pub fn callees(&self) -> (r: Vec<Callee>)
        ensures
            r@ == runtime_function_callees(*self),
    {
        let r = match self {
            RuntimeFunction::SwapI64Bytes => vec![Callee::Runtime(RuntimeFunction::SwapI32Bytes)],
            RuntimeFunction::CopyU128 | RuntimeFunction::CopyU256 | RuntimeFunction::VecBorrow => vec![Callee::Allocator],
            RuntimeFunction::VecSwap32 | RuntimeFunction::VecSwap64 => vec![Callee::Runtime(RuntimeFunction::DowncastU64ToU32)],
            RuntimeFunction::VecPopBack32 | RuntimeFunction::VecPopBack64 => vec![Callee::Runtime(RuntimeFunction::VecDecrementLen)],
            RuntimeFunction::LocateStructSlot => vec![
                Callee::Runtime(RuntimeFunction::GetIdBytesPtr),
                Callee::Runtime(RuntimeFunction::WriteObjectSlot),
            ],
            RuntimeFunction::DeriveMappingSlot => vec![Callee::Allocator, Callee::Host(HostFunction::NativeKeccak256)],
            RuntimeFunction::VecEqualityHeapType => vec![Callee::Runtime(RuntimeFunction::HeapTypeEquality)],
            _ => Vec::new(),
        };
        assert(r@ =~= runtime_function_callees(*self));
        r
    }

    /// Whether this runtime function reads or writes the module's memory or calls its allocator,
    /// so that it can only be linked with the compilation context at hand.
    pub fn needs_memory(&self) -> (r: bool)
        ensures
            r == runtime_function_needs_memory(*self),
    {
        match self {
            RuntimeFunction::HeapIntSum | RuntimeFunction::HeapIntSub | RuntimeFunction::DowncastU128U256ToU32
            | RuntimeFunction::DowncastU128U256ToU64 | RuntimeFunction::LessThan | RuntimeFunction::CopyU128
            | RuntimeFunction::CopyU256 | RuntimeFunction::VecSwap32 | RuntimeFunction::VecSwap64
            | RuntimeFunction::VecPopBack32 | RuntimeFunction::VecPopBack64 | RuntimeFunction::VecBorrow
            | RuntimeFunction::VecIncrementLen | RuntimeFunction::VecDecrementLen | RuntimeFunction::GetIdBytesPtr
            | RuntimeFunction::LocateStructSlot | RuntimeFunction::DeriveMappingSlot | RuntimeFunction::HeapTypeEquality
        | RuntimeFunction::VecEqualityHeapType => true,
            _ => false,
        }
    }
}

/// Each runtime function that this library builds carries its own name, so that, names being
/// distinct (`law_runtime_function_names_distinct`), a module that holds it once finds it again
/// by that name and links it no second time.
pub proof fn law_built_function_named_after_itself(f: RuntimeFunction)
    requires
        runtime_function_code(f) is Some,
    ensures
        runtime_function_code(f)->0.name == runtime_function_name(f),
{
}

/// Whether a `Call` that `instr` is, or that it holds inside blocks, loops and branches, calls
/// one of the first `n` functions.
pub open spec fn instr_calls_below(instr: InstrView, n: nat) -> bool
    decreases instr,
{
    match instr {
        InstrView::Call(k) => k < n,
        InstrView::Block(b) => forall|j: int| 0 <= j < b.len() ==> instr_calls_below(#[trigger] b[j], n),
        InstrView::Loop(b) => forall|j: int| 0 <= j < b.len() ==> instr_calls_below(#[trigger] b[j], n),
        InstrView::IfElse(_, a, b) => {
            &&& forall|j: int| 0 <= j < a.len() ==> instr_calls_below(#[trigger] a[j], n)
            &&& forall|j: int| 0 <= j < b.len() ==> instr_calls_below(#[trigger] b[j], n)
        },
        _ => true,
    }
}

/// Whether every `Call` among `instrs`, inside blocks, loops and branches too, calls one of the
/// first `n` functions.
pub open spec fn calls_below(instrs: Seq<InstrView>, n: nat) -> bool {
    forall|j: int| 0 <= j < instrs.len() ==> instr_calls_below(#[trigger] instrs[j], n)
}

/// Whether each function that the code of `f` calls is among its callees.
pub open spec fn calls_among_callees(f: RuntimeFunction) -> bool {
    match runtime_function_code(f) {
        Some(code) => calls_below(code.body, runtime_function_callees(f).len()),
        None => true,
    }
}

/// Every function that a built runtime function's code calls is among its callees, so that
/// linking its callees first gives each `Call` of its code a function to reach.
pub proof fn law_calls_reach_callees(f: RuntimeFunction)
    ensures
        calls_among_callees(f),
{
    reveal_with_fuel(instr_calls_below, 4);
}

/// Whether the functions of `env` are, by position, the code of the runtime functions that `f`
/// calls, as linking them gives them to it.
pub open spec fn env_holds_callees(env: Seq<FunctionView>, f: RuntimeFunction) -> bool {
    &&& env.len() >= runtime_function_callees(f).len()
    &&& forall|k: int| 0 <= k < runtime_function_callees(f).len()
        ==> (#[trigger] runtime_function_callees(f)[k] matches Callee::Runtime(g) ==> runtime_function_code(g) == Some(env[k]))
}

/// The element type of the vectors that runtime function `f` works on: `i32` for the 32-bit
/// variants, `i64` otherwise.
pub open spec fn vec_elem_type(f: RuntimeFunction) -> ValType {
    if f == RuntimeFunction::VecPopBack32 || f == RuntimeFunction::VecSwap32 { ValType::I32 } else { ValType::I64 }
}

/// Popping the back of a vector with its callees linked: with the functions it calls in place as
/// linking puts them, `vec_pop_back_32` and `vec_pop_back_64` trap on an empty vector and
/// otherwise give its last element back, with the length one less.
pub proof fn law_linked_pop_back(env: Seq<FunctionView>, fuel: nat, mem: Seq<u8>, f: RuntimeFunction, r: u32)
    requires
        f == RuntimeFunction::VecPopBack32 || f == RuntimeFunction::VecPopBack64,
        env_holds_callees(env, f),
        vec_in_memory(mem, r, byte_width(vec_elem_type(f)) as int),
    ensures
        runtime_function_code(f) is Some,
        invoke(env, fuel, runtime_function_code(f)->0, args1(Value::I32(r)), mem)
            == pop_back_result(mem, r, vec_elem_type(f)),
{
    assert(runtime_function_callees(f)[0] == Callee::Runtime(RuntimeFunction::VecDecrementLen));
    law_vec_pop_back(env, fuel, mem, f, vec_elem_type(f), r);
}

/// Swapping two elements of a vector with its callees linked: with the functions it calls in
/// place as linking puts them, `vec_swap_32` and `vec_swap_64` behave as `swap_result` says.
pub proof fn law_linked_vec_swap(env: Seq<FunctionView>, fuel: nat, mem: Seq<u8>, f: RuntimeFunction, r: u32, i1: u64, i2: u64)
    requires
        f == RuntimeFunction::VecSwap32 || f == RuntimeFunction::VecSwap64,
        env_holds_callees(env, f),
        vec_in_memory(mem, r, byte_width(vec_elem_type(f)) as int),
    ensures
        runtime_function_code(f) is Some,
        invoke(env, fuel, runtime_function_code(f)->0, args3(Value::I32(r), Value::I64(i1), Value::I64(i2)), mem)
            == swap_result(mem, r, i1, i2, byte_width(vec_elem_type(f)) as int),
{
    assert(runtime_function_callees(f)[0] == Callee::Runtime(RuntimeFunction::DowncastU64ToU32));
    law_vec_swap(env, fuel, mem, f, vec_elem_type(f), r, i1, i2);
}

/// Reversing the bytes of an `i64` with its callee linked: with the function it calls in place
/// as linking puts it, `swap_i64_bytes` returns its argument with its bytes reversed.
pub proof fn law_linked_swap_i64_bytes(env: Seq<FunctionView>, fuel: nat, mem: Seq<u8>, x: u64)
    requires
        env_holds_callees(env, RuntimeFunction::SwapI64Bytes),
    ensures
        runtime_function_code(RuntimeFunction::SwapI64Bytes) is Some,
        invoke(env, fuel, runtime_function_code(RuntimeFunction::SwapI64Bytes)->0, args1(Value::I64(x)), mem)
            == Completion::Returned(args1(Value::I64(bswap64(x))), mem),
{
    assert(runtime_function_callees(RuntimeFunction::SwapI64Bytes)[0] == Callee::Runtime(RuntimeFunction::SwapI32Bytes));
    law_swap_i64_bytes(env, fuel, mem, x);
}

/// Comparing two vectors of heap values with its callee linked: with the function it calls in
/// place as linking puts it, `vec_equality_heap_type` tells whether the elements are equal.
pub proof fn law_linked_vec_equality(env: Seq<FunctionView>, fuel: nat, mem: Seq<u8>, v1: u32, v2: u32, length: u32, ths: u32)
    requires
        env_holds_callees(env, RuntimeFunction::VecEqualityHeapType),
        v1 + 8 <= u32::MAX,
        v2 + 8 <= u32::MAX,
        elems_in_memory(mem, (v1 + 8) as u32, (v2 + 8) as u32, length, ths),
        fuel * 4 >= 4 * length + ths,
    ensures
        runtime_function_code(RuntimeFunction::VecEqualityHeapType) is Some,
        invoke(env, fuel, runtime_function_code(RuntimeFunction::VecEqualityHeapType)->0,
            args4(Value::I32(v1), Value::I32(v2), Value::I32(length), Value::I32(ths)), mem)
            == Completion::Returned(
                args1(Value::I32(if elems_equal(mem, (v1 + 8) as u32, (v2 + 8) as u32, ths, 0, length as int) { 1 } else { 0 })),
                mem,
            ),
{
    assert(runtime_function_callees(RuntimeFunction::VecEqualityHeapType)[0] == Callee::Runtime(RuntimeFunction::HeapTypeEquality));
    law_vec_equality_heap_type(env, fuel, mem, v1, v2, length, ths);
}

/// A runtime function that another one calls calls no function itself, so that linking a
/// function's callees first never goes round in a circle.
pub proof fn law_callees_call_nothing(f: RuntimeFunction, k: int)
    requires
        0 <= k < runtime_function_callees(f).len(),
    ensures
        runtime_function_callees(f)[k] matches Callee::Runtime(g) ==> runtime_function_callees(g).len() == 0,
{
}

} // verus!

verus! {

/// The names of `fs`.
pub open spec fn function_names(fs: Seq<RuntimeFunction>) -> Seq<Seq<char>> {
    fs.map_values(|f: RuntimeFunction| runtime_function_name(f))
}

/// The runtime functions among the callees `cs` to add to a module that holds functions named
/// `present`: each runtime callee that is neither present nor added before, in order.
pub open spec fn callees_plan(cs: Seq<Callee>, present: Seq<Seq<char>>) -> Seq<RuntimeFunction>
    decreases cs.len(),
{
    if cs.len() == 0 {
        Seq::empty()
    } else {
        let p = callees_plan(cs.drop_last(), present);
        match cs.last() {
            Callee::Runtime(g) => if present.contains(runtime_function_name(g)) || function_names(p).contains(runtime_function_name(g)) {
                p
            } else {
                p.push(g)
            },
            _ => p,
        }
    }
}

/// The runtime functions to add, in order, to link `f` into a module that holds functions named
/// `present`: nothing when `f` is present; otherwise the runtime functions it calls that are not
/// present, then `f` itself.
pub open spec fn linking_plan_spec(f: RuntimeFunction, present: Seq<Seq<char>>) -> Seq<RuntimeFunction> {
    if present.contains(runtime_function_name(f)) {
        Seq::empty()
    } else {
        callees_plan(runtime_function_callees(f), present).push(f)
    }
}

/// Whether `present` holds the name `name`.
fn names_contain(present: &Vec<String>, name: &str) -> (r: bool)
    ensures
        r == present@.map_values(|s: String| s@).contains(name@),
{
    let ghost names = present@.map_values(|s: String| s@);
    let mut i: usize = 0;
    while i < present.len()
        invariant
            0 <= i <= present@.len(),
            names == present@.map_values(|s: String| s@),
            forall|j: int| 0 <= j < i ==> names[j] != name@,
        decreases present@.len() - i,
    {
        if str_equals(present[i].as_str(), name) {
            assert(names[i as int] == name@);
            return true;
        }
        i = i + 1;
    }
    false
}

/// Whether `fs` holds a function named `name`.
fn plan_contains(fs: &Vec<RuntimeFunction>, name: &str) -> (r: bool)
    ensures
        r == function_names(fs@).contains(name@),
{
    let ghost names = function_names(fs@);
    let mut i: usize = 0;
    while i < fs.len()
        invariant
            0 <= i <= fs@.len(),
            names == function_names(fs@),
            forall|j: int| 0 <= j < i ==> names[j] != name@,
        decreases fs@.len() - i,
    {
        if str_equals(fs[i].name(), name) {
            assert(names[i as int] == name@);
            return true;
        }
        i = i + 1;
    }
    false
}

/// The runtime functions to add, in order, to link `f` into a module whose functions are named
/// `present` (see `linking_plan_spec`): a function already present is found by its name and not
/// added again, and the functions it calls come before it.
pub fn linking_plan(f: RuntimeFunction, present: &Vec<String>) -> (r: Vec<RuntimeFunction>)
    ensures
        r@ == linking_plan_spec(f, present@.map_values(|s: String| s@)),
{
    let ghost names = present@.map_values(|s: String| s@);
    let mut plan: Vec<RuntimeFunction> = Vec::new();
    if names_contain(present, f.name()) {
        return plan;
    }
    let callees = f.callees();
    let mut k: usize = 0;
    while k < callees.len()
        invariant
            0 <= k <= callees@.len(),
            callees@ == runtime_function_callees(f),
            names == present@.map_values(|s: String| s@),
            plan@ == callees_plan(callees@.take(k as int), names),
        decreases callees@.len() - k,
    {
        proof {
            assert(callees@.take(k + 1).drop_last() =~= callees@.take(k as int));
        }
        match callees[k] {
            Callee::Runtime(g) => {
                if !names_contain(present, g.name()) && !plan_contains(&plan, g.name()) {
                    plan.push(g);
                }
            },
            _ => {},
        }
        k = k + 1;
    }
    proof {
        assert(callees@.take(k as int) =~= callees@);
    }
    plan.push(f);
    plan
}

/// Linking `f` again once its plan is carried out adds nothing: `f` is then present.
pub proof fn law_linking_is_idempotent(f: RuntimeFunction, present: Seq<Seq<char>>)
    ensures
        linking_plan_spec(f, present + function_names(linking_plan_spec(f, present))) == Seq::<RuntimeFunction>::empty(),
{
    let after = present + function_names(linking_plan_spec(f, present));
    if present.contains(runtime_function_name(f)) {
        let j = choose|j: int| 0 <= j < present.len() && present[j] == runtime_function_name(f);
        assert(after[j] == runtime_function_name(f));
    } else {
        let plan = linking_plan_spec(f, present);
        assert(plan.last() == f);
        assert(after[present.len() + plan.len() - 1] == runtime_function_name(f));
    }
}

/// The plan adds no function that is present, and each runtime function that `f` calls is
/// present or added before `f`, which comes last.
pub proof fn law_linking_plan_callees_first(f: RuntimeFunction, present: Seq<Seq<char>>, k: int)
    requires
        !present.contains(runtime_function_name(f)),
        0 <= k < runtime_function_callees(f).len(),
    ensures
        linking_plan_spec(f, present).last() == f,
        runtime_function_callees(f)[k] matches Callee::Runtime(g) ==> present.contains(runtime_function_name(g))
            || function_names(linking_plan_spec(f, present).drop_last()).contains(runtime_function_name(g)),
{
    let cs = runtime_function_callees(f);
    lemma_callees_plan_covers(cs, present, k);
    assert(linking_plan_spec(f, present).drop_last() =~= callees_plan(cs, present));
}

/// Each runtime callee among `cs` is present or in the plan for `cs`.
proof fn lemma_callees_plan_covers(cs: Seq<Callee>, present: Seq<Seq<char>>, k: int)
    requires
        0 <= k < cs.len(),
    ensures
        cs[k] matches Callee::Runtime(g) ==> present.contains(runtime_function_name(g))
            || function_names(callees_plan(cs, present)).contains(runtime_function_name(g)),
    decreases cs.len(),
{
    let p = callees_plan(cs.drop_last(), present);
    if k < cs.len() - 1 {
        lemma_callees_plan_covers(cs.drop_last(), present, k);
        assert(cs.drop_last()[k] == cs[k]);
        if let Callee::Runtime(g) = cs[k] {
            if function_names(p).contains(runtime_function_name(g)) {
                let j = choose|j: int| 0 <= j < function_names(p).len() && function_names(p)[j] == runtime_function_name(g);
                let q = callees_plan(cs, present);
                assert(q == p || q == p.push(cs.last()->Runtime_0));
                assert(function_names(q)[j] == runtime_function_name(g));
            }
        }
    } else {
        if let Callee::Runtime(g) = cs[k] {
            let q = callees_plan(cs, present);
            if !(present.contains(runtime_function_name(g)) || function_names(p).contains(runtime_function_name(g))) {
                assert(q == p.push(g));
                assert(function_names(q)[p.len() as int] == runtime_function_name(g));
            } else if function_names(p).contains(runtime_function_name(g)) {
                assert(q == p);
            }
        }
    }
}

} // verus!
