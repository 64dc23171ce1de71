use move_bytecode_to_wasm::runtime::integers::add::{add_u32, add_u64, heap_integers_add};
use move_bytecode_to_wasm::runtime::integers::sub::{heap_integers_sub, sub_u32, sub_u64};
use move_bytecode_to_wasm::runtime::integers::{
    check_if_a_less_than_b, check_overflow_u8_u16, downcast_u128_u256_to_u32, downcast_u128_u256_to_u64,
    downcast_u64_to_u32,
};
use alloy_primitives::{Address, U256};
use alloy_sol_types::{SolType, sol_data};
use move_bytecode_to_wasm::abi_types::packing::pack_native_int::{pack_i32_type_instructions, pack_i64_type_instructions};
use move_bytecode_to_wasm::intermediate_types::{IAddress, IEnum, IEnumVariant, ISigner, IU128, IU16, IU256, IU32, IU64, IU8};
use move_bytecode_to_wasm::runtime::link::Callee;
use move_bytecode_to_wasm::runtime::RuntimeFunction;
use move_bytecode_to_wasm::runtime::equality::{a_equals_b, vec_equality_heap_type};
use move_bytecode_to_wasm::runtime::copy::{copy_u128_function, copy_u256_function};
use move_bytecode_to_wasm::runtime::storage::{derive_mapping_slot, get_id_bytes_ptr, locate_struct_slot};
use move_bytecode_to_wasm::runtime::swap::{swap_i32_bytes_function, swap_i64_bytes_function};
use move_bytecode_to_wasm::runtime::vector::{
    decrement_vec_len_function, increment_vec_len_function, vec_borrow_function, vec_pop_back_32_function,
    vec_pop_back_64_function, vec_swap_32_function, vec_swap_64_function,
};
use move_bytecode_to_wasm::wasm::{BinaryOp, FunctionBody, Instr, UnaryOp, ValType};
use move_bytecode_to_wasm::abi_types::packing::{AbiCallees, build_pack_instructions};
use move_bytecode_to_wasm::abi_types::unpacking::build_unpack_instructions;
use move_bytecode_to_wasm::memory::{MEMORY_PAGE_SIZE, setup_module_memory};
use move_bytecode_to_wasm::vm_handled_datatypes::{TxContext, inject_signer};
use move_bytecode_to_wasm::address::ModuleId;
use move_bytecode_to_wasm::compilation_context::CompilationContext;
use move_bytecode_to_wasm::compilation_context::module_data::function_data::FunctionData;
use move_bytecode_to_wasm::compilation_context::module_data::struct_data::StructData;
use move_bytecode_to_wasm::compilation_context::module_data::{EnumData, ModuleData};
use move_bytecode_to_wasm::intermediate_types::{IStruct, IntermediateType};

#[derive(Debug, Clone, Copy, PartialEq)]
enum V {
    I32(u32),
    I64(u64),
}

/// How running a sequence of instructions ended.
#[derive(Debug, Clone, Copy, PartialEq)]
enum Flow {
    Normal,
    Br(u32),
    Return,
    Trap,
}

fn pop_i32(stack: &mut Vec<V>) -> u32 {
    match stack.pop().unwrap() {
        V::I32(c) => c,
        V::I64(_) => panic!("type mismatch"),
    }
}

fn width(t: &ValType) -> usize {
    match t {
        ValType::I32 => 4,
        ValType::I64 => 8,
    }
}

/// Leaves a label whose block left `arity` values above `height`.
fn leave(flow: Flow, stack: &mut Vec<V>, height: usize, arity: usize) -> Flow {
    match flow {
        Flow::Br(0) => {
            let kept = stack.split_off(stack.len() - arity);
            stack.truncate(height);
            stack.extend(kept);
            Flow::Normal
        },
        Flow::Br(d) => Flow::Br(d - 1),
        other => other,
    }
}

/// Runs `instrs` on the stack, the locals, the memory and the globals.
fn exec(
    instrs: &[Instr],
    stack: &mut Vec<V>,
    locals: &mut Vec<V>,
    mem: &mut Vec<u8>,
    globals: &mut Vec<V>,
    callees: &[FunctionBody],
) -> Flow {
    for instr in instrs {
        match instr {
            Instr::LocalGet(l) => stack.push(locals[*l as usize]),
            Instr::LocalSet(l) => locals[*l as usize] = stack.pop().unwrap(),
            Instr::LocalTee(l) => locals[*l as usize] = *stack.last().unwrap(),
            Instr::I32Const(c) => stack.push(V::I32(*c)),
            Instr::I64Const(c) => stack.push(V::I64(*c)),
            Instr::Binop(op) => {
                let b = stack.pop().unwrap();
                let a = stack.pop().unwrap();
                let r = match (a, b) {
                    (V::I32(x), V::I32(y)) => match op {
                        BinaryOp::I32Add => V::I32(x.wrapping_add(y)),
                        BinaryOp::I32Sub => V::I32(x.wrapping_sub(y)),
                        BinaryOp::I32Mul => V::I32(x.wrapping_mul(y)),
                        BinaryOp::I32DivU => V::I32(x / y),
                        BinaryOp::I32And => V::I32(x & y),
                        BinaryOp::I32Or => V::I32(x | y),
                        BinaryOp::I32Shl => V::I32(x << (y % 32)),
                        BinaryOp::I32ShrU => V::I32(x >> (y % 32)),
                        BinaryOp::I32Eq => V::I32((x == y) as u32),
                        BinaryOp::I32Ne => V::I32((x != y) as u32),
                        BinaryOp::I32LtS => V::I32(((x as i32) < (y as i32)) as u32),
                        BinaryOp::I32LtU => V::I32((x < y) as u32),
                        BinaryOp::I32GtU => V::I32((x > y) as u32),
                        BinaryOp::I32GtS => V::I32(((x as i32) > (y as i32)) as u32),
                        BinaryOp::I32LeS => V::I32(((x as i32) <= (y as i32)) as u32),
                        BinaryOp::I32GeU => V::I32((x >= y) as u32),
                        _ => panic!("type mismatch"),
                    },
                    (V::I64(x), V::I64(y)) => match op {
                        BinaryOp::I64Add => V::I64(x.wrapping_add(y)),
                        BinaryOp::I64Sub => V::I64(x.wrapping_sub(y)),
                        BinaryOp::I64Or => V::I64(x | y),
                        BinaryOp::I64Shl => V::I64(x << (y % 64)),
                        BinaryOp::I64ShrU => V::I64(x >> (y % 64)),
                        BinaryOp::I64Eq => V::I32((x == y) as u32),
                        BinaryOp::I64Ne => V::I32((x != y) as u32),
                        BinaryOp::I64LtU => V::I32((x < y) as u32),
                        BinaryOp::I64LeU => V::I32((x <= y) as u32),
                        BinaryOp::I64GtU => V::I32((x > y) as u32),
                        _ => panic!("type mismatch"),
                    },
                    _ => panic!("type mismatch"),
                };
                stack.push(r);
            },
            Instr::Unop(op) => {
                let a = stack.pop().unwrap();
                let r = match (op, a) {
                    (UnaryOp::I32WrapI64, V::I64(x)) => V::I32(x as u32),
                    (UnaryOp::I64ExtendUI32, V::I32(x)) => V::I64(x as u64),
                    _ => panic!("type mismatch"),
                };
                stack.push(r);
            },
            Instr::Call(k) => {
                let callee = &callees[*k as usize];
                let n = stack.len() - callee.params.len();
                let args = stack.split_off(n);
                match call_in(callee, &args, mem, globals, &callees[..*k as usize]) {
                    Some(results) => stack.extend(results),
                    None => return Flow::Trap,
                }
            },
            Instr::Unreachable => return Flow::Trap,
            Instr::IfElse(t, then_, else_) => {
                let c = pop_i32(stack);
                let height = stack.len();
                let branch = if c != 0 { then_ } else { else_ };
                let flow = exec(branch, stack, locals, mem, globals, callees);
                let flow = leave(flow, stack, height, if t.is_some() { 1 } else { 0 });
                if flow != Flow::Normal {
                    return flow;
                }
            },
            Instr::Load(t, offset) => {
                let ea = pop_i32(stack) as u64 + *offset as u64;
                let w = width(t);
                if ea as usize + w > mem.len() {
                    return Flow::Trap;
                }
                let mut v: u64 = 0;
                for j in (0..w).rev() {
                    v = (v << 8) | mem[ea as usize + j] as u64;
                }
                stack.push(match t {
                    ValType::I32 => V::I32(v as u32),
                    ValType::I64 => V::I64(v),
                });
            },
            Instr::Store(t, offset) => {
                let v = match (t, stack.pop().unwrap()) {
                    (ValType::I32, V::I32(x)) => x as u64,
                    (ValType::I64, V::I64(x)) => x,
                    _ => panic!("type mismatch"),
                };
                let ea = pop_i32(stack) as u64 + *offset as u64;
                let w = width(t);
                if ea as usize + w > mem.len() {
                    return Flow::Trap;
                }
                for j in 0..w {
                    mem[ea as usize + j] = (v >> (8 * j)) as u8;
                }
            },
            Instr::Block(body) => {
                let height = stack.len();
                let flow = exec(body, stack, locals, mem, globals, callees);
                let flow = leave(flow, stack, height, 0);
                if flow != Flow::Normal {
                    return flow;
                }
            },
            Instr::Loop(body) => loop {
                let height = stack.len();
                match exec(body, stack, locals, mem, globals, callees) {
                    Flow::Br(0) => stack.truncate(height),
                    Flow::Normal => break,
                    Flow::Br(d) => return Flow::Br(d - 1),
                    other => return other,
                }
            },
            Instr::Br(d) => return Flow::Br(*d),
            Instr::BrIf(d) => {
                if pop_i32(stack) != 0 {
                    return Flow::Br(*d);
                }
            },
            Instr::Return => return Flow::Return,
            Instr::MemoryCopy => {
                let n = pop_i32(stack) as usize;
                let src = pop_i32(stack) as usize;
                let dst = pop_i32(stack) as usize;
                if src + n > mem.len() || dst + n > mem.len() {
                    return Flow::Trap;
                }
                mem.copy_within(src..src + n, dst);
            },
            Instr::GlobalGet(g) => stack.push(globals[*g as usize]),
            Instr::GlobalSet(g) => globals[*g as usize] = stack.pop().unwrap(),
            Instr::MemoryGrow => {
                let pages = pop_i32(stack) as usize;
                let old = mem.len() / PAGE;
                mem.resize(mem.len() + pages * PAGE, 0);
                stack.push(V::I32(old as u32));
            },
        }
    }
    Flow::Normal
}

/// The size of a page of memory.
const PAGE: usize = 65536;

/// Calls `f`, which uses no globals, with `args` on `mem`; `None` is a trap.
fn call(f: &FunctionBody, args: &[V], mem: &mut Vec<u8>, callees: &[FunctionBody]) -> Option<Vec<V>> {
    call_in(f, args, mem, &mut Vec::new(), callees)
}

/// Calls `f` with `args` on `mem` and `globals`; `None` is a trap.
fn call_in(f: &FunctionBody, args: &[V], mem: &mut Vec<u8>, globals: &mut Vec<V>, callees: &[FunctionBody]) -> Option<Vec<V>> {
    let mut locals: Vec<V> = args.to_vec();
    for t in &f.locals {
        locals.push(match t {
            ValType::I32 => V::I32(0),
            ValType::I64 => V::I64(0),
        });
    }
    let mut stack = Vec::new();
    match exec(&f.body, &mut stack, &mut locals, mem, globals, callees) {
        Flow::Normal => {
            assert_eq!(stack.len(), f.results.len());
            Some(stack)
        },
        Flow::Return => Some(stack.split_off(stack.len() - f.results.len())),
        Flow::Br(_) => panic!("branch out of the function"),
        Flow::Trap => None,
    }
}

/// Calls `f` on no memory.
fn call0(f: &FunctionBody, args: &[V], callees: &[FunctionBody]) -> Option<Vec<V>> {
    let mut mem = Vec::new();
    call(f, args, &mut mem, callees)
}

#[test]
fn add_u32_traps_on_overflow() {
    let f = add_u32();
    assert_eq!(f.name, "add_u32");
    assert_eq!(f.params, vec![ValType::I32, ValType::I32]);
    assert_eq!(f.results, vec![ValType::I32]);
    assert_eq!(call0(&f, &[V::I32(2), V::I32(3)], &[]), Some(vec![V::I32(5)]));
    assert_eq!(call0(&f, &[V::I32(u32::MAX - 1), V::I32(1)], &[]), Some(vec![V::I32(u32::MAX)]));
    assert_eq!(call0(&f, &[V::I32(u32::MAX), V::I32(1)], &[]), None);
    assert_eq!(call0(&f, &[V::I32(1 << 31), V::I32(1 << 31)], &[]), None);
}

#[test]
fn add_u64_traps_on_overflow() {
    let f = add_u64();
    assert_eq!(f.name, "add_u64");
    assert_eq!(call0(&f, &[V::I64(40), V::I64(2)], &[]), Some(vec![V::I64(42)]));
    assert_eq!(call0(&f, &[V::I64(u64::MAX), V::I64(0)], &[]), Some(vec![V::I64(u64::MAX)]));
    assert_eq!(call0(&f, &[V::I64(u64::MAX), V::I64(1)], &[]), None);
}

#[test]
fn sub_traps_when_the_result_is_negative() {
    let f = sub_u32();
    assert_eq!(f.name, "sub_u32");
    assert_eq!(call0(&f, &[V::I32(5), V::I32(3)], &[]), Some(vec![V::I32(2)]));
    assert_eq!(call0(&f, &[V::I32(3), V::I32(3)], &[]), Some(vec![V::I32(0)]));
    assert_eq!(call0(&f, &[V::I32(3), V::I32(5)], &[]), None);
    let f = sub_u64();
    assert_eq!(f.name, "sub_u64");
    assert_eq!(f.params, vec![ValType::I64, ValType::I64]);
    assert_eq!(call0(&f, &[V::I64(u64::MAX), V::I64(1)], &[]), Some(vec![V::I64(u64::MAX - 1)]));
    assert_eq!(call0(&f, &[V::I64(0), V::I64(1)], &[]), None);
}

#[test]
fn overflow_check_and_downcast() {
    let f = check_overflow_u8_u16();
    assert_eq!(f.name, "check_overflow_u8_u16");
    assert_eq!(call0(&f, &[V::I32(255), V::I32(255)], &[]), Some(vec![V::I32(255)]));
    assert_eq!(call0(&f, &[V::I32(256), V::I32(255)], &[]), None);
    let f = downcast_u64_to_u32();
    assert_eq!(f.name, "downcast_u64_to_u32");
    assert_eq!(call0(&f, &[V::I64(u32::MAX as u64)], &[]), Some(vec![V::I32(u32::MAX)]));
    assert_eq!(call0(&f, &[V::I64(u32::MAX as u64 + 1)], &[]), None);
}

#[test]
fn swaps_reverse_the_bytes() {
    let f32 = swap_i32_bytes_function();
    assert_eq!(f32.name, "swap_i32_bytes");
    assert_eq!(call0(&f32, &[V::I32(0x1234_5678)], &[]), Some(vec![V::I32(0x7856_3412)]));
    assert_eq!(call0(&f32, &[V::I32(0xFF00_0001)], &[]), Some(vec![V::I32(0x0100_00FF)]));
    let f64 = swap_i64_bytes_function();
    assert_eq!(f64.name, "swap_i64_bytes");
    let callees = [f32];
    assert_eq!(
        call0(&f64, &[V::I64(0x0102_0304_0506_0708)], &callees),
        Some(vec![V::I64(0x0807_0605_0403_0201)])
    );
    let x: u64 = 0xDEAD_BEEF_0BAD_F00D;
    assert_eq!(call0(&f64, &[V::I64(x)], &callees), Some(vec![V::I64(x.swap_bytes())]));
}

/// A memory of `len` bytes with the little-endian bytes of each number written at its address.
fn memory(len: usize, numbers: &[(usize, &[u8])]) -> Vec<u8> {
    let mut mem = vec![0u8; len];
    for (at, bytes) in numbers {
        mem[*at..*at + bytes.len()].copy_from_slice(bytes);
    }
    mem
}

#[test]
fn heap_downcasts_trap_unless_the_number_fits() {
    let f = downcast_u128_u256_to_u32();
    assert_eq!(f.name, "downcast_u128_u256_to_u32");
    assert_eq!(f.results, vec![ValType::I32]);
    let small = 0xDEAD_BEEFu128.to_le_bytes();
    let mut mem = memory(64, &[(8, &small)]);
    assert_eq!(call(&f, &[V::I32(8), V::I32(16)], &mut mem, &[]), Some(vec![V::I32(0xDEAD_BEEF)]));
    let big = (1u128 << 32).to_le_bytes();
    let mut mem = memory(64, &[(8, &big)]);
    assert_eq!(call(&f, &[V::I32(8), V::I32(16)], &mut mem, &[]), None);
    // A u256 whose highest byte is set
    let mut mem = memory(64, &[(0, &small), (31, &[1])]);
    assert_eq!(call(&f, &[V::I32(0), V::I32(32)], &mut mem, &[]), None);
    let mut mem = memory(64, &[(0, &small)]);
    assert_eq!(call(&f, &[V::I32(0), V::I32(32)], &mut mem, &[]), Some(vec![V::I32(0xDEAD_BEEF)]));

    let f = downcast_u128_u256_to_u64();
    assert_eq!(f.name, "downcast_u128_u256_to_u64");
    let fits = (u64::MAX as u128).to_le_bytes();
    let mut mem = memory(64, &[(16, &fits)]);
    assert_eq!(call(&f, &[V::I32(16), V::I32(16)], &mut mem, &[]), Some(vec![V::I64(u64::MAX)]));
    let over = (u64::MAX as u128 + 1).to_le_bytes();
    let mut mem = memory(64, &[(16, &over)]);
    assert_eq!(call(&f, &[V::I32(16), V::I32(16)], &mut mem, &[]), None);
}

#[test]
fn heap_comparison_orders_the_numbers() {
    let f = check_if_a_less_than_b();
    assert_eq!(f.name, "less_than");
    let cases: [(u128, u128, u32); 5] = [
        (1, 2, 1),
        (2, 1, 0),
        (7, 7, 0),
        (1 << 64, u64::MAX as u128, 0),
        (u64::MAX as u128, 1 << 64, 1),
    ];
    for (a, b, expected) in cases {
        let mut mem = memory(64, &[(0, &a.to_le_bytes()), (16, &b.to_le_bytes())]);
        let before = mem.clone();
        assert_eq!(call(&f, &[V::I32(0), V::I32(16), V::I32(16)], &mut mem, &[]), Some(vec![V::I32(expected)]));
        assert_eq!(mem, before);
    }
    // u256 operands that differ only in the highest part
    let mut mem = memory(64, &[(0, &[5; 32]), (32, &[5; 32])]);
    mem[63] = 6;
    assert_eq!(call(&f, &[V::I32(0), V::I32(32), V::I32(32)], &mut mem, &[]), Some(vec![V::I32(1)]));
    assert_eq!(call(&f, &[V::I32(32), V::I32(0), V::I32(32)], &mut mem, &[]), Some(vec![V::I32(0)]));
}

#[test]
fn heap_sum_carries_between_parts_and_traps_on_overflow() {
    let f = heap_integers_add();
    assert_eq!(f.name, "heap_integer_add");
    let a: u128 = u64::MAX as u128;
    let b: u128 = 1;
    let mut mem = memory(48, &[(0, &a.to_le_bytes()), (16, &b.to_le_bytes())]);
    assert_eq!(call(&f, &[V::I32(0), V::I32(16), V::I32(32), V::I32(16)], &mut mem, &[]), Some(vec![V::I32(32)]));
    assert_eq!(u128::from_le_bytes(mem[32..48].try_into().unwrap()), 1u128 << 64);
    assert_eq!(u128::from_le_bytes(mem[0..16].try_into().unwrap()), a);
    // The result may be stored over the first operand
    let x: u128 = 0x1234_5678_9ABC_DEF0_1111_2222_3333_4444;
    let y: u128 = 0x0FED_CBA9_8765_4321_EEEE_DDDD_CCCC_BBBB;
    let mut mem = memory(32, &[(0, &x.to_le_bytes()), (16, &y.to_le_bytes())]);
    assert_eq!(call(&f, &[V::I32(0), V::I32(16), V::I32(0), V::I32(16)], &mut mem, &[]), Some(vec![V::I32(0)]));
    assert_eq!(u128::from_le_bytes(mem[0..16].try_into().unwrap()), x + y);
    // u128::MAX + 1 does not fit
    let mut mem = memory(48, &[(0, &u128::MAX.to_le_bytes()), (16, &1u128.to_le_bytes())]);
    assert_eq!(call(&f, &[V::I32(0), V::I32(16), V::I32(32), V::I32(16)], &mut mem, &[]), None);
}

#[test]
fn heap_difference_borrows_between_parts_and_traps_when_negative() {
    let f = heap_integers_sub();
    assert_eq!(f.name, "heap_integer_sub");
    let a: u128 = 1u128 << 64;
    let b: u128 = 1;
    let mut mem = memory(48, &[(0, &a.to_le_bytes()), (16, &b.to_le_bytes())]);
    assert_eq!(call(&f, &[V::I32(0), V::I32(16), V::I32(32), V::I32(16)], &mut mem, &[]), Some(vec![V::I32(32)]));
    assert_eq!(u128::from_le_bytes(mem[32..48].try_into().unwrap()), u64::MAX as u128);
    let mut mem = memory(48, &[(0, &5u128.to_le_bytes()), (16, &5u128.to_le_bytes())]);
    assert_eq!(call(&f, &[V::I32(0), V::I32(16), V::I32(32), V::I32(16)], &mut mem, &[]), Some(vec![V::I32(32)]));
    assert_eq!(u128::from_le_bytes(mem[32..48].try_into().unwrap()), 0);
    let mut mem = memory(48, &[(0, &1u128.to_le_bytes()), (16, &2u128.to_le_bytes())]);
    assert_eq!(call(&f, &[V::I32(0), V::I32(16), V::I32(32), V::I32(16)], &mut mem, &[]), None);
}

/// A memory holding, at address 0, a reference to the vector at address 8, which holds the
/// given elements of `w` bytes each (little-endian) with a capacity equal to their number.
fn vector_memory(len: usize, w: usize, elems: &[u64]) -> Vec<u8> {
    let mut mem = vec![0u8; len];
    mem[0..4].copy_from_slice(&8u32.to_le_bytes());
    mem[8..12].copy_from_slice(&(elems.len() as u32).to_le_bytes());
    mem[12..16].copy_from_slice(&(elems.len() as u32).to_le_bytes());
    for (k, e) in elems.iter().enumerate() {
        let at = 16 + k * w;
        mem[at..at + w].copy_from_slice(&e.to_le_bytes()[..w]);
    }
    mem
}

fn elems_of(mem: &[u8], w: usize, n: usize) -> Vec<u64> {
    (0..n)
        .map(|k| {
            let mut b = [0u8; 8];
            b[..w].copy_from_slice(&mem[16 + k * w..16 + (k + 1) * w]);
            u64::from_le_bytes(b)
        })
        .collect()
}

#[test]
fn vector_length_is_incremented_and_decremented() {
    let inc = increment_vec_len_function();
    assert_eq!(inc.name, "vec_increment_len");
    let mut mem = vec![0u8; 8];
    assert_eq!(call(&inc, &[V::I32(4), V::I32(41)], &mut mem, &[]), Some(vec![]));
    assert_eq!(mem[4..8], 42u32.to_le_bytes());
    let dec = decrement_vec_len_function();
    assert_eq!(dec.name, "vec_decrement_len");
    assert_eq!(call(&dec, &[V::I32(4), V::I32(42)], &mut mem, &[]), Some(vec![]));
    assert_eq!(mem[4..8], 41u32.to_le_bytes());
    // An empty vector cannot lose an element
    assert_eq!(call(&dec, &[V::I32(4), V::I32(0)], &mut mem, &[]), None);
    // Out of memory
    assert_eq!(call(&inc, &[V::I32(6), V::I32(1)], &mut mem, &[]), None);
}

#[test]
fn vector_pop_back_returns_the_last_element() {
    let callees = [decrement_vec_len_function()];
    let f = vec_pop_back_32_function();
    assert_eq!(f.name, "vec_pop_back_32");
    let mut mem = vector_memory(64, 4, &[10, 20, 30]);
    assert_eq!(call(&f, &[V::I32(0)], &mut mem, &callees), Some(vec![V::I32(30)]));
    assert_eq!(mem[8..12], 2u32.to_le_bytes());
    assert_eq!(call(&f, &[V::I32(0)], &mut mem, &callees), Some(vec![V::I32(20)]));
    assert_eq!(call(&f, &[V::I32(0)], &mut mem, &callees), Some(vec![V::I32(10)]));
    assert_eq!(mem[8..12], 0u32.to_le_bytes());
    assert_eq!(call(&f, &[V::I32(0)], &mut mem, &callees), None);

    let f = vec_pop_back_64_function();
    assert_eq!(f.name, "vec_pop_back_64");
    let mut mem = vector_memory(64, 8, &[u64::MAX, 7]);
    assert_eq!(call(&f, &[V::I32(0)], &mut mem, &callees), Some(vec![V::I64(7)]));
    assert_eq!(call(&f, &[V::I32(0)], &mut mem, &callees), Some(vec![V::I64(u64::MAX)]));
    assert_eq!(call(&f, &[V::I32(0)], &mut mem, &callees), None);
}

#[test]
fn vector_swap_exchanges_two_elements() {
    let callees = [downcast_u64_to_u32()];
    let f = vec_swap_32_function();
    assert_eq!(f.name, "vec_swap_32");
    let mut mem = vector_memory(64, 4, &[1, 2, 3, 4]);
    assert_eq!(call(&f, &[V::I32(0), V::I64(0), V::I64(3)], &mut mem, &callees), Some(vec![]));
    assert_eq!(elems_of(&mem, 4, 4), vec![4, 2, 3, 1]);
    // Equal indices change nothing
    assert_eq!(call(&f, &[V::I32(0), V::I64(2), V::I64(2)], &mut mem, &callees), Some(vec![]));
    assert_eq!(elems_of(&mem, 4, 4), vec![4, 2, 3, 1]);
    // Equal indices out of bounds trap too
    assert_eq!(call(&f, &[V::I32(0), V::I64(9), V::I64(9)], &mut mem, &callees), None);
    // An index out of bounds traps
    assert_eq!(call(&f, &[V::I32(0), V::I64(1), V::I64(4)], &mut mem, &callees), None);
    // An index that does not fit in a u32 traps
    assert_eq!(call(&f, &[V::I32(0), V::I64(1 << 32), V::I64(1 << 32)], &mut mem, &callees), None);

    let f = vec_swap_64_function();
    assert_eq!(f.name, "vec_swap_64");
    let mut mem = vector_memory(64, 8, &[u64::MAX, 5, 6]);
    assert_eq!(call(&f, &[V::I32(0), V::I64(2), V::I64(0)], &mut mem, &callees), Some(vec![]));
    assert_eq!(elems_of(&mem, 8, 3), vec![6, 5, u64::MAX]);
}

#[test]
fn vector_borrow_gives_a_reference_to_the_element() {
    // An allocator that always hands out address 56
    let alloc = FunctionBody {
        name: "alloc".to_string(),
        params: vec![ValType::I32],
        results: vec![ValType::I32],
        locals: vec![],
        body: vec![Instr::I32Const(56)],
    };
    let callees = [alloc];
    let f = vec_borrow_function();
    assert_eq!(f.name, "vec_borrow");
    let mut mem = vector_memory(64, 4, &[1, 2, 3]);
    // Elements on the heap: the element's address is the reference
    assert_eq!(call(&f, &[V::I32(0), V::I32(2), V::I32(1), V::I32(4)], &mut mem, &callees), Some(vec![V::I32(24)]));
    // Elements not on the heap: a new reference to the element
    assert_eq!(call(&f, &[V::I32(0), V::I32(1), V::I32(0), V::I32(4)], &mut mem, &callees), Some(vec![V::I32(56)]));
    assert_eq!(mem[56..60], 20u32.to_le_bytes());
    assert_eq!(call(&f, &[V::I32(0), V::I32(3), V::I32(0), V::I32(4)], &mut mem, &callees), None);
}

#[test]
fn copies_land_at_the_allocated_address() {
    // An allocator that always hands out address 64
    let alloc = FunctionBody {
        name: "alloc".to_string(),
        params: vec![ValType::I32],
        results: vec![ValType::I32],
        locals: vec![],
        body: vec![Instr::I32Const(64)],
    };
    let callees = [alloc];
    let f = copy_u128_function();
    assert_eq!(f.name, "copy_u128");
    let x: u128 = 0x0102_0304_0506_0708_090A_0B0C_0D0E_0F10;
    let mut mem = memory(128, &[(8, &x.to_le_bytes())]);
    assert_eq!(call(&f, &[V::I32(8)], &mut mem, &callees), Some(vec![V::I32(64)]));
    assert_eq!(u128::from_le_bytes(mem[64..80].try_into().unwrap()), x);
    assert_eq!(u128::from_le_bytes(mem[8..24].try_into().unwrap()), x);

    let f = copy_u256_function();
    assert_eq!(f.name, "copy_u256");
    let bytes: Vec<u8> = (1..=32).collect();
    let mut mem = memory(128, &[(0, &bytes)]);
    assert_eq!(call(&f, &[V::I32(0)], &mut mem, &callees), Some(vec![V::I32(64)]));
    assert_eq!(mem[64..96], bytes[..]);
    assert_eq!(mem[96..128], [0u8; 32]);
}

#[test]
fn id_bytes_are_found_through_the_uid() {
    let f = get_id_bytes_ptr();
    assert_eq!(f.name, "get_id_bytes_ptr");
    // struct at 40 -> UID at 48 -> ID at 56 -> bytes at 64
    let mut mem = memory(128, &[(40, &48u32.to_le_bytes()), (48, &56u32.to_le_bytes()), (56, &64u32.to_le_bytes())]);
    assert_eq!(call(&f, &[V::I32(40)], &mut mem, &[]), Some(vec![V::I32(64)]));
    // A pointer out of the memory traps
    let mut mem = memory(128, &[(40, &48u32.to_le_bytes()), (48, &500u32.to_le_bytes())]);
    assert_eq!(call(&f, &[V::I32(40)], &mut mem, &[]), None);

    // A stand-in for `write_object_slot` that records its arguments at 100 and 104
    let record = FunctionBody {
        name: "write_object_slot".to_string(),
        params: vec![ValType::I32, ValType::I32],
        results: vec![],
        locals: vec![],
        body: vec![
            Instr::I32Const(100),
            Instr::LocalGet(0),
            Instr::Store(ValType::I32, 0),
            Instr::I32Const(104),
            Instr::LocalGet(1),
            Instr::Store(ValType::I32, 0),
        ],
    };
    let callees = [get_id_bytes_ptr(), record];
    let f = locate_struct_slot();
    assert_eq!(f.name, "locate_struct_slot");
    let mut mem = memory(128, &[(40, &48u32.to_le_bytes()), (48, &56u32.to_le_bytes()), (56, &64u32.to_le_bytes())]);
    assert_eq!(call(&f, &[V::I32(40)], &mut mem, &callees), Some(vec![]));
    // The owner's id is just before the struct
    assert_eq!(mem[100..104], 8u32.to_le_bytes());
    assert_eq!(mem[104..108], 64u32.to_le_bytes());
}

#[test]
fn linking_lists_each_function_and_its_callees() {
    assert_eq!(RuntimeFunction::SwapI64Bytes.callees(), vec![Callee::Runtime(RuntimeFunction::SwapI32Bytes)]);
    assert_eq!(RuntimeFunction::VecBorrow.callees(), vec![Callee::Allocator]);
    assert_eq!(RuntimeFunction::AddU32.callees(), vec![]);
    assert_eq!(RuntimeFunction::AddU32.build().unwrap().name, "add_u32");
    assert_eq!(RuntimeFunction::VecPopBack64.build().unwrap().name, "vec_pop_back_64");
    assert!(RuntimeFunction::MulU32.build().is_none());
    assert!(RuntimeFunction::CopyU128.needs_memory());
    assert!(!RuntimeFunction::SwapI32Bytes.needs_memory());
}

#[test]
fn mapping_slot_hashes_the_key_then_the_slot() {
    let alloc = FunctionBody {
        name: "alloc".to_string(),
        params: vec![ValType::I32],
        results: vec![ValType::I32],
        locals: vec![],
        body: vec![Instr::I32Const(160)],
    };
    // A stand-in for the hash that copies its input to its output, to show what is hashed
    let hash = FunctionBody {
        name: "native_keccak256".to_string(),
        params: vec![ValType::I32, ValType::I32, ValType::I32],
        results: vec![],
        locals: vec![],
        body: vec![Instr::LocalGet(2), Instr::LocalGet(0), Instr::LocalGet(1), Instr::MemoryCopy],
    };
    let callees = [alloc, hash];
    let f = derive_mapping_slot();
    assert_eq!(f.name, "derive_mapping_slot");
    let mut mem = memory(256, &[(0, &[0xAA; 32]), (32, &[0xBB; 32])]);
    assert_eq!(call(&f, &[V::I32(0), V::I32(32), V::I32(64)], &mut mem, &callees), Some(vec![]));
    assert_eq!(mem[64..96], [0xBB; 32]);
    assert_eq!(mem[96..128], [0xAA; 32]);
}

/// Runs `body` as a function with no parameters and the given locals, on `mem`.
fn run_body(body: Vec<Instr>, locals: Vec<ValType>, results: Vec<ValType>, mem: &mut Vec<u8>, callees: &[FunctionBody]) -> Option<Vec<V>> {
    let f = FunctionBody { name: "test_function".to_string(), params: vec![], results, locals, body };
    call(&f, &[], mem, callees)
}

/// A bump allocator that keeps the next free address at `FREE`.
const FREE: u32 = 1020;

fn bump_allocator() -> FunctionBody {
    FunctionBody {
        name: "allocator".to_string(),
        params: vec![ValType::I32],
        results: vec![ValType::I32],
        locals: vec![ValType::I32],
        body: vec![
            Instr::I32Const(FREE),
            Instr::Load(ValType::I32, 0),
            Instr::LocalSet(1),
            Instr::I32Const(FREE),
            Instr::LocalGet(1),
            Instr::LocalGet(0),
            Instr::Binop(BinaryOp::I32Add),
            Instr::Store(ValType::I32, 0),
            Instr::LocalGet(1),
        ],
    }
}

/// Packs a native integer held in a local into the word at address 0.
fn pack_native(value: V, expected: &[u8]) {
    let mut body = Vec::new();
    let (constant, t, callees) = match value {
        V::I32(x) => (Instr::I32Const(x), ValType::I32, vec![swap_i32_bytes_function()]),
        V::I64(x) => (Instr::I64Const(x), ValType::I64, vec![swap_i32_bytes_function(), swap_i64_bytes_function()]),
    };
    body.push(constant);
    body.push(Instr::LocalSet(0));
    body.push(Instr::I32Const(0));
    body.push(Instr::LocalSet(1));
    match value {
        V::I32(_) => pack_i32_type_instructions(&mut body, 0, 1, 0),
        V::I64(_) => pack_i64_type_instructions(&mut body, 0, 1, 1),
    }
    body.push(Instr::LocalGet(1));
    let mut mem = vec![0u8; 1024];
    assert_eq!(run_body(body, vec![t, ValType::I32], vec![ValType::I32], &mut mem, &callees), Some(vec![V::I32(0)]));
    assert_eq!(mem[..expected.len()], expected[..]);
}

#[test]
fn test_pack_u8() {
    let enc = |x: u8| <(sol_data::Uint<8>,) as SolType>::abi_encode_params(&(x,));
    pack_native(V::I32(88), &enc(88));
    pack_native(V::I32(u8::MAX as u32), &enc(u8::MAX));
    pack_native(V::I32(u8::MIN as u32), &enc(u8::MIN));
    pack_native(V::I32((u8::MAX - 1) as u32), &enc(u8::MAX - 1));
}

#[test]
fn pack_native_int_test_unpack_u16() {
    let enc = |x: u16| <(sol_data::Uint<16>,) as SolType>::abi_encode_params(&(x,));
    pack_native(V::I32(1616), &enc(1616));
    pack_native(V::I32(u16::MAX as u32), &enc(u16::MAX));
    pack_native(V::I32(u16::MIN as u32), &enc(u16::MIN));
    pack_native(V::I32((u16::MAX - 1) as u32), &enc(u16::MAX - 1));
}

#[test]
fn pack_native_int_test_unpack_u32() {
    let enc = |x: u32| <(sol_data::Uint<32>,) as SolType>::abi_encode_params(&(x,));
    pack_native(V::I32(323232), &enc(323232));
    pack_native(V::I32(u32::MAX), &enc(u32::MAX));
    pack_native(V::I32(u32::MIN), &enc(u32::MIN));
    pack_native(V::I32(u32::MAX - 1), &enc(u32::MAX - 1));
}

#[test]
fn pack_native_int_test_unpack_u64() {
    let enc = |x: u64| <(sol_data::Uint<64>,) as SolType>::abi_encode_params(&(x,));
    pack_native(V::I64(6464646464), &enc(6464646464));
    pack_native(V::I64(u64::MAX), &enc(u64::MAX));
    pack_native(V::I64(u64::MIN), &enc(u64::MIN));
    pack_native(V::I64(u64::MAX - 1), &enc(u64::MAX - 1));
}

/// Reads a native integer argument from the ABI data at address 0.
fn unpack_native(kind: &str, data: &[u8], expected: V) {
    let mut body = Vec::new();
    body.push(Instr::I32Const(0));
    body.push(Instr::LocalSet(0));
    let callees = vec![swap_i32_bytes_function(), swap_i64_bytes_function()];
    let result = match kind {
        "u8" => {
            IU8::add_unpack_instructions(&mut body, 0, 0, 0);
            ValType::I32
        },
        "u16" => {
            IU16::add_unpack_instructions(&mut body, 0, 0, 0);
            ValType::I32
        },
        "u32" => {
            IU32::add_unpack_instructions(&mut body, 0, 0, 0);
            ValType::I32
        },
        _ => {
            IU64::add_unpack_instructions(&mut body, 0, 0, 1);
            ValType::I64
        },
    };
    let mut mem = memory(1024, &[(0, data)]);
    assert_eq!(run_body(body, vec![ValType::I32], vec![result], &mut mem, &callees), Some(vec![expected]));
}

#[test]
fn test_unpack_u8() {
    let enc = |x: u8| <(sol_data::Uint<8>,) as SolType>::abi_encode_params(&(x,));
    unpack_native("u8", &enc(88), V::I32(88));
    unpack_native("u8", &enc(u8::MAX), V::I32(u8::MAX as u32));
    unpack_native("u8", &enc(u8::MIN), V::I32(u8::MIN as u32));
    unpack_native("u8", &enc(u8::MAX - 1), V::I32((u8::MAX - 1) as u32));
}

#[test]
fn unpack_native_int_test_unpack_u16() {
    let enc = |x: u16| <(sol_data::Uint<16>,) as SolType>::abi_encode_params(&(x,));
    unpack_native("u16", &enc(1616), V::I32(1616));
    unpack_native("u16", &enc(u16::MAX), V::I32(u16::MAX as u32));
    unpack_native("u16", &enc(u16::MIN), V::I32(u16::MIN as u32));
    unpack_native("u16", &enc(u16::MAX - 1), V::I32((u16::MAX - 1) as u32));
}

#[test]
fn unpack_native_int_test_unpack_u32() {
    let enc = |x: u32| <(sol_data::Uint<32>,) as SolType>::abi_encode_params(&(x,));
    unpack_native("u32", &enc(323232), V::I32(323232));
    unpack_native("u32", &enc(u32::MAX), V::I32(u32::MAX));
    unpack_native("u32", &enc(u32::MIN), V::I32(u32::MIN));
    unpack_native("u32", &enc(u32::MAX - 1), V::I32(u32::MAX - 1));
}

#[test]
fn unpack_native_int_test_unpack_u64() {
    let enc = |x: u64| <(sol_data::Uint<64>,) as SolType>::abi_encode_params(&(x,));
    unpack_native("u64", &enc(6464646464), V::I64(6464646464));
    unpack_native("u64", &enc(u64::MAX), V::I64(u64::MAX));
    unpack_native("u64", &enc(u64::MIN), V::I64(u64::MIN));
    unpack_native("u64", &enc(u64::MAX - 1), V::I64(u64::MAX - 1));
}

/// Packs the value whose bytes `data` are kept at address 64 into the word at address 0.
fn pack_heap(kind: &str, data: &[u8], expected: &[u8]) {
    let mut body = vec![Instr::I32Const(64), Instr::LocalSet(0), Instr::I32Const(0), Instr::LocalSet(1)];
    match kind {
        "u128" => IU128::add_pack_instructions(&mut body, 0, 1, 1),
        "u256" => IU256::add_pack_instructions(&mut body, 0, 1, 1),
        "address" => IAddress::add_pack_instructions(&mut body, 0, 1),
        _ => ISigner::add_pack_instructions(&mut body, 0, 1),
    }
    body.push(Instr::LocalGet(1));
    let callees = vec![swap_i32_bytes_function(), swap_i64_bytes_function()];
    let mut mem = memory(1024, &[(64, data)]);
    assert_eq!(run_body(body, vec![ValType::I32, ValType::I32], vec![ValType::I32], &mut mem, &callees), Some(vec![V::I32(0)]));
    assert_eq!(mem[..expected.len()], expected[..]);
}

#[test]
fn test_pack_u128() {
    let enc = |x: u128| <(sol_data::Uint<128>,) as SolType>::abi_encode_params(&(x,));
    pack_heap("u128", &128128128128u128.to_le_bytes(), &enc(128128128128));
    pack_heap("u128", &u128::MAX.to_le_bytes(), &enc(u128::MAX));
    pack_heap("u128", &u128::MIN.to_le_bytes(), &enc(u128::MIN));
    pack_heap("u128", &(u128::MAX - 1).to_le_bytes(), &enc(u128::MAX - 1));
}

#[test]
fn test_pack_u256() {
    let enc = |x: U256| <(sol_data::Uint<256>,) as SolType>::abi_encode_params(&(x,));
    let v = U256::from(256256256256u128);
    pack_heap("u256", &v.to_le_bytes::<32>(), &enc(v));
    pack_heap("u256", &U256::MAX.to_le_bytes::<32>(), &enc(U256::MAX));
    pack_heap("u256", &U256::MIN.to_le_bytes::<32>(), &enc(U256::MIN));
    let v = U256::MAX - U256::from(1);
    pack_heap("u256", &v.to_le_bytes::<32>(), &enc(v));
}

fn addresses() -> Vec<Address> {
    vec![
        Address::ZERO,
        "0x1234567890abcdef1234567890abcdef12345678".parse().unwrap(),
        "0xFFFFFFFFFFFFFFFFFFFFFFFFFFFFFFFFFFFFFFFF".parse().unwrap(),
        "0xFFFFFFFFFFFFFFFFFFFFFFFFFFFFFFFFFFFFFFFE".parse().unwrap(),
    ]
}

#[test]
fn test_pack_address() {
    for a in addresses() {
        let expected = <(sol_data::Address,) as SolType>::abi_encode_params(&(a,));
        pack_heap("address", &expected, &expected);
    }
}

#[test]
fn test_pack_signer() {
    for a in addresses() {
        let expected = <(sol_data::Address,) as SolType>::abi_encode_params(&(a,));
        pack_heap("signer", &expected, &expected);
    }
}

/// Reads a heap argument from the ABI data at address 0 into memory from the bump allocator,
/// whose next free address starts right after the data.
fn unpack_heap(kind: &str, data: &[u8], expected: &[u8]) {
    let mut body = vec![Instr::I32Const(0), Instr::LocalSet(0)];
    match kind {
        "u128" => IU128::add_unpack_instructions(&mut body, 0, 0, 1, 2, 1),
        "u256" => IU256::add_unpack_instructions(&mut body, 0, 0, 1, 2, 1),
        _ => IAddress::add_unpack_instructions(&mut body, 0, 0, 1, 2),
    }
    let callees = vec![swap_i32_bytes_function(), swap_i64_bytes_function(), bump_allocator()];
    let mut mem = memory(1024, &[(0, data), (FREE as usize, &(data.len() as u32).to_le_bytes())]);
    let result = run_body(body, vec![ValType::I32, ValType::I32], vec![ValType::I32], &mut mem, &callees);
    assert_eq!(result, Some(vec![V::I32(data.len() as u32)]));
    let free = u32::from_le_bytes(mem[FREE as usize..FREE as usize + 4].try_into().unwrap());
    assert_eq!(free, (expected.len() + data.len()) as u32);
    assert_eq!(mem[data.len()..data.len() + expected.len()], expected[..]);
}

#[test]
fn test_unpack_u128() {
    let enc = |x: u128| <(sol_data::Uint<128>,) as SolType>::abi_encode_params(&(x,));
    unpack_heap("u128", &enc(88), &88u128.to_le_bytes());
    unpack_heap("u128", &enc(u128::MAX), &u128::MAX.to_le_bytes());
    unpack_heap("u128", &enc(u128::MIN), &u128::MIN.to_le_bytes());
    unpack_heap("u128", &enc(u128::MAX - 1), &(u128::MAX - 1).to_le_bytes());
}

#[test]
fn test_unpack_u256() {
    let enc = |x: U256| <(sol_data::Uint<256>,) as SolType>::abi_encode_params(&(x,));
    unpack_heap("u256", &enc(U256::from(88)), &U256::from(88).to_le_bytes::<32>());
    unpack_heap("u256", &enc(U256::MAX), &U256::MAX.to_le_bytes::<32>());
    unpack_heap("u256", &enc(U256::MIN), &U256::MIN.to_le_bytes::<32>());
    let v = U256::MAX - U256::from(1);
    unpack_heap("u256", &enc(v), &v.to_le_bytes::<32>());
}

#[test]
fn test_unpack_address() {
    for a in addresses() {
        let data = <(sol_data::Address,) as SolType>::abi_encode_params(&(a,));
        unpack_heap("address", &data, &data);
    }
}

#[test]
fn packed_values_read_back_unchanged() {
    // A u128 packed into a word and read back from it
    let x: u128 = 0x0011_2233_4455_6677_8899_AABB_CCDD_EEFF;
    let mut body = vec![Instr::I32Const(64), Instr::LocalSet(0), Instr::I32Const(0), Instr::LocalSet(1), Instr::I32Const(0), Instr::LocalSet(2)];
    IU128::add_pack_instructions(&mut body, 0, 1, 1);
    IU128::add_unpack_instructions(&mut body, 2, 2, 3, 2, 1);
    let callees = vec![swap_i32_bytes_function(), swap_i64_bytes_function(), bump_allocator()];
    let mut mem = memory(1024, &[(64, &x.to_le_bytes()), (FREE as usize, &128u32.to_le_bytes())]);
    let result = run_body(body, vec![ValType::I32; 4], vec![ValType::I32], &mut mem, &callees);
    assert_eq!(result, Some(vec![V::I32(128)]));
    assert_eq!(u128::from_le_bytes(mem[128..144].try_into().unwrap()), x);
    // A u64 packed into a word and read back from it
    let mut body = vec![Instr::I64Const(u64::MAX - 5), Instr::LocalSet(0), Instr::I32Const(0), Instr::LocalSet(1), Instr::I32Const(0), Instr::LocalSet(2)];
    pack_i64_type_instructions(&mut body, 0, 1, 1);
    IU64::add_unpack_instructions(&mut body, 2, 2, 1);
    let callees = vec![swap_i32_bytes_function(), swap_i64_bytes_function()];
    let mut mem = vec![0u8; 64];
    let result = run_body(body, vec![ValType::I64, ValType::I32, ValType::I32], vec![ValType::I64], &mut mem, &callees);
    assert_eq!(result, Some(vec![V::I64(u64::MAX - 5)]));
}

fn three_variant_enum() -> IEnum {
    let variants = (0..3u16).map(|k| IEnumVariant::new(k, 7, vec![])).collect();
    IEnum::new(7, variants)
}

#[test]
fn enums_are_packed_as_their_variant_number() {
    // The enum value at 64 is variant 2
    let mut body = vec![Instr::I32Const(64), Instr::LocalSet(0), Instr::I32Const(0), Instr::LocalSet(1)];
    IEnum::add_pack_instructions(&mut body, 0, 1, 0);
    body.push(Instr::LocalGet(1));
    let callees = vec![swap_i32_bytes_function()];
    let mut mem = memory(1024, &[(64, &2u32.to_le_bytes())]);
    assert_eq!(run_body(body, vec![ValType::I32, ValType::I32], vec![ValType::I32], &mut mem, &callees), Some(vec![V::I32(0)]));
    let expected = <(sol_data::Uint<8>,) as SolType>::abi_encode_params(&(2u8,));
    assert_eq!(mem[..32], expected[..]);
}

#[test]
fn enum_arguments_past_the_last_variant_trap() {
    let e = three_variant_enum();
    let unpack = |variant: u8| {
        let mut body = vec![Instr::I32Const(0), Instr::LocalSet(0)];
        IEnum::add_unpack_instructions(&e, &mut body, 0, 1, 2, 1, 0);
        let callees = vec![swap_i32_bytes_function(), bump_allocator()];
        let data = <(sol_data::Uint<8>,) as SolType>::abi_encode_params(&(variant,));
        let mut mem = memory(1024, &[(0, &data), (FREE as usize, &32u32.to_le_bytes())]);
        let result = run_body(body, vec![ValType::I32; 3], vec![ValType::I32], &mut mem, &callees);
        result.map(|r| (r, mem[32..36].to_vec()))
    };
    assert_eq!(unpack(0), Some((vec![V::I32(32)], 0u32.to_le_bytes().to_vec())));
    assert_eq!(unpack(2), Some((vec![V::I32(32)], 2u32.to_le_bytes().to_vec())));
    assert_eq!(unpack(3), None);
    assert_eq!(unpack(200), None);
}

#[test]
fn heap_values_are_equal_when_all_their_bytes_are() {
    let f = a_equals_b();
    assert_eq!(f.name, "heap_type_equality");
    let x: u128 = 0x1111_2222_3333_4444_5555_6666_7777_8888;
    let mut mem = memory(128, &[(0, &x.to_le_bytes()), (32, &x.to_le_bytes()), (64, &(x ^ (1 << 100)).to_le_bytes())]);
    assert_eq!(call(&f, &[V::I32(0), V::I32(32), V::I32(16)], &mut mem, &[]), Some(vec![V::I32(1)]));
    assert_eq!(call(&f, &[V::I32(0), V::I32(64), V::I32(16)], &mut mem, &[]), Some(vec![V::I32(0)]));
    // Only the first 12 bytes are compared
    assert_eq!(call(&f, &[V::I32(0), V::I32(64), V::I32(12)], &mut mem, &[]), Some(vec![V::I32(1)]));
    // The same address, and nothing to compare
    assert_eq!(call(&f, &[V::I32(64), V::I32(64), V::I32(16)], &mut mem, &[]), Some(vec![V::I32(1)]));
    assert_eq!(call(&f, &[V::I32(0), V::I32(64), V::I32(0)], &mut mem, &[]), Some(vec![V::I32(1)]));
}

#[test]
fn vectors_of_heap_values_are_equal_when_each_pair_is() {
    let f = vec_equality_heap_type();
    assert_eq!(f.name, "vec_equality_heap_type");
    let callees = [a_equals_b()];
    // Two vectors of two u128 each: elements at 8 and 40 point to the values at 100.. and 200..
    let v = |a: u32, b: u32| {
        let mut bytes = vec![0u8; 16];
        bytes[0..4].copy_from_slice(&2u32.to_le_bytes());
        bytes[4..8].copy_from_slice(&2u32.to_le_bytes());
        bytes[8..12].copy_from_slice(&a.to_le_bytes());
        bytes[12..16].copy_from_slice(&b.to_le_bytes());
        bytes
    };
    let x = 7u128.to_le_bytes();
    let y = 9u128.to_le_bytes();
    let mut mem = memory(512, &[(0, &v(100, 116)), (32, &v(200, 216)), (100, &x), (116, &y), (200, &x), (216, &y), (300, &y)]);
    assert_eq!(call(&f, &[V::I32(0), V::I32(32), V::I32(2), V::I32(16)], &mut mem, &callees), Some(vec![V::I32(1)]));
    // The second pair differs
    mem[32 + 12..32 + 16].copy_from_slice(&100u32.to_le_bytes());
    assert_eq!(call(&f, &[V::I32(0), V::I32(32), V::I32(2), V::I32(16)], &mut mem, &callees), Some(vec![V::I32(0)]));
    // Only the first pair is compared
    assert_eq!(call(&f, &[V::I32(0), V::I32(32), V::I32(1), V::I32(16)], &mut mem, &callees), Some(vec![V::I32(1)]));
    // Empty vectors are equal
    assert_eq!(call(&f, &[V::I32(0), V::I32(32), V::I32(0), V::I32(16)], &mut mem, &callees), Some(vec![V::I32(1)]));
}

/// A module with no functions or structs and one enum whose two variants have no fields.
fn module_with_a_simple_enum() -> ModuleData {
    let variants = vec![IEnumVariant::new(0, 0, vec![]), IEnumVariant::new(1, 0, vec![])];
    ModuleData {
        id: ModuleId::default(),
        functions: FunctionData { arguments: vec![], returns: vec![], calls: vec![], generic_calls: vec![], init: None },
        structs: StructData {
            structs: vec![],
            generic_structs_instances: vec![],
            fields_to_struct: vec![],
            generic_fields_to_struct: vec![],
            instantiated_fields_to_generic_fields: vec![],
        },
        enums: EnumData { enums: vec![IEnum::new(0, variants)], variants_to_enum: vec![] },
        signatures: vec![],
        datatype_handles_map: vec![],
    }
}

/// Pushes `stack` (the returned values), packs them as values of `types` and returns the
/// encoded bytes; the allocator's first free address is 400.
fn pack_returns(stack: &[Instr], types: &[IntermediateType], mut mem: Vec<u8>) -> Vec<u8> {
    let root = module_with_a_simple_enum();
    let deps: Vec<ModuleData> = vec![];
    let ctx = CompilationContext::new(&root, &deps, 0u32, 0u32);
    let callees = vec![swap_i32_bytes_function(), swap_i64_bytes_function(), bump_allocator()];
    let indices = AbiCallees { allocator: 2, swap_i32_bytes: 0, swap_i64_bytes: 1 };
    let mut body: Vec<Instr> = Vec::new();
    for instr in stack {
        body.push(match instr {
            Instr::I32Const(c) => Instr::I32Const(*c),
            Instr::I64Const(c) => Instr::I64Const(*c),
            _ => panic!("only constants are pushed"),
        });
    }
    let mut locals = Vec::new();
    let (pointer, pointer_end) = build_pack_instructions(&mut body, types, &mut locals, 0, &ctx, indices);
    body.push(Instr::LocalGet(pointer));
    body.push(Instr::LocalGet(pointer_end));
    mem[FREE as usize..FREE as usize + 4].copy_from_slice(&400u32.to_le_bytes());
    let result = run_body(body, locals, vec![ValType::I32, ValType::I32], &mut mem, &callees).unwrap();
    match result[..] {
        [V::I32(p), V::I32(len)] => mem[p as usize..(p + len) as usize].to_vec(),
        _ => panic!("expected the address and the length"),
    }
}

/// The memory of a vector at address `at`: its length, its capacity (the same), then its
/// elements, each `size` bytes little-endian.
fn vector_at(mem: &mut Vec<u8>, at: usize, elems: &[u64], size: usize) {
    mem[at..at + 4].copy_from_slice(&(elems.len() as u32).to_le_bytes());
    mem[at + 4..at + 8].copy_from_slice(&(elems.len() as u32).to_le_bytes());
    for (k, e) in elems.iter().enumerate() {
        let p = at + 8 + k * size;
        mem[p..p + size].copy_from_slice(&e.to_le_bytes()[..size]);
    }
}

#[test]
fn returned_vector_is_encoded_as_a_dynamic_array() {
    let mut mem = vec![0u8; 1024];
    vector_at(&mut mem, 200, &[1, 2, 3], 4);
    let out = pack_returns(&[Instr::I32Const(200)], &[IntermediateType::IVector(Box::new(IntermediateType::IU32))], mem);
    let expected = <(sol_data::Array<sol_data::Uint<32>>,) as SolType>::abi_encode_params(&(vec![1u32, 2, 3],));
    assert_eq!(out, expected);
}

#[test]
fn returned_values_are_encoded_as_a_tuple() {
    let mut mem = vec![0u8; 1024];
    vector_at(&mut mem, 200, &[u64::MAX, 7], 8);
    // The enum value holds its variant number
    mem[360..364].copy_from_slice(&1u32.to_le_bytes());
    let out = pack_returns(
        &[Instr::I32Const(1), Instr::I32Const(200), Instr::I32Const(360)],
        &[
            IntermediateType::IBool,
            IntermediateType::IVector(Box::new(IntermediateType::IU64)),
            IntermediateType::IEnum(0),
        ],
        mem,
    );
    let expected = <(sol_data::Bool, sol_data::Array<sol_data::Uint<64>>, sol_data::Uint<8>) as SolType>::abi_encode_params(
        &(true, vec![u64::MAX, 7], 1u8),
    );
    assert_eq!(out, expected);
}

#[test]
fn nested_vectors_are_encoded_with_offsets() {
    let mut mem = vec![0u8; 1024];
    // The outer vector holds pointers to the inner ones
    vector_at(&mut mem, 100, &[140, 180], 4);
    // Each `u8` element takes four bytes, as on the stack
    vector_at(&mut mem, 140, &[5, 6, 7], 4);
    vector_at(&mut mem, 180, &[8], 4);
    let inner = IntermediateType::IVector(Box::new(IntermediateType::IU8));
    let out = pack_returns(&[Instr::I32Const(100)], &[IntermediateType::IVector(Box::new(inner))], mem);
    let expected = <(sol_data::Array<sol_data::Array<sol_data::Uint<8>>>,) as SolType>::abi_encode_params(
        &(vec![vec![5u8, 6, 7], vec![8u8]],),
    );
    assert_eq!(out, expected);
}

#[test]
fn references_are_encoded_as_what_they_refer_to() {
    let mut mem = vec![0u8; 1024];
    vector_at(&mut mem, 200, &[9, 10], 4);
    // A reference to the vector holds its address
    mem[300..304].copy_from_slice(&200u32.to_le_bytes());
    mem[320..328].copy_from_slice(&6464u64.to_le_bytes());
    mem[340..356].copy_from_slice(&128128u128.to_le_bytes());
    let out = pack_returns(
        &[Instr::I32Const(300), Instr::I32Const(320), Instr::I32Const(340)],
        &[
            IntermediateType::IRef(Box::new(IntermediateType::IVector(Box::new(IntermediateType::IU32)))),
            IntermediateType::IMutRef(Box::new(IntermediateType::IU64)),
            IntermediateType::IRef(Box::new(IntermediateType::IU128)),
        ],
        mem,
    );
    let expected = <(sol_data::Array<sol_data::Uint<32>>, sol_data::Uint<64>, sol_data::Uint<128>) as SolType>::abi_encode_params(
        &(vec![9u32, 10], 6464u64, 128128u128),
    );
    assert_eq!(out, expected);
}

/// Reads arguments of `types` from their encoding `data`, kept at address 0, and returns the
/// values left on the stack (`None` on a trap) and the memory; the allocator's first free address
/// is 600.
fn unpack_arguments(types: &[IntermediateType], results: Vec<ValType>, data: &[u8]) -> (Option<Vec<V>>, Vec<u8>) {
    let root = module_with_a_simple_enum();
    let deps: Vec<ModuleData> = vec![];
    let ctx = CompilationContext::new(&root, &deps, 0u32, 0u32);
    let callees = vec![swap_i32_bytes_function(), swap_i64_bytes_function(), bump_allocator()];
    let indices = AbiCallees { allocator: 2, swap_i32_bytes: 0, swap_i64_bytes: 1 };
    // Local 0 holds the address of the arguments
    let mut locals = vec![ValType::I32];
    let mut body = vec![Instr::I32Const(0), Instr::LocalSet(0)];
    build_unpack_instructions(&mut body, types, 0, &mut locals, 0, &ctx, indices);
    let mut mem = memory(1024, &[(0, data)]);
    mem[FREE as usize..FREE as usize + 4].copy_from_slice(&600u32.to_le_bytes());
    let result = run_body(body, locals, results, &mut mem, &callees);
    (result, mem)
}

fn u32_at(mem: &[u8], at: u32) -> u32 {
    u32::from_le_bytes(mem[at as usize..at as usize + 4].try_into().unwrap())
}

#[test]
fn arguments_are_read_onto_the_stack() {
    let data = <(sol_data::Uint<32>, sol_data::Array<sol_data::Uint<32>>, sol_data::Bool) as SolType>::abi_encode_params(
        &(7u32, vec![1u32, 2, 3], true),
    );
    let types = [
        IntermediateType::IU32,
        IntermediateType::IVector(Box::new(IntermediateType::IU32)),
        IntermediateType::IBool,
    ];
    let (result, mem) = unpack_arguments(&types, vec![ValType::I32, ValType::I32, ValType::I32], &data);
    let result = result.unwrap();
    assert_eq!(result[0], V::I32(7));
    assert_eq!(result[2], V::I32(1));
    // The vector: its length, its capacity, then its elements
    let V::I32(v) = result[1] else { panic!("expected a pointer") };
    assert_eq!(v, 600);
    assert_eq!([u32_at(&mem, v), u32_at(&mem, v + 4)], [3, 3]);
    assert_eq!([u32_at(&mem, v + 8), u32_at(&mem, v + 12), u32_at(&mem, v + 16)], [1, 2, 3]);
}

#[test]
fn nested_vector_arguments_are_read_into_nested_vectors() {
    let data = <(sol_data::Array<sol_data::Array<sol_data::Uint<8>>>,) as SolType>::abi_encode_params(
        &(vec![vec![5u8, 6], vec![], vec![9u8]],),
    );
    let inner = IntermediateType::IVector(Box::new(IntermediateType::IU8));
    let types = [IntermediateType::IVector(Box::new(inner))];
    let (result, mem) = unpack_arguments(&types, vec![ValType::I32], &data);
    let V::I32(v) = result.unwrap()[0] else { panic!("expected a pointer") };
    assert_eq!([u32_at(&mem, v), u32_at(&mem, v + 4)], [3, 3]);
    let elements: Vec<Vec<u32>> = (0..3)
        .map(|k| {
            let w = u32_at(&mem, v + 8 + 4 * k);
            (0..u32_at(&mem, w)).map(|e| u32_at(&mem, w + 8 + 4 * e)).collect()
        })
        .collect();
    assert_eq!(elements, vec![vec![5, 6], vec![], vec![9]]);
}

#[test]
fn reference_arguments_point_to_their_values() {
    let data = <(sol_data::Uint<64>, sol_data::Array<sol_data::Uint<8>>, sol_data::Uint<8>) as SolType>::abi_encode_params(
        &(6464u64, vec![4u8], 1u8),
    );
    let types = [
        IntermediateType::IRef(Box::new(IntermediateType::IU64)),
        IntermediateType::IMutRef(Box::new(IntermediateType::IVector(Box::new(IntermediateType::IU8)))),
        IntermediateType::IEnum(0),
    ];
    let (result, mem) = unpack_arguments(&types, vec![ValType::I32, ValType::I32, ValType::I32], &data);
    let result = result.unwrap();
    let [V::I32(r), V::I32(v), V::I32(e)] = result[..] else { panic!("expected three pointers") };
    assert_eq!(u64::from_le_bytes(mem[r as usize..r as usize + 8].try_into().unwrap()), 6464);
    assert_eq!([u32_at(&mem, v), u32_at(&mem, v + 8)], [1, 4]);
    assert_eq!(u32_at(&mem, e), 1);
}

#[test]
fn vector_offset_past_32_bits_traps() {
    let mut data = <(sol_data::Array<sol_data::Uint<32>>,) as SolType>::abi_encode_params(&(vec![1u32],));
    data[3] = 1;
    let types = [IntermediateType::IVector(Box::new(IntermediateType::IU32))];
    let (result, _) = unpack_arguments(&types, vec![ValType::I32], &data);
    assert_eq!(result, None);
}

#[test]
fn enum_argument_past_the_last_variant_traps() {
    let data = <(sol_data::Uint<8>,) as SolType>::abi_encode_params(&(2u8,));
    let (result, _) = unpack_arguments(&[IntermediateType::IEnum(0)], vec![ValType::I32], &data);
    assert_eq!(result, None);
}

/// A module's state: one page of memory holding `data` at address 0, the globals of the
/// allocator that the memory setup builds, whose first free address is `offset`, and the
/// callees of the packing code (see `ABI_CALLEES`).
struct Machine {
    mem: Vec<u8>,
    globals: Vec<V>,
    callees: Vec<FunctionBody>,
}

/// The positions of the callees in a `Machine`.
const ABI_CALLEES: AbiCallees = AbiCallees { allocator: 2, swap_i32_bytes: 0, swap_i64_bytes: 1 };

fn machine(data: &[u8], offset: Option<i32>) -> Machine {
    let setup = setup_module_memory(offset);
    let mut mem = vec![0u8; PAGE];
    mem[..data.len()].copy_from_slice(data);
    Machine {
        mem,
        globals: vec![V::I32(setup.next_free_memory_pointer as u32), V::I32(setup.available_memory as u32)],
        callees: vec![swap_i32_bytes_function(), swap_i64_bytes_function(), setup.allocator],
    }
}

impl Machine {
    /// Runs `body` as a function with parameters `params` (given `args`), the further locals
    /// `locals` and the results `results`.
    fn run(&mut self, params: Vec<ValType>, args: &[V], locals: Vec<ValType>, results: Vec<ValType>, body: Vec<Instr>) -> Option<Vec<V>> {
        let f = FunctionBody { name: "test_function".to_string(), params, results, locals, body };
        call_in(&f, args, &mut self.mem, &mut self.globals, &self.callees)
    }

    fn allocate(&mut self, size: i32) -> i32 {
        let allocator = clone_body(&self.callees[2]);
        match call_in(&allocator, &[V::I32(size as u32)], &mut self.mem, &mut self.globals, &[]) {
            Some(r) => match r[..] {
                [V::I32(p)] => p as i32,
                _ => panic!("the allocator returns an address"),
            },
            None => panic!("the allocator trapped"),
        }
    }

    fn next_free(&self) -> i32 {
        match self.globals[0] {
            V::I32(p) => p as i32,
            _ => panic!("the next free address is an i32"),
        }
    }

    fn available(&self) -> i32 {
        match self.globals[1] {
            V::I32(p) => p as i32,
            _ => panic!("the available memory is an i32"),
        }
    }

    fn read(&self, at: u32, len: usize) -> Vec<u8> {
        self.mem[at as usize..at as usize + len].to_vec()
    }
}

/// A copy of a function.
fn clone_body(f: &FunctionBody) -> FunctionBody {
    FunctionBody {
        name: f.name.clone(),
        params: f.params.clone(),
        results: f.results.clone(),
        locals: f.locals.clone(),
        body: clone_instrs(&f.body),
    }
}

fn clone_instrs(instrs: &[Instr]) -> Vec<Instr> {
    instrs
        .iter()
        .map(|i| match i {
            Instr::LocalGet(l) => Instr::LocalGet(*l),
            Instr::LocalSet(l) => Instr::LocalSet(*l),
            Instr::LocalTee(l) => Instr::LocalTee(*l),
            Instr::I32Const(c) => Instr::I32Const(*c),
            Instr::I64Const(c) => Instr::I64Const(*c),
            Instr::Binop(op) => Instr::Binop(*op),
            Instr::Unop(op) => Instr::Unop(*op),
            Instr::Call(k) => Instr::Call(*k),
            Instr::Unreachable => Instr::Unreachable,
            Instr::IfElse(t, a, b) => Instr::IfElse(*t, clone_instrs(a), clone_instrs(b)),
            Instr::Load(t, o) => Instr::Load(*t, *o),
            Instr::Store(t, o) => Instr::Store(*t, *o),
            Instr::Block(b) => Instr::Block(clone_instrs(b)),
            Instr::Loop(b) => Instr::Loop(clone_instrs(b)),
            Instr::Br(d) => Instr::Br(*d),
            Instr::BrIf(d) => Instr::BrIf(*d),
            Instr::Return => Instr::Return,
            Instr::MemoryCopy => Instr::MemoryCopy,
            Instr::GlobalGet(g) => Instr::GlobalGet(*g),
            Instr::GlobalSet(g) => Instr::GlobalSet(*g),
            Instr::MemoryGrow => Instr::MemoryGrow,
        })
        .collect()
}

#[test]
fn test_memory_allocator() {
    let mut m = machine(&[], None);
    assert_eq!(m.allocate(2), 0);
    assert_eq!(m.mem.len() / PAGE, 1);
    assert_eq!(m.available(), MEMORY_PAGE_SIZE - 2);

    assert_eq!(m.allocate(2), 2);
    assert_eq!(m.mem.len() / PAGE, 1);
    assert_eq!(m.available(), MEMORY_PAGE_SIZE - 4);

    assert_eq!(m.allocate(MEMORY_PAGE_SIZE - 4), 4);
    assert_eq!(m.mem.len() / PAGE, 1);
    assert_eq!(m.available(), 0);

    assert_eq!(m.allocate(2), 65536);
    assert_eq!(m.mem.len() / PAGE, 2);
    assert_eq!(m.available(), MEMORY_PAGE_SIZE - 2);
}

/// Packs the value of type `ref_type` found through `data`, kept at the start of memory, into a
/// word allocated after it, and compares the packed bytes with `expected_calldata_bytes`.
fn test_pack(data: &[u8], ref_type: IntermediateType, expected_calldata_bytes: &[u8]) {
    let root = module_with_a_simple_enum();
    let deps: Vec<ModuleData> = vec![];
    let ctx = CompilationContext::new(&root, &deps, 0u32, 2u32);
    let mut m = machine(data, None);
    // Locals: the value, the writer pointer and the calldata reference
    let mut locals = vec![ValType::I32, ValType::I32, ValType::I32];
    let mut body = vec![
        // Allocate data (what to write)
        Instr::I32Const(data.len() as u32),
        Instr::Call(2),
        Instr::LocalSet(0),
        // Allocate calldata (where to write)
        Instr::I32Const(ref_type.encoded_size() as u32),
        Instr::Call(2),
        Instr::LocalTee(1),
        Instr::LocalSet(2),
    ];
    ref_type.add_pack_instructions(&mut body, &mut locals, 0, 0, 1, 2, &ctx, ABI_CALLEES);
    body.push(Instr::LocalGet(1));
    let result = m.run(vec![], &[], locals, vec![ValType::I32], body);
    let [V::I32(result_ptr)] = result.unwrap()[..] else { panic!("expected the writer pointer") };
    assert_eq!(m.read(result_ptr, expected_calldata_bytes.len()), expected_calldata_bytes, "Packed calldata did not match expected result");
}

fn address_ff() -> Address {
    Address::from([0xFF; 20])
}

#[test]
fn test_pack_ref_u8() {
    let ref_type = IntermediateType::IRef(Box::new(IntermediateType::IU8));
    let heap_data = 88u32.to_le_bytes().to_vec();
    let expected = <(sol_data::Uint<8>,) as SolType>::abi_encode_params(&(88u8,));
    test_pack(&heap_data, ref_type, &expected);
}

#[test]
fn test_pack_ref_u32() {
    let ref_type = IntermediateType::IRef(Box::new(IntermediateType::IU32));
    let heap_data = 88u32.to_le_bytes().to_vec();
    let expected = <(sol_data::Uint<32>,) as SolType>::abi_encode_params(&(88u32,));
    test_pack(&heap_data, ref_type, &expected);
}

#[test]
fn test_pack_ref_u64() {
    let ref_type = IntermediateType::IRef(Box::new(IntermediateType::IU64));
    let heap_data = 88u64.to_le_bytes().to_vec();
    let expected = <(sol_data::Uint<64>,) as SolType>::abi_encode_params(&(88u64,));
    test_pack(&heap_data, ref_type, &expected);
}

#[test]
fn test_pack_ref_u128() {
    let ref_type = IntermediateType::IRef(Box::new(IntermediateType::IU128));
    let heap_data = 88u128.to_le_bytes().to_vec();
    let expected = <(sol_data::Uint<128>,) as SolType>::abi_encode_params(&(88u128,));
    test_pack(&heap_data, ref_type, &expected);
}

#[test]
fn test_pack_ref_address() {
    let ref_type = IntermediateType::IRef(Box::new(IntermediateType::IAddress));
    let expected = <(sol_data::Address,) as SolType>::abi_encode_params(&(address_ff(),));
    test_pack(&expected, ref_type, &expected);
}

#[test]
fn test_pack_ref_signer() {
    let ref_type = IntermediateType::IRef(Box::new(IntermediateType::ISigner));
    let expected_result = <(sol_data::Address,) as SolType>::abi_encode_params(&(address_ff(),));
    test_pack(&expected_result, ref_type, &expected_result);
}

fn words(values: &[u32]) -> Vec<u8> {
    values.iter().flat_map(|v| v.to_le_bytes()).collect()
}

#[test]
fn test_pack_ref_vec_u8() {
    let ref_type = IntermediateType::IRef(Box::new(IntermediateType::IVector(Box::new(IntermediateType::IU8))));
    let expected = <(sol_data::Array<sol_data::Uint<8>>,) as SolType>::abi_encode_params(&(vec![1u8, 2u8, 3u8],));
    test_pack(&words(&[3, 3, 1, 2, 3]), ref_type, &expected);
}

#[test]
fn test_pack_ref_vec_u128() {
    let ref_type = IntermediateType::IRef(Box::new(IntermediateType::IVector(Box::new(IntermediateType::IU128))));
    let mut heap_data = Vec::new();
    // Length and capacity
    heap_data.extend(&3u32.to_le_bytes());
    heap_data.extend(&4u32.to_le_bytes());
    // Pointers to heap-allocated u128 values
    heap_data.extend(&24u32.to_le_bytes());
    heap_data.extend(&40u32.to_le_bytes());
    heap_data.extend(&56u32.to_le_bytes());
    heap_data.extend(&0u32.to_le_bytes());
    // The values at those pointers
    heap_data.extend(&1u128.to_le_bytes());
    heap_data.extend(&2u128.to_le_bytes());
    heap_data.extend(&3u128.to_le_bytes());
    let expected_calldata = <(sol_data::Array<sol_data::Uint<128>>,) as SolType>::abi_encode_params(&(vec![1u128, 2u128, 3u128],));
    test_pack(&heap_data, ref_type, &expected_calldata);
}

#[test]
fn test_pack_ref_vector_vector_u32() {
    let ref_type = IntermediateType::IRef(Box::new(IntermediateType::IVector(Box::new(IntermediateType::IVector(
        Box::new(IntermediateType::IU32),
    )))));
    let expected_result = <(sol_data::Array<sol_data::Array<sol_data::Uint<32>>>,) as SolType>::abi_encode_params(
        &(vec![vec![1u32, 2, 3], vec![4u32, 5, 6]],),
    );
    let data = words(&[2, 4, 24, 56, 0, 0, 3, 6, 1, 2, 3, 0, 0, 0, 3, 6, 4, 5, 6, 0, 0, 0]);
    test_pack(&data, ref_type, &expected_result);
}

fn u128_vector_of_vectors_in_memory() -> Vec<u8> {
    [
        words(&[2, 2, 16, 84, 3, 3, 36, 52, 68]),
        [1u128.to_le_bytes(), 2u128.to_le_bytes(), 3u128.to_le_bytes()].concat(),
        words(&[3, 3, 104, 120, 136]),
        [4u128.to_le_bytes(), 5u128.to_le_bytes(), 6u128.to_le_bytes()].concat(),
    ]
    .concat()
}

#[test]
fn test_pack_ref_vector_vector_u128() {
    let ref_type = IntermediateType::IRef(Box::new(IntermediateType::IVector(Box::new(IntermediateType::IVector(
        Box::new(IntermediateType::IU128),
    )))));
    let expected_result = <(sol_data::Array<sol_data::Array<sol_data::Uint<128>>>,) as SolType>::abi_encode_params(
        &(vec![vec![1u128, 2, 3], vec![4u128, 5, 6]],),
    );
    test_pack(&u128_vector_of_vectors_in_memory(), ref_type, &expected_result);
}

/// Reads an argument of type `ref_type` from its encoding `data`, kept at the start of memory,
/// with the allocator starting after it, and compares the memory at the returned pointer, and
/// how much was allocated, with `expected_memory_bytes`.
fn test_unpack_ref(data: &[u8], ref_type: IntermediateType, expected_memory_bytes: &[u8]) {
    let root = module_with_a_simple_enum();
    let deps: Vec<ModuleData> = vec![];
    let ctx = CompilationContext::new(&root, &deps, 0u32, 2u32);
    let mut m = machine(data, Some(data.len() as i32));
    // Locals: the reader pointer and the calldata reader pointer
    let mut locals = vec![ValType::I32, ValType::I32];
    let mut body = vec![Instr::I32Const(0), Instr::LocalTee(0), Instr::LocalSet(1)];
    ref_type.add_unpack_instructions(&mut body, &mut locals, 0, 0, 1, &ctx, ABI_CALLEES);
    let result = m.run(vec![], &[], locals, vec![ValType::I32], body);
    let [V::I32(result_ptr)] = result.unwrap()[..] else { panic!("expected a pointer") };
    assert_eq!(m.next_free(), (expected_memory_bytes.len() + data.len()) as i32);
    assert_eq!(m.read(result_ptr, expected_memory_bytes.len()), expected_memory_bytes, "Heap memory at returned pointer does not match expected content");
}

#[test]
fn test_unpack_ref_u8() {
    let int_type = IntermediateType::IRef(Box::new(IntermediateType::IU8));
    let data = <(sol_data::Uint<8>,) as SolType>::abi_encode_params(&(88u8,));
    test_unpack_ref(&data, int_type, &88u32.to_le_bytes());
}

#[test]
fn test_unpack_ref_u32() {
    let int_type = IntermediateType::IRef(Box::new(IntermediateType::IU32));
    let data = <(sol_data::Uint<32>,) as SolType>::abi_encode_params(&(88u32,));
    test_unpack_ref(&data, int_type, &88u32.to_le_bytes());
}

#[test]
fn test_unpack_ref_u64() {
    let int_type = IntermediateType::IRef(Box::new(IntermediateType::IU64));
    let data = <(sol_data::Uint<64>,) as SolType>::abi_encode_params(&(88u64,));
    test_unpack_ref(&data, int_type, &88u64.to_le_bytes());
}

#[test]
fn test_unpack_ref_u128() {
    let int_type = IntermediateType::IRef(Box::new(IntermediateType::IU128));
    let data = <(sol_data::Uint<128>,) as SolType>::abi_encode_params(&(123u128,));
    test_unpack_ref(&data, int_type, &123u128.to_le_bytes());
}

#[test]
fn test_unpack_ref_u256() {
    let int_type = IntermediateType::IRef(Box::new(IntermediateType::IU256));
    let value = U256::from(123u128);
    let data = <(sol_data::Uint<256>,) as SolType>::abi_encode_params(&(value,));
    test_unpack_ref(&data, int_type, &value.to_le_bytes::<32>());
}

#[test]
fn test_unpack_ref_vec_u8() {
    let vector_type = IntermediateType::IRef(Box::new(IntermediateType::IVector(Box::new(IntermediateType::IU8))));
    let data = <(sol_data::Array<sol_data::Uint<8>>,) as SolType>::abi_encode_params(&(vec![1u8, 2u8, 3u8, 4u8],));
    test_unpack_ref(&data, vector_type, &words(&[4, 4, 1, 2, 3, 4]));
}

#[test]
fn test_unpack_ref_vec_128() {
    let vector_type = IntermediateType::IRef(Box::new(IntermediateType::IVector(Box::new(IntermediateType::IU128))));
    let data = <(sol_data::Array<sol_data::Uint<128>>,) as SolType>::abi_encode_params(&(vec![1u128, 2u128, 3u128],));
    let expected = [
        words(&[3, 3, 180, 196, 212]),
        [1u128.to_le_bytes(), 2u128.to_le_bytes(), 3u128.to_le_bytes()].concat(),
    ]
    .concat();
    test_unpack_ref(&data, vector_type, &expected);
}

#[test]
fn test_unpack_ref_address() {
    let ref_type = IntermediateType::IRef(Box::new(IntermediateType::IAddress));
    let data = <(sol_data::Address,) as SolType>::abi_encode_params(&(address_ff(),));
    test_unpack_ref(&data, ref_type, &data);
}

/// Reads a vector argument of type `int_type` from its encoding `data`, as `test_unpack_ref`
/// does, and checks that the vector starts where the data ends.
fn test_vec_unpacking(data: &[u8], int_type: IntermediateType, expected_result_bytes: &[u8]) {
    let root = module_with_a_simple_enum();
    let deps: Vec<ModuleData> = vec![];
    let ctx = CompilationContext::new(&root, &deps, 0u32, 2u32);
    let mut m = machine(data, Some(data.len() as i32));
    let mut locals = vec![ValType::I32, ValType::I32];
    let mut body = vec![Instr::I32Const(0), Instr::LocalTee(0), Instr::LocalSet(1)];
    int_type.add_unpack_instructions(&mut body, &mut locals, 0, 0, 1, &ctx, ABI_CALLEES);
    let result = m.run(vec![], &[], locals, vec![ValType::I32], body);
    let [V::I32(result)] = result.unwrap()[..] else { panic!("expected a pointer") };
    assert_eq!(result, data.len() as u32);
    assert_eq!(m.next_free(), (expected_result_bytes.len() + data.len()) as i32);
    assert_eq!(m.read(result, expected_result_bytes.len()), expected_result_bytes);
}

#[test]
fn test_unpack_vector_u8() {
    let int_type = IntermediateType::IVector(Box::new(IntermediateType::IU8));
    let data = <(sol_data::Array<sol_data::Uint<8>>,) as SolType>::abi_encode_params(&(vec![1u8, 2, 3],));
    test_vec_unpacking(&data, int_type, &words(&[3, 3, 1, 2, 3]));
}

#[test]
fn test_unpack_vector_u16() {
    let int_type = IntermediateType::IVector(Box::new(IntermediateType::IU16));
    let data = <(sol_data::Array<sol_data::Uint<16>>,) as SolType>::abi_encode_params(&(vec![1u16, 2],));
    test_vec_unpacking(&data, int_type, &words(&[2, 2, 1, 2]));
}

#[test]
fn test_unpack_vector_u32() {
    let int_type = IntermediateType::IVector(Box::new(IntermediateType::IU32));
    let data = <(sol_data::Array<sol_data::Uint<32>>,) as SolType>::abi_encode_params(&(vec![1u32, 2, 3],));
    test_vec_unpacking(&data, int_type, &words(&[3, 3, 1, 2, 3]));
}

#[test]
fn test_unpack_vector_u64() {
    let int_type = IntermediateType::IVector(Box::new(IntermediateType::IU64));
    let data = <(sol_data::Array<sol_data::Uint<64>>,) as SolType>::abi_encode_params(&(vec![1u64, 2, 3],));
    let expected = [words(&[3, 3]), [1u64.to_le_bytes(), 2u64.to_le_bytes(), 3u64.to_le_bytes()].concat()].concat();
    test_vec_unpacking(&data, int_type, &expected);
}

#[test]
fn test_unpack_vector_u128() {
    let int_type = IntermediateType::IVector(Box::new(IntermediateType::IU128));
    let data = <(sol_data::Array<sol_data::Uint<128>>,) as SolType>::abi_encode_params(&(vec![1u128, 2, 3],));
    let d = data.len() as u32;
    let expected = [
        words(&[3, 3, d + 20, d + 36, d + 52]),
        [1u128.to_le_bytes(), 2u128.to_le_bytes(), 3u128.to_le_bytes()].concat(),
    ]
    .concat();
    test_vec_unpacking(&data, int_type, &expected);
}

#[test]
fn test_unpack_vector_u256() {
    let int_type = IntermediateType::IVector(Box::new(IntermediateType::IU256));
    let values = vec![U256::from(1), U256::from(2), U256::from(3)];
    let data = <(sol_data::Array<sol_data::Uint<256>>,) as SolType>::abi_encode_params(&(values,));
    let d = data.len() as u32;
    let expected = [
        words(&[3, 3, d + 20, d + 52, d + 84]),
        [U256::from(1).to_le_bytes::<32>(), U256::from(2).to_le_bytes::<32>(), U256::from(3).to_le_bytes::<32>()].concat(),
    ]
    .concat();
    test_vec_unpacking(&data, int_type, &expected);
}

fn address_1234() -> Address {
    let bytes: [u8; 20] = [
        0x12, 0x34, 0x56, 0x78, 0x90, 0xab, 0xcd, 0xef, 0x12, 0x34, 0x56, 0x78, 0x90, 0xab, 0xcd, 0xef, 0x12, 0x34, 0x56, 0x78,
    ];
    Address::from(bytes)
}

#[test]
fn test_unpack_vector_address() {
    let int_type = IntermediateType::IVector(Box::new(IntermediateType::IAddress));
    let data = <(sol_data::Array<sol_data::Address>,) as SolType>::abi_encode_params(&(vec![address_1234(), address_1234(), address_1234()],));
    let d = data.len() as u32;
    let padded = [vec![0u8; 12], address_1234().as_slice().to_vec()].concat();
    let expected = [words(&[3, 3, d + 20, d + 52, d + 84]), padded.clone(), padded.clone(), padded].concat();
    test_vec_unpacking(&data, int_type, &expected);
}

#[test]
fn unpack_vector_test_unpack_vector_vector_u32() {
    let int_type = IntermediateType::IVector(Box::new(IntermediateType::IVector(Box::new(IntermediateType::IU32))));
    let data = <(sol_data::Array<sol_data::Array<sol_data::Uint<32>>>,) as SolType>::abi_encode_params(
        &(vec![vec![1u32, 2, 3], vec![4u32, 5, 6]],),
    );
    let d = data.len() as u32;
    let expected = words(&[2, 2, d + 16, d + 36, 3, 3, 1, 2, 3, 3, 3, 4, 5, 6]);
    test_vec_unpacking(&data, int_type, &expected);
}

#[test]
fn unpack_vector_test_unpack_vector_vector_u128() {
    let int_type = IntermediateType::IVector(Box::new(IntermediateType::IVector(Box::new(IntermediateType::IU128))));
    let data = <(sol_data::Array<sol_data::Array<sol_data::Uint<128>>>,) as SolType>::abi_encode_params(
        &(vec![vec![1u128, 2, 3], vec![4u128, 5, 6]],),
    );
    let d = data.len() as u32;
    let expected = [
        words(&[2, 2, d + 16, d + 84, 3, 3, d + 36, d + 52, d + 68]),
        [1u128.to_le_bytes(), 2u128.to_le_bytes(), 3u128.to_le_bytes()].concat(),
        words(&[3, 3, d + 104, d + 120, d + 136]),
        [4u128.to_le_bytes(), 5u128.to_le_bytes(), 6u128.to_le_bytes()].concat(),
    ]
    .concat();
    test_vec_unpacking(&data, int_type, &expected);
}

/// Packs the values `stack` pushes, of types `types`, as returned values, in a function of two
/// `i32` parameters, and checks that the encoded data is at `pointer_addr` and is `data`.
fn check_build_pack(m: &mut Machine, stack: Vec<Instr>, types: &[IntermediateType], pointer_addr: u32, data: &[u8]) {
    let root = module_with_a_simple_enum();
    let deps: Vec<ModuleData> = vec![];
    let ctx = CompilationContext::new(&root, &deps, 0u32, 2u32);
    let mut body = stack;
    let mut locals = Vec::new();
    let (data_start, data_end) = build_pack_instructions(&mut body, types, &mut locals, 2, &ctx, ABI_CALLEES);
    body.push(Instr::LocalGet(data_start));
    body.push(Instr::LocalGet(data_end));
    let result = m.run(
        vec![ValType::I32, ValType::I32],
        &[V::I32(0), V::I32(data.len() as u32)],
        locals,
        vec![ValType::I32, ValType::I32],
        body,
    );
    let [V::I32(pointer), V::I32(length)] = result.unwrap()[..] else { panic!("expected a pointer and a length") };
    assert_eq!(pointer, pointer_addr);
    assert_eq!(length, data.len() as u32);
    assert_eq!(m.read(pointer, length as usize), data);
}

#[test]
fn test_build_pack_instructions() {
    let mut m = machine(&[], None);
    let data = <(sol_data::Bool, sol_data::Uint<16>, sol_data::Uint<64>) as SolType>::abi_encode(&(true, 1234, 123456789012345));
    check_build_pack(
        &mut m,
        vec![Instr::I32Const(1), Instr::I32Const(1234), Instr::I64Const(123456789012345)],
        &[IntermediateType::IBool, IntermediateType::IU16, IntermediateType::IU64],
        0,
        &data,
    );
}

#[test]
fn test_build_pack_instructions_memory_offset() {
    // Memory offset starts at 100
    let mut m = machine(&[], Some(100));
    let data = <(sol_data::Bool, sol_data::Uint<16>, sol_data::Uint<64>) as SolType>::abi_encode(&(true, 1234, 123456789012345));
    check_build_pack(
        &mut m,
        vec![Instr::I32Const(1), Instr::I32Const(1234), Instr::I64Const(123456789012345)],
        &[IntermediateType::IBool, IntermediateType::IU16, IntermediateType::IU64],
        100,
        &data,
    );
}

#[test]
fn test_build_pack_instructions_dynamic_types() {
    let data = [u128_vector_of_vectors_in_memory(), U256::from(123456789012345u128).to_le_bytes::<32>().to_vec()].concat();
    let data_len = data.len() as i32;
    let mut m = machine(&data, Some(data_len));
    let expected_data = <(sol_data::Uint<16>, sol_data::Array<sol_data::Array<sol_data::Uint<128>>>, sol_data::Uint<256>) as SolType>::abi_encode_params(
        &(1234, vec![vec![1u128, 2, 3], vec![4u128, 5, 6]], U256::from(123456789012345u128)),
    );
    check_build_pack(
        &mut m,
        // The `u16`, the vector pointer and the `u256` pointer
        vec![Instr::I32Const(1234), Instr::I32Const(0), Instr::I32Const(152)],
        &[
            IntermediateType::IU16,
            IntermediateType::IVector(Box::new(IntermediateType::IVector(Box::new(IntermediateType::IU128)))),
            IntermediateType::IU256,
        ],
        data_len as u32,
        &expected_data,
    );
}

/// Reads arguments of types `types` from `data`, kept at the start of memory, in a function whose
/// parameters are the address of the arguments and their length, called with `args_pointer`.
fn check_build_unpack(data: Vec<u8>, args_pointer: u32, types: &[IntermediateType], results: Vec<ValType>) -> Vec<V> {
    let root = module_with_a_simple_enum();
    let deps: Vec<ModuleData> = vec![];
    let ctx = CompilationContext::new(&root, &deps, 0u32, 2u32);
    let mut m = machine(&data, None);
    let mut body = Vec::new();
    let mut locals = Vec::new();
    build_unpack_instructions(&mut body, types, 0, &mut locals, 2, &ctx, ABI_CALLEES);
    let data_len = data.len() as u32 - args_pointer;
    m.run(vec![ValType::I32, ValType::I32], &[V::I32(args_pointer), V::I32(data_len)], locals, results, body).unwrap()
}

#[test]
fn test_build_unpack_instructions() {
    let data = <(sol_data::Bool, sol_data::Uint<16>, sol_data::Uint<64>) as SolType>::abi_encode_params(&(true, 1234, 123456789012345));
    let values = check_build_unpack(
        data,
        0,
        &[IntermediateType::IBool, IntermediateType::IU16, IntermediateType::IU64],
        vec![ValType::I32, ValType::I32, ValType::I64],
    );
    assert_eq!(values[0], V::I32(1));
    assert_eq!(values[1], V::I32(1234));
    assert_eq!(values[2], V::I64(123456789012345));
}

#[test]
fn test_build_unpack_instructions_reversed() {
    let data = <(sol_data::Uint<64>, sol_data::Uint<16>, sol_data::Bool) as SolType>::abi_encode_params(&(123456789012345, 1234, true));
    let values = check_build_unpack(
        data,
        0,
        &[IntermediateType::IU64, IntermediateType::IU16, IntermediateType::IBool],
        vec![ValType::I64, ValType::I32, ValType::I32],
    );
    assert_eq!(values[0], V::I64(123456789012345));
    assert_eq!(values[1], V::I32(1234));
    assert_eq!(values[2], V::I32(1));
}

#[test]
fn test_build_unpack_instructions_offset_memory() {
    let data = <(sol_data::Bool, sol_data::Uint<16>, sol_data::Uint<64>) as SolType>::abi_encode_params(&(true, 1234, 123456789012345));
    // Offset data by 10 bytes
    let data = [vec![0; 10], data].concat();
    let values = check_build_unpack(
        data,
        10,
        &[IntermediateType::IBool, IntermediateType::IU16, IntermediateType::IU64],
        vec![ValType::I32, ValType::I32, ValType::I64],
    );
    assert_eq!(values[0], V::I32(1));
    assert_eq!(values[1], V::I32(1234));
    assert_eq!(values[2], V::I64(123456789012345));
}

/// A host function that writes the 20 bytes 1, 2, ..., 20 at the address it is given.
fn tx_origin_stub() -> FunctionBody {
    let low = u64::from_le_bytes([1, 2, 3, 4, 5, 6, 7, 8]);
    let mid = u64::from_le_bytes([9, 10, 11, 12, 13, 14, 15, 16]);
    let high = u32::from_le_bytes([17, 18, 19, 20]);
    FunctionBody {
        name: "tx_origin".to_string(),
        params: vec![ValType::I32],
        results: vec![],
        locals: vec![],
        body: vec![
            Instr::LocalGet(0),
            Instr::I64Const(low),
            Instr::Store(ValType::I64, 0),
            Instr::LocalGet(0),
            Instr::I64Const(mid),
            Instr::Store(ValType::I64, 8),
            Instr::LocalGet(0),
            Instr::I32Const(high),
            Instr::Store(ValType::I32, 16),
        ],
    }
}

#[test]
fn the_signer_is_the_origin_at_the_end_of_a_word() {
    let mut m = machine(&[], Some(64));
    m.callees.push(tx_origin_stub());
    let mut body = Vec::new();
    inject_signer(&mut body, 0, 2, 3);
    let result = m.run(vec![], &[], vec![ValType::I32], vec![ValType::I32], body);
    let [V::I32(p)] = result.unwrap()[..] else { panic!("expected a pointer") };
    assert_eq!(p, 64);
    assert_eq!(m.next_free(), 96);
    assert_eq!(m.read(p, 12), vec![0u8; 12]);
    assert_eq!(m.read(p + 12, 20), (1..=20).collect::<Vec<u8>>());
}

#[test]
fn the_transaction_context_takes_four_bytes() {
    let mut m = machine(&[], Some(100));
    let mut body = Vec::new();
    TxContext::inject_tx_context(&mut body, 2);
    let result = m.run(vec![], &[], vec![], vec![ValType::I32], body);
    assert_eq!(result, Some(vec![V::I32(100)]));
    assert_eq!(m.next_free(), 104);
}

#[test]
fn packing_an_empty_vector_writes_its_offset_and_a_zero_length() {
    let ref_type = IntermediateType::IRef(Box::new(IntermediateType::IVector(Box::new(IntermediateType::IU32))));
    let empty: Vec<u32> = vec![];
    let expected = <(sol_data::Array<sol_data::Uint<32>>,) as SolType>::abi_encode_params(&(empty,));
    test_pack(&words(&[0, 0]), ref_type, &expected);
}

#[test]
fn packing_a_vector_with_an_empty_inner_vector() {
    let ref_type = IntermediateType::IRef(Box::new(IntermediateType::IVector(Box::new(IntermediateType::IVector(
        Box::new(IntermediateType::IU32),
    )))));
    let expected = <(sol_data::Array<sol_data::Array<sol_data::Uint<32>>>,) as SolType>::abi_encode_params(
        &(vec![vec![], vec![7u32]],),
    );
    // The outer vector at 0 points to the inner vectors at 16 and 24
    let data = words(&[2, 2, 16, 24, 0, 0, 1, 1, 7]);
    test_pack(&data, ref_type, &expected);
}

#[test]
fn test_unpack_vector_u8_empty() {
    let int_type = IntermediateType::IVector(Box::new(IntermediateType::IU8));
    let empty: Vec<u8> = vec![];
    let data = <(sol_data::Array<sol_data::Uint<8>>,) as SolType>::abi_encode_params(&(empty,));
    let expected_result_bytes = [0u64.to_le_bytes().as_slice(), 0u64.to_le_bytes().as_slice()].concat();
    test_vec_unpacking(&data, int_type, &expected_result_bytes);
}

// The vectors below are laid out as the library keeps them: length, capacity, then the
// elements (a heap value's element is its address).

#[test]
fn test_pack_vector_u8() {
    let int_type = IntermediateType::IVector(Box::new(IntermediateType::IU8));
    let expected_result = <(sol_data::Array<sol_data::Uint<8>>,) as SolType>::abi_encode_params(&(vec![1u8, 2, 3],));
    test_pack(&words(&[3, 3, 1, 2, 3]), int_type, &expected_result);
}

#[test]
fn test_pack_vector_u16() {
    let int_type = IntermediateType::IVector(Box::new(IntermediateType::IU16));
    let expected_result = <(sol_data::Array<sol_data::Uint<16>>,) as SolType>::abi_encode_params(&(vec![1u16, 2, 3],));
    test_pack(&words(&[3, 3, 1, 2, 3]), int_type, &expected_result);
}

#[test]
fn test_pack_vector_u32() {
    let int_type = IntermediateType::IVector(Box::new(IntermediateType::IU32));
    let expected_result = <(sol_data::Array<sol_data::Uint<32>>,) as SolType>::abi_encode_params(&(vec![1u32, 2, 3],));
    test_pack(&words(&[3, 3, 1, 2, 3]), int_type, &expected_result);
}

#[test]
fn test_pack_vector_u64() {
    let int_type = IntermediateType::IVector(Box::new(IntermediateType::IU64));
    let expected_result = <(sol_data::Array<sol_data::Uint<64>>,) as SolType>::abi_encode_params(&(vec![1u64, 2, 3],));
    let data = [words(&[3, 3]), 1u64.to_le_bytes().to_vec(), 2u64.to_le_bytes().to_vec(), 3u64.to_le_bytes().to_vec()].concat();
    test_pack(&data, int_type, &expected_result);
}

#[test]
fn test_pack_vector_u128() {
    let int_type = IntermediateType::IVector(Box::new(IntermediateType::IU128));
    let expected_result = <(sol_data::Array<sol_data::Uint<128>>,) as SolType>::abi_encode_params(&(vec![1u128, 2, 3],));
    let data = [
        words(&[3, 3, 20, 36, 52]),
        1u128.to_le_bytes().to_vec(),
        2u128.to_le_bytes().to_vec(),
        3u128.to_le_bytes().to_vec(),
    ]
    .concat();
    test_pack(&data, int_type, &expected_result);
}

#[test]
fn test_pack_vector_u256() {
    let int_type = IntermediateType::IVector(Box::new(IntermediateType::IU256));
    let expected_result = <(sol_data::Array<sol_data::Uint<256>>,) as SolType>::abi_encode_params(
        &(vec![U256::from(1), U256::from(2), U256::from(3)],),
    );
    let data = [
        words(&[3, 3, 20, 52, 84]),
        U256::from(1).to_le_bytes::<32>().to_vec(),
        U256::from(2).to_le_bytes::<32>().to_vec(),
        U256::from(3).to_le_bytes::<32>().to_vec(),
    ]
    .concat();
    test_pack(&data, int_type, &expected_result);
}

#[test]
fn test_pack_vector_address() {
    let int_type = IntermediateType::IVector(Box::new(IntermediateType::IAddress));
    let a: Address = "0x1234567890abcdef1234567890abcdef12345678".parse().unwrap();
    let expected_result = <(sol_data::Array<sol_data::Address>,) as SolType>::abi_encode_params(&(vec![a, a, a],));
    let data = [
        words(&[3, 3, 20, 52, 84]),
        vec![0u8; 12],
        a.as_slice().to_vec(),
        vec![0u8; 12],
        a.as_slice().to_vec(),
        vec![0u8; 12],
        a.as_slice().to_vec(),
    ]
    .concat();
    test_pack(&data, int_type, &expected_result);
}

#[test]
fn pack_vector_test_unpack_vector_vector_u32() {
    let int_type = IntermediateType::IVector(Box::new(IntermediateType::IVector(Box::new(IntermediateType::IU32))));
    let expected_result = <(sol_data::Array<sol_data::Array<sol_data::Uint<32>>>,) as SolType>::abi_encode_params(
        &(vec![vec![1u32, 2, 3], vec![4u32, 5, 6]],),
    );
    let data = words(&[2, 2, 16, 36, 3, 3, 1, 2, 3, 3, 3, 4, 5, 6]);
    test_pack(&data, int_type, &expected_result);
}

#[test]
fn pack_vector_test_unpack_vector_vector_u128() {
    let int_type = IntermediateType::IVector(Box::new(IntermediateType::IVector(Box::new(IntermediateType::IU128))));
    let expected_result = <(sol_data::Array<sol_data::Array<sol_data::Uint<128>>>,) as SolType>::abi_encode_params(
        &(vec![vec![1u128, 2, 3], vec![4u128, 5, 6]],),
    );
    test_pack(&u128_vector_of_vectors_in_memory(), int_type, &expected_result);
}

/// Packs the struct with fields `fields` held at address 0 of `data` as the tuple of its fields
/// expanded in place, and checks the encoded data.
fn test_pack_struct(data: &[u8], fields: Vec<IntermediateType>, head_size: u32, expected: &[u8]) {
    let root = module_with_a_simple_enum();
    let deps: Vec<ModuleData> = vec![];
    let ctx = CompilationContext::new(&root, &deps, 0u32, 2u32);
    let strct = IStruct {
        struct_definition_index: 0,
        identifier: "Foo".to_string(),
        field_handles: fields.iter().map(|_| None).collect(),
        fields,
        saved_in_storage: false,
        is_one_time_witness: false,
    };
    let mut m = machine(data, None);
    let mut locals = vec![ValType::I32, ValType::I32, ValType::I32];
    let mut body = vec![
        Instr::I32Const(data.len() as u32),
        Instr::Call(2),
        Instr::LocalSet(0),
        Instr::I32Const(head_size),
        Instr::Call(2),
        Instr::LocalTee(1),
        Instr::LocalSet(2),
    ];
    strct.add_pack_instructions(&mut body, &mut locals, 0, 0, 1, 2, &ctx, ABI_CALLEES);
    body.push(Instr::LocalGet(1));
    let result = m.run(vec![], &[], locals, vec![ValType::I32], body);
    let [V::I32(result_ptr)] = result.unwrap()[..] else { panic!("expected the writer pointer") };
    assert_eq!(m.read(result_ptr, expected.len()), expected);
}

#[test]
fn packing_a_struct_of_integers_writes_its_fields_in_place() {
    // The struct at 0 points to its fields' values at 12, 16 and 24
    let data = [words(&[12, 16, 24, 7]), 123456789012345u64.to_le_bytes().to_vec(), words(&[u32::MAX])].concat();
    let fields = vec![IntermediateType::IU8, IntermediateType::IU64, IntermediateType::IU32];
    let expected = <(sol_data::Uint<8>, sol_data::Uint<64>, sol_data::Uint<32>) as SolType>::abi_encode_params(
        &(7u8, 123456789012345u64, u32::MAX),
    );
    test_pack_struct(&data, fields, 96, &expected);
}

#[test]
fn packing_a_dynamic_struct_alone_expands_it_in_place() {
    // Foo { x: 254, y: [1, 2, u32::MAX], z: [1, 2, u128::MAX] }: the struct at 0 points to x's
    // value at 12 and to the vectors at 16 and 36; z's values are at 56, 72 and 88
    let data = [
        words(&[12, 16, 36, 254, 3, 3, 1, 2, u32::MAX, 3, 3, 56, 72, 88]),
        1u128.to_le_bytes().to_vec(),
        2u128.to_le_bytes().to_vec(),
        u128::MAX.to_le_bytes().to_vec(),
    ]
    .concat();
    let fields = vec![
        IntermediateType::IU8,
        IntermediateType::IVector(Box::new(IntermediateType::IU32)),
        IntermediateType::IVector(Box::new(IntermediateType::IU128)),
    ];
    let expected = <(sol_data::Uint<8>, sol_data::Array<sol_data::Uint<32>>, sol_data::Array<sol_data::Uint<128>>) as SolType>::abi_encode_params(
        &(254u8, vec![1u32, 2, u32::MAX], vec![1u128, 2, u128::MAX]),
    );
    assert_eq!(expected.len(), 352);
    test_pack_struct(&data, fields, 96, &expected);
}

fn struct_of(fields: Vec<IntermediateType>) -> IStruct {
    IStruct {
        struct_definition_index: 0,
        identifier: "Foo".to_string(),
        field_handles: fields.iter().map(|_| None).collect(),
        fields,
        saved_in_storage: false,
        is_one_time_witness: false,
    }
}

/// Reads the struct `strct` from the encoded arguments `data`, and returns the machine, the
/// struct's address and the reader pointer afterwards.
fn unpack_struct_from(data: &[u8], strct: &IStruct) -> (Machine, u32, u32) {
    let root = module_with_a_simple_enum();
    let deps: Vec<ModuleData> = vec![];
    let ctx = CompilationContext::new(&root, &deps, 0u32, 2u32);
    let mut m = machine(data, Some(data.len() as i32));
    let mut locals = vec![ValType::I32, ValType::I32];
    let mut body = vec![Instr::I32Const(0), Instr::LocalTee(0), Instr::LocalSet(1)];
    strct.add_unpack_instructions(&mut body, &mut locals, 0, 0, 1, &ctx, ABI_CALLEES);
    body.push(Instr::LocalGet(0));
    let result = m.run(vec![], &[], locals, vec![ValType::I32, ValType::I32], body);
    let [V::I32(p), V::I32(reader)] = result.unwrap()[..] else { panic!("expected the struct and the reader") };
    (m, p, reader)
}

fn machine_u32(m: &Machine, at: u32) -> u32 {
    u32::from_le_bytes(m.read(at, 4).try_into().unwrap())
}

#[test]
fn unpacking_a_static_struct_reads_its_fields_in_place() {
    let strct = struct_of(vec![IntermediateType::IU8, IntermediateType::IU64, IntermediateType::IU32]);
    let data = <(sol_data::Uint<8>, sol_data::Uint<64>, sol_data::Uint<32>) as SolType>::abi_encode_params(
        &(7u8, 123456789012345u64, u32::MAX),
    );
    let (m, p, reader) = unpack_struct_from(&data, &strct);
    assert_eq!(p, data.len() as u32);
    assert_eq!(reader, 96);
    assert_eq!(machine_u32(&m, machine_u32(&m, p)), 7);
    assert_eq!(u64::from_le_bytes(m.read(machine_u32(&m, p + 4), 8).try_into().unwrap()), 123456789012345);
    assert_eq!(machine_u32(&m, machine_u32(&m, p + 8)), u32::MAX);
}

#[test]
fn unpacking_a_dynamic_struct_follows_its_offset() {
    let strct = struct_of(vec![IntermediateType::IU8, IntermediateType::IVector(Box::new(IntermediateType::IU32))]);
    let data = <((sol_data::Uint<8>, sol_data::Array<sol_data::Uint<32>>),) as SolType>::abi_encode_params(
        &((254u8, vec![1u32, 2, 3]),),
    );
    let (m, p, reader) = unpack_struct_from(&data, &strct);
    // Only the argument's word, the offset, is passed
    assert_eq!(reader, 32);
    assert_eq!(machine_u32(&m, machine_u32(&m, p)), 254);
    let v = machine_u32(&m, p + 4);
    assert_eq!(m.read(v, 20), words(&[3, 3, 1, 2, 3]));
}

#[test]
fn packing_then_unpacking_a_vector_gives_it_back() {
    let root = module_with_a_simple_enum();
    let deps: Vec<ModuleData> = vec![];
    let ctx = CompilationContext::new(&root, &deps, 0u32, 2u32);
    let t = IntermediateType::IVector(Box::new(IntermediateType::IU32));
    let data = words(&[3, 3, 7, u32::MAX, 0]);
    let mut m = machine(&data, None);
    // Pack the vector at 0 into a fresh word, keeping the word's address
    let mut locals = vec![ValType::I32, ValType::I32, ValType::I32];
    let mut body = vec![
        Instr::I32Const(data.len() as u32),
        Instr::Call(2),
        Instr::LocalSet(0),
        Instr::I32Const(32),
        Instr::Call(2),
        Instr::LocalTee(1),
        Instr::LocalSet(2),
    ];
    t.add_pack_instructions(&mut body, &mut locals, 0, 0, 1, 2, &ctx, ABI_CALLEES);
    body.push(Instr::LocalGet(2));
    let packed = m.run(vec![], &[], locals, vec![ValType::I32], body);
    let [V::I32(word)] = packed.unwrap()[..] else { panic!("expected the word's address") };
    // Read it back from that word
    let mut locals = vec![ValType::I32, ValType::I32];
    let mut body = vec![Instr::I32Const(word), Instr::LocalTee(0), Instr::LocalSet(1)];
    t.add_unpack_instructions(&mut body, &mut locals, 0, 0, 1, &ctx, ABI_CALLEES);
    let read = m.run(vec![], &[], locals, vec![ValType::I32], body);
    let [V::I32(v)] = read.unwrap()[..] else { panic!("expected a vector") };
    assert_eq!(m.read(v, 20), data);
}

#[test]
fn a_struct_returned_alone_is_expanded_in_place() {
    let foo_fields = vec![
        IntermediateType::IU8,
        IntermediateType::IVector(Box::new(IntermediateType::IU32)),
        IntermediateType::IVector(Box::new(IntermediateType::IU128)),
    ];
    let mut root = module_with_a_simple_enum();
    root.structs.structs.push(struct_of(foo_fields));
    let deps: Vec<ModuleData> = vec![];
    let ctx = CompilationContext::new(&root, &deps, 0u32, 2u32);
    // Foo { x: 254, y: [1, 2, u32::MAX], z: [1, 2, u128::MAX] } at 0 (see the test of
    // `IStruct::add_pack_instructions`)
    let data = [
        words(&[12, 16, 36, 254, 3, 3, 1, 2, u32::MAX, 3, 3, 56, 72, 88]),
        1u128.to_le_bytes().to_vec(),
        2u128.to_le_bytes().to_vec(),
        u128::MAX.to_le_bytes().to_vec(),
    ]
    .concat();
    let mut m = machine(&data, Some(data.len() as i32));
    let foo = IntermediateType::IStruct { module_id: ModuleId::default(), index: 0 };
    let mut body = vec![Instr::I32Const(0)];
    let mut locals = Vec::new();
    let (data_start, data_end) = build_pack_instructions(&mut body, &[foo], &mut locals, 0, &ctx, ABI_CALLEES);
    body.push(Instr::LocalGet(data_start));
    body.push(Instr::LocalGet(data_end));
    let result = m.run(vec![], &[], locals, vec![ValType::I32, ValType::I32], body);
    let [V::I32(pointer), V::I32(length)] = result.unwrap()[..] else { panic!("expected a pointer and a length") };
    let expected = words_be(&[254, 96, 224, 3, 1, 2, u32::MAX]);
    let z = [words_be(&[3]), u128_words_be(&[1, 2, u128::MAX])].concat();
    assert_eq!(length, 352);
    assert_eq!(m.read(pointer, 352), [expected, z].concat());
}

/// Each value as a 32-byte big-endian word.
fn words_be(values: &[u32]) -> Vec<u8> {
    values.iter().flat_map(|v| U256::from(*v).to_be_bytes::<32>()).collect()
}

fn u128_words_be(values: &[u128]) -> Vec<u8> {
    values.iter().flat_map(|v| U256::from(*v).to_be_bytes::<32>()).collect()
}
