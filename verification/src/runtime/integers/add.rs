//! Additions that trap on overflow: of `u32` and `u64` values, and of integers stored in memory
//! (`u128` and `u256`), with a carry from part to part.
use vstd::prelude::*;

use crate::runtime::{RuntimeFunction, runtime_function_name};
use crate::runtime::integers::{
    lemma_flags_or, lemma_wrap32_sum, lemma_wrap64_sum, number_at, trap_if,
};
use crate::runtime::integers::sub::{
    lemma_number_next_part, lemma_number_same, lemma_splice, result_memory, same_or_apart, splice,
};
use crate::wasm::{
    BinaryOp, Completion, FunctionBody, FunctionView, Instr, InstrView, Outcome, UnaryOp, ValType,
    Value, args1, args2, args4, instrs_view, invoke, le_bytes, lemma_le_value_fits, lemma_wrap64_range,
    push_instr, run, wrap32, wrap64, zeros,
};

verus! {

/// The locals of the addition: the operands' and the result's addresses, the size, the offset
/// of the current part, the carry, the last part of the sum, and the last parts of the
/// operands.
pub open spec fn add_locals(n1: u32, n2: u32, p: u32, size: u32, offset: u32, carry: u32, sum: u64, x: u64, y: u64) -> Seq<Value> {
    seq![
        Value::I32(n1),
        Value::I32(n2),
        Value::I32(p),
        Value::I32(size),
        Value::I32(offset),
        Value::I32(carry),
        Value::I64(sum),
        Value::I64(x),
        Value::I64(y),
    ]
}

/// One part of the addition: leave when every part was done; else add the parts at the offset
/// and the carry, store the sum, work out the new carry, and go on with the next part.
pub open spec fn heap_add_loop() -> Seq<InstrView> {
    seq![
        InstrView::LocalGet(4),
        InstrView::LocalGet(3),
        InstrView::Binop(BinaryOp::I32Eq),
        InstrView::BrIf(1),
        InstrView::LocalGet(0),
        InstrView::LocalGet(4),
        InstrView::Binop(BinaryOp::I32Add),
        InstrView::Load(ValType::I64, 0),
        InstrView::LocalTee(7),
        InstrView::LocalGet(1),
        InstrView::LocalGet(4),
        InstrView::Binop(BinaryOp::I32Add),
        InstrView::Load(ValType::I64, 0),
        InstrView::LocalTee(8),
        InstrView::Binop(BinaryOp::I64Add),
        InstrView::LocalGet(5),
        InstrView::Unop(UnaryOp::I64ExtendUI32),
        InstrView::Binop(BinaryOp::I64Add),
        InstrView::LocalSet(6),
        InstrView::LocalGet(2),
        InstrView::LocalGet(4),
        InstrView::Binop(BinaryOp::I32Add),
        InstrView::LocalGet(6),
        InstrView::Store(ValType::I64, 0),
        InstrView::LocalGet(7),
        InstrView::I64Const(0),
        InstrView::Binop(BinaryOp::I64Ne),
        InstrView::LocalGet(8),
        InstrView::I64Const(0),
        InstrView::Binop(BinaryOp::I64Ne),
        InstrView::Binop(BinaryOp::I32And),
        InstrView::LocalGet(5),
        InstrView::Unop(UnaryOp::I64ExtendUI32),
        InstrView::I64Const(0),
        InstrView::Binop(BinaryOp::I64Ne),
        InstrView::Binop(BinaryOp::I32Or),
        InstrView::LocalGet(6),
        InstrView::LocalGet(7),
        InstrView::Binop(BinaryOp::I64LeU),
        InstrView::LocalGet(6),
        InstrView::LocalGet(8),
        InstrView::Binop(BinaryOp::I64LeU),
        InstrView::Binop(BinaryOp::I32Or),
        InstrView::Binop(BinaryOp::I32And),
        InstrView::LocalSet(5),
        InstrView::LocalGet(4),
        InstrView::I32Const(8),
        InstrView::Binop(BinaryOp::I32Add),
        InstrView::LocalSet(4),
        InstrView::Br(0),
    ]
}

/// The function that adds two numbers in memory and stores the sum.
pub open spec fn heap_integers_add_code() -> FunctionView {
    FunctionView {
        name: runtime_function_name(RuntimeFunction::HeapIntSum),
        params: seq![ValType::I32, ValType::I32, ValType::I32, ValType::I32],
        results: seq![ValType::I32],
        locals: seq![ValType::I32, ValType::I32, ValType::I64, ValType::I64, ValType::I64],
        body: seq![
            InstrView::I32Const(0),
            InstrView::LocalSet(4),
            InstrView::I32Const(0),
            InstrView::LocalSet(5),
            InstrView::Block(seq![InstrView::Loop(heap_add_loop())]),
            InstrView::LocalGet(5),
            InstrView::I32Const(1),
            InstrView::Binop(BinaryOp::I32Eq),
            InstrView::IfElse(Some(ValType::I32), seq![InstrView::Unreachable], seq![InstrView::LocalGet(2)]),
        ],
    }
}

/// The flag of a condition.
pub open spec fn flag(c: bool) -> u32 {
    if c { 1 } else { 0 }
}

/// `&` and `|` of two flags are the flags of the conjunction and the disjunction.
proof fn lemma_flag_ops(a: bool, b: bool)
    ensures
        flag(a) & flag(b) == flag(a && b),
        flag(a) | flag(b) == flag(a || b),
{
    let x = flag(a);
    let y = flag(b);
    assert((x == 0 || x == 1) && (y == 0 || y == 1));
    assert(x <= 1 && y <= 1 ==> (x & y) == (if x == 1 && y == 1 { 1u32 } else { 0u32 })
        && (x | y) == (if x == 1 || y == 1 { 1u32 } else { 0u32 })) by (bit_vector);
}

/// The first pass step: leave the loop when the offset reached the size.
#[verifier::rlimit(30)]
proof fn lemma_add_check(env: Seq<FunctionView>, fuel: nat, m: Seq<u8>, n1: u32, n2: u32, p: u32, size: u32, o: u32, carry: u32, sum: u64, x: u64, y: u64)
    ensures
        ({
            let l = add_locals(n1, n2, p, size, o, carry, sum, x, y);
            &&& o == size ==> run(env, fuel, heap_add_loop(), 0, Seq::empty(), l, m) == Outcome::Break(1, l, m)
            &&& o != size ==> run(env, fuel, heap_add_loop(), 0, Seq::empty(), l, m) == run(env, fuel, heap_add_loop(), 4, Seq::empty(), l, m)
        }),
{
    let lb = heap_add_loop();
    let e = Seq::<Value>::empty();
    let l = add_locals(n1, n2, p, size, o, carry, sum, x, y);
    let c = Value::I32(flag(o == size));
    assert(run(env, fuel, lb, 0, e, l, m) == run(env, fuel, lb, 1, e.push(Value::I32(o)), l, m));
    assert(run(env, fuel, lb, 1, e.push(Value::I32(o)), l, m) == run(env, fuel, lb, 2, e.push(Value::I32(o)).push(Value::I32(size)), l, m));
    assert(e.push(Value::I32(o)).push(Value::I32(size)).drop_last().drop_last() =~= e);
    assert(run(env, fuel, lb, 2, e.push(Value::I32(o)).push(Value::I32(size)), l, m) == run(env, fuel, lb, 3, e.push(c), l, m));
    assert(e.push(c).drop_last() =~= e);
}

/// Loading the part of the first operand at the offset, kept on the stack.
#[verifier::rlimit(30)]
proof fn lemma_add_load_first(env: Seq<FunctionView>, fuel: nat, m: Seq<u8>, n1: u32, n2: u32, p: u32, size: u32, o: u32, carry: u32, sum: u64, x: u64, y: u64)
    requires
        n1 + o + 8 <= m.len(),
        n1 + o <= u32::MAX,
    ensures
        ({
            let a = number_at(m, n1 + o, 8);
            &&& a <= u64::MAX
            &&& run(env, fuel, heap_add_loop(), 4, Seq::empty(), add_locals(n1, n2, p, size, o, carry, sum, x, y), m)
                == run(env, fuel, heap_add_loop(), 9, Seq::empty().push(Value::I64(a as u64)),
                    add_locals(n1, n2, p, size, o, carry, sum, a as u64, y), m)
        }),
{
    let lb = heap_add_loop();
    let e = Seq::<Value>::empty();
    let l = add_locals(n1, n2, p, size, o, carry, sum, x, y);
    let a = number_at(m, n1 + o, 8);
    lemma_le_value_fits(m.subrange(n1 + o, n1 + o + 8));
    let va = Value::I64(a as u64);
    let aa = (n1 + o) as u32;
    assert(wrap32(n1 + o) == aa);
    let l1 = add_locals(n1, n2, p, size, o, carry, sum, a as u64, y);
    assert(run(env, fuel, lb, 4, e, l, m) == run(env, fuel, lb, 5, e.push(Value::I32(n1)), l, m));
    assert(run(env, fuel, lb, 5, e.push(Value::I32(n1)), l, m) == run(env, fuel, lb, 6, e.push(Value::I32(n1)).push(Value::I32(o)), l, m));
    assert(e.push(Value::I32(n1)).push(Value::I32(o)).drop_last().drop_last() =~= e);
    assert(run(env, fuel, lb, 6, e.push(Value::I32(n1)).push(Value::I32(o)), l, m) == run(env, fuel, lb, 7, e.push(Value::I32(aa)), l, m));
    assert(e.push(Value::I32(aa)).drop_last() =~= e);
    assert(run(env, fuel, lb, 7, e.push(Value::I32(aa)), l, m) == run(env, fuel, lb, 8, e.push(va), l, m));
    assert(l.update(7, va) =~= l1);
    assert(run(env, fuel, lb, 8, e.push(va), l, m) == run(env, fuel, lb, 9, e.push(va), l1, m));
}

/// Loading the part of the second operand at the offset, kept on the stack.
#[verifier::rlimit(30)]
proof fn lemma_add_load_second(env: Seq<FunctionView>, fuel: nat, m: Seq<u8>, n1: u32, n2: u32, p: u32, size: u32, o: u32, carry: u32, sum: u64, x: u64, y: u64)
    requires
        n2 + o + 8 <= m.len(),
        n2 + o <= u32::MAX,
    ensures
        ({
            let b = number_at(m, n2 + o, 8);
            &&& b <= u64::MAX
            &&& run(env, fuel, heap_add_loop(), 9, Seq::empty().push(Value::I64(x)), add_locals(n1, n2, p, size, o, carry, sum, x, y), m)
                == run(env, fuel, heap_add_loop(), 14, Seq::empty().push(Value::I64(x)).push(Value::I64(b as u64)),
                    add_locals(n1, n2, p, size, o, carry, sum, x, b as u64), m)
        }),
{
    let lb = heap_add_loop();
    let e = Seq::<Value>::empty().push(Value::I64(x));
    let l = add_locals(n1, n2, p, size, o, carry, sum, x, y);
    let b = number_at(m, n2 + o, 8);
    lemma_le_value_fits(m.subrange(n2 + o, n2 + o + 8));
    let vb = Value::I64(b as u64);
    let ba = (n2 + o) as u32;
    assert(wrap32(n2 + o) == ba);
    let l1 = add_locals(n1, n2, p, size, o, carry, sum, x, b as u64);
    assert(run(env, fuel, lb, 9, e, l, m) == run(env, fuel, lb, 10, e.push(Value::I32(n2)), l, m));
    assert(run(env, fuel, lb, 10, e.push(Value::I32(n2)), l, m) == run(env, fuel, lb, 11, e.push(Value::I32(n2)).push(Value::I32(o)), l, m));
    assert(e.push(Value::I32(n2)).push(Value::I32(o)).drop_last().drop_last() =~= e);
    assert(run(env, fuel, lb, 11, e.push(Value::I32(n2)).push(Value::I32(o)), l, m) == run(env, fuel, lb, 12, e.push(Value::I32(ba)), l, m));
    assert(e.push(Value::I32(ba)).drop_last() =~= e);
    assert(run(env, fuel, lb, 12, e.push(Value::I32(ba)), l, m) == run(env, fuel, lb, 13, e.push(vb), l, m));
    assert(l.update(8, vb) =~= l1);
    assert(run(env, fuel, lb, 13, e.push(vb), l, m) == run(env, fuel, lb, 14, e.push(vb), l1, m));
}

/// The part of the sum: the two parts and the carry, modulo 2^64.
#[verifier::rlimit(30)]
proof fn lemma_add_sum(env: Seq<FunctionView>, fuel: nat, m: Seq<u8>, n1: u32, n2: u32, p: u32, size: u32, o: u32, carry: u32, sum: u64, x: u64, y: u64)
    ensures
        run(env, fuel, heap_add_loop(), 14, Seq::empty().push(Value::I64(x)).push(Value::I64(y)), add_locals(n1, n2, p, size, o, carry, sum, x, y), m)
            == run(env, fuel, heap_add_loop(), 19, Seq::empty(),
                add_locals(n1, n2, p, size, o, carry, wrap64(wrap64(x + y) + carry as u64), x, y), m),
{
    let lb = heap_add_loop();
    let e = Seq::<Value>::empty();
    let l = add_locals(n1, n2, p, size, o, carry, sum, x, y);
    let s1 = wrap64(x + y);
    let s2 = wrap64(s1 + carry as u64);
    let l2 = add_locals(n1, n2, p, size, o, carry, s2, x, y);
    let vs1 = Value::I64(s1);
    assert(e.push(Value::I64(x)).push(Value::I64(y)).drop_last().drop_last() =~= e);
    assert(run(env, fuel, lb, 14, e.push(Value::I64(x)).push(Value::I64(y)), l, m) == run(env, fuel, lb, 15, e.push(vs1), l, m));
    assert(run(env, fuel, lb, 15, e.push(vs1), l, m) == run(env, fuel, lb, 16, e.push(vs1).push(Value::I32(carry)), l, m));
    assert(e.push(vs1).push(Value::I32(carry)).drop_last() =~= e.push(vs1));
    assert(run(env, fuel, lb, 16, e.push(vs1).push(Value::I32(carry)), l, m)
        == run(env, fuel, lb, 17, e.push(vs1).push(Value::I64(carry as u64)), l, m));
    assert(e.push(vs1).push(Value::I64(carry as u64)).drop_last().drop_last() =~= e);
    assert(run(env, fuel, lb, 17, e.push(vs1).push(Value::I64(carry as u64)), l, m) == run(env, fuel, lb, 18, e.push(Value::I64(s2)), l, m));
    assert(e.push(Value::I64(s2)).drop_last() =~= e);
    assert(l.update(6, Value::I64(s2)) =~= l2);
    assert(run(env, fuel, lb, 18, e.push(Value::I64(s2)), l, m) == run(env, fuel, lb, 19, e, l2, m));
}

/// Storing the part of the sum at the offset of the result.
#[verifier::rlimit(30)]
proof fn lemma_add_store(env: Seq<FunctionView>, fuel: nat, m: Seq<u8>, n1: u32, n2: u32, p: u32, size: u32, o: u32, carry: u32, sum: u64, x: u64, y: u64)
    requires
        p + o + 8 <= m.len(),
        p + o <= u32::MAX,
    ensures
        run(env, fuel, heap_add_loop(), 19, Seq::empty(), add_locals(n1, n2, p, size, o, carry, sum, x, y), m)
            == run(env, fuel, heap_add_loop(), 24, Seq::empty(), add_locals(n1, n2, p, size, o, carry, sum, x, y),
                splice(m, p + o, le_bytes(sum as nat, 8))),
{
    let lb = heap_add_loop();
    let e = Seq::<Value>::empty();
    let l = add_locals(n1, n2, p, size, o, carry, sum, x, y);
    let pa = (p + o) as u32;
    assert(wrap32(p + o) == pa);
    crate::wasm::lemma_le_bytes_len(sum as nat, 8);
    assert(run(env, fuel, lb, 19, e, l, m) == run(env, fuel, lb, 20, e.push(Value::I32(p)), l, m));
    assert(run(env, fuel, lb, 20, e.push(Value::I32(p)), l, m) == run(env, fuel, lb, 21, e.push(Value::I32(p)).push(Value::I32(o)), l, m));
    assert(e.push(Value::I32(p)).push(Value::I32(o)).drop_last().drop_last() =~= e);
    assert(run(env, fuel, lb, 21, e.push(Value::I32(p)).push(Value::I32(o)), l, m) == run(env, fuel, lb, 22, e.push(Value::I32(pa)), l, m));
    assert(run(env, fuel, lb, 22, e.push(Value::I32(pa)), l, m) == run(env, fuel, lb, 23, e.push(Value::I32(pa)).push(Value::I64(sum)), l, m));
    assert(e.push(Value::I32(pa)).push(Value::I64(sum)).drop_last().drop_last() =~= e);
}

/// The first half of the new carry: whether both parts are nonzero or there was a carry.
#[verifier::rlimit(30)]
proof fn lemma_add_carry_first(env: Seq<FunctionView>, fuel: nat, m: Seq<u8>, n1: u32, n2: u32, p: u32, size: u32, o: u32, carry: u32, sum: u64, x: u64, y: u64)
    ensures
        run(env, fuel, heap_add_loop(), 24, Seq::empty(), add_locals(n1, n2, p, size, o, carry, sum, x, y), m)
            == run(env, fuel, heap_add_loop(), 36, Seq::empty().push(Value::I32(flag((x != 0 && y != 0) || carry as u64 != 0))),
                add_locals(n1, n2, p, size, o, carry, sum, x, y), m),
{
    let lb = heap_add_loop();
    let e = Seq::<Value>::empty();
    let l = add_locals(n1, n2, p, size, o, carry, sum, x, y);
    let z = Value::I64(0);
    let fx = Value::I32(flag(x != 0));
    let fy = Value::I32(flag(y != 0));
    lemma_flag_ops(x != 0, y != 0);
    let a1 = Value::I32(flag(x != 0 && y != 0));
    let fc = Value::I32(flag(carry as u64 != 0));
    lemma_flag_ops(x != 0 && y != 0, carry as u64 != 0);
    let g1 = Value::I32(flag((x != 0 && y != 0) || carry as u64 != 0));
    assert(run(env, fuel, lb, 24, e, l, m) == run(env, fuel, lb, 25, e.push(Value::I64(x)), l, m));
    assert(run(env, fuel, lb, 25, e.push(Value::I64(x)), l, m) == run(env, fuel, lb, 26, e.push(Value::I64(x)).push(z), l, m));
    assert(e.push(Value::I64(x)).push(z).drop_last().drop_last() =~= e);
    assert(run(env, fuel, lb, 26, e.push(Value::I64(x)).push(z), l, m) == run(env, fuel, lb, 27, e.push(fx), l, m));
    assert(run(env, fuel, lb, 27, e.push(fx), l, m) == run(env, fuel, lb, 28, e.push(fx).push(Value::I64(y)), l, m));
    assert(run(env, fuel, lb, 28, e.push(fx).push(Value::I64(y)), l, m) == run(env, fuel, lb, 29, e.push(fx).push(Value::I64(y)).push(z), l, m));
    assert(e.push(fx).push(Value::I64(y)).push(z).drop_last().drop_last() =~= e.push(fx));
    assert(run(env, fuel, lb, 29, e.push(fx).push(Value::I64(y)).push(z), l, m) == run(env, fuel, lb, 30, e.push(fx).push(fy), l, m));
    assert(e.push(fx).push(fy).drop_last().drop_last() =~= e);
    assert(run(env, fuel, lb, 30, e.push(fx).push(fy), l, m) == run(env, fuel, lb, 31, e.push(a1), l, m));
    assert(run(env, fuel, lb, 31, e.push(a1), l, m) == run(env, fuel, lb, 32, e.push(a1).push(Value::I32(carry)), l, m));
    assert(e.push(a1).push(Value::I32(carry)).drop_last() =~= e.push(a1));
    assert(run(env, fuel, lb, 32, e.push(a1).push(Value::I32(carry)), l, m) == run(env, fuel, lb, 33, e.push(a1).push(Value::I64(carry as u64)), l, m));
    assert(run(env, fuel, lb, 33, e.push(a1).push(Value::I64(carry as u64)), l, m)
        == run(env, fuel, lb, 34, e.push(a1).push(Value::I64(carry as u64)).push(z), l, m));
    assert(e.push(a1).push(Value::I64(carry as u64)).push(z).drop_last().drop_last() =~= e.push(a1));
    assert(run(env, fuel, lb, 34, e.push(a1).push(Value::I64(carry as u64)).push(z), l, m) == run(env, fuel, lb, 35, e.push(a1).push(fc), l, m));
    assert(e.push(a1).push(fc).drop_last().drop_last() =~= e);
    assert(run(env, fuel, lb, 35, e.push(a1).push(fc), l, m) == run(env, fuel, lb, 36, e.push(g1), l, m));
}

/// The second half of the new carry: whether the part of the sum is at most one of the parts;
/// the new carry is both halves.
#[verifier::rlimit(30)]
proof fn lemma_add_carry_second(env: Seq<FunctionView>, fuel: nat, m: Seq<u8>, n1: u32, n2: u32, p: u32, size: u32, o: u32, carry: u32, sum: u64, x: u64, y: u64, g: bool)
    ensures
        run(env, fuel, heap_add_loop(), 36, Seq::empty().push(Value::I32(flag(g))), add_locals(n1, n2, p, size, o, carry, sum, x, y), m)
            == run(env, fuel, heap_add_loop(), 45, Seq::empty(),
                add_locals(n1, n2, p, size, o, flag(g && (sum <= x || sum <= y)), sum, x, y), m),
{
    let lb = heap_add_loop();
    let e = Seq::<Value>::empty();
    let l = add_locals(n1, n2, p, size, o, carry, sum, x, y);
    let g1 = Value::I32(flag(g));
    let vs = Value::I64(sum);
    let f3 = Value::I32(flag(sum <= x));
    let f4 = Value::I32(flag(sum <= y));
    lemma_flag_ops(sum <= x, sum <= y);
    let g2 = Value::I32(flag(sum <= x || sum <= y));
    lemma_flag_ops(g, sum <= x || sum <= y);
    let nc = flag(g && (sum <= x || sum <= y));
    let l2 = add_locals(n1, n2, p, size, o, nc, sum, x, y);
    assert(run(env, fuel, lb, 36, e.push(g1), l, m) == run(env, fuel, lb, 37, e.push(g1).push(vs), l, m));
    assert(run(env, fuel, lb, 37, e.push(g1).push(vs), l, m) == run(env, fuel, lb, 38, e.push(g1).push(vs).push(Value::I64(x)), l, m));
    assert(e.push(g1).push(vs).push(Value::I64(x)).drop_last().drop_last() =~= e.push(g1));
    assert(run(env, fuel, lb, 38, e.push(g1).push(vs).push(Value::I64(x)), l, m) == run(env, fuel, lb, 39, e.push(g1).push(f3), l, m));
    assert(run(env, fuel, lb, 39, e.push(g1).push(f3), l, m) == run(env, fuel, lb, 40, e.push(g1).push(f3).push(vs), l, m));
    assert(run(env, fuel, lb, 40, e.push(g1).push(f3).push(vs), l, m) == run(env, fuel, lb, 41, e.push(g1).push(f3).push(vs).push(Value::I64(y)), l, m));
    assert(e.push(g1).push(f3).push(vs).push(Value::I64(y)).drop_last().drop_last() =~= e.push(g1).push(f3));
    assert(run(env, fuel, lb, 41, e.push(g1).push(f3).push(vs).push(Value::I64(y)), l, m) == run(env, fuel, lb, 42, e.push(g1).push(f3).push(f4), l, m));
    assert(e.push(g1).push(f3).push(f4).drop_last().drop_last() =~= e.push(g1));
    assert(run(env, fuel, lb, 42, e.push(g1).push(f3).push(f4), l, m) == run(env, fuel, lb, 43, e.push(g1).push(g2), l, m));
    assert(e.push(g1).push(g2).drop_last().drop_last() =~= e);
    assert(run(env, fuel, lb, 43, e.push(g1).push(g2), l, m) == run(env, fuel, lb, 44, e.push(Value::I32(nc)), l, m));
    assert(e.push(Value::I32(nc)).drop_last() =~= e);
    assert(l.update(5, Value::I32(nc)) =~= l2);
    assert(run(env, fuel, lb, 44, e.push(Value::I32(nc)), l, m) == run(env, fuel, lb, 45, e, l2, m));
}

/// Moving to the next part and running the loop again.
#[verifier::rlimit(30)]
proof fn lemma_add_advance(env: Seq<FunctionView>, fuel: nat, m: Seq<u8>, n1: u32, n2: u32, p: u32, size: u32, o: u32, carry: u32, sum: u64, x: u64, y: u64)
    requires
        o + 8 <= u32::MAX,
    ensures
        run(env, fuel, heap_add_loop(), 45, Seq::empty(), add_locals(n1, n2, p, size, o, carry, sum, x, y), m)
            == Outcome::Break(0, add_locals(n1, n2, p, size, (o + 8) as u32, carry, sum, x, y), m),
{
    let lb = heap_add_loop();
    let e = Seq::<Value>::empty();
    let l = add_locals(n1, n2, p, size, o, carry, sum, x, y);
    let next = (o + 8) as u32;
    let l2 = add_locals(n1, n2, p, size, next, carry, sum, x, y);
    assert(wrap32(o + 8) == next);
    assert(run(env, fuel, lb, 45, e, l, m) == run(env, fuel, lb, 46, e.push(Value::I32(o)), l, m));
    assert(run(env, fuel, lb, 46, e.push(Value::I32(o)), l, m) == run(env, fuel, lb, 47, e.push(Value::I32(o)).push(Value::I32(8)), l, m));
    assert(e.push(Value::I32(o)).push(Value::I32(8)).drop_last().drop_last() =~= e);
    assert(run(env, fuel, lb, 47, e.push(Value::I32(o)).push(Value::I32(8)), l, m) == run(env, fuel, lb, 48, e.push(Value::I32(next)), l, m));
    assert(e.push(Value::I32(next)).drop_last() =~= e);
    assert(l.update(4, Value::I32(next)) =~= l2);
    assert(run(env, fuel, lb, 48, e.push(Value::I32(next)), l, m) == run(env, fuel, lb, 49, e, l2, m));
}

/// The addition of one 64-bit part with a carry: the new carry is whether the parts and the
/// carry reach 2^64, and the part of the sum is their sum less 2^64 when there is a new carry.
proof fn lemma_add_part(a: u64, b: u64, carry: u32)
    requires
        carry <= 1,
    ensures
        ({
            let s = wrap64(wrap64(a + b) + carry as u64);
            let nc = flag(((a != 0 && b != 0) || carry as u64 != 0) && (s <= a || s <= b));
            &&& nc == flag(a + b + carry >= 0x1_0000_0000_0000_0000)
            &&& s == a + b + carry - 0x1_0000_0000_0000_0000 * nc
        }),
{
    lemma_wrap64_range(a + b);
    let s1 = wrap64(a + b);
    lemma_wrap64_range(s1 + carry as u64);
}

/// A pass of the loop at part `j`, before the last part: the parts are added with the carry,
/// the sum is stored, and the loop runs again at the next part.
proof fn lemma_add_pass(env: Seq<FunctionView>, fuel: nat, m: Seq<u8>, n1: u32, n2: u32, p: u32, size: u32, o: u32, carry: u32, sum: u64, x: u64, y: u64)
    requires
        o + 8 <= size,
        n1 + size <= m.len(),
        n2 + size <= m.len(),
        p + size <= m.len(),
        n1 + size <= u32::MAX,
        n2 + size <= u32::MAX,
        p + size <= u32::MAX,
    ensures
        ({
            let a = number_at(m, n1 + o, 8) as u64;
            let b = number_at(m, n2 + o, 8) as u64;
            let s = wrap64(wrap64(a + b) + carry as u64);
            let nc = flag(((a != 0 && b != 0) || carry as u64 != 0) && (s <= a || s <= b));
            &&& number_at(m, n1 + o, 8) <= u64::MAX && number_at(m, n2 + o, 8) <= u64::MAX
            &&& run(env, fuel, heap_add_loop(), 0, Seq::empty(), add_locals(n1, n2, p, size, o, carry, sum, x, y), m)
                == Outcome::Break(0, add_locals(n1, n2, p, size, (o + 8) as u32, nc, s, a, b),
                    splice(m, p + o, le_bytes(s as nat, 8)))
        }),
{
    let a = number_at(m, n1 + o, 8);
    let b = number_at(m, n2 + o, 8);
    lemma_add_check(env, fuel, m, n1, n2, p, size, o, carry, sum, x, y);
    lemma_add_load_first(env, fuel, m, n1, n2, p, size, o, carry, sum, x, y);
    let au = a as u64;
    lemma_add_load_second(env, fuel, m, n1, n2, p, size, o, carry, sum, au, y);
    let bu = b as u64;
    lemma_add_sum(env, fuel, m, n1, n2, p, size, o, carry, sum, au, bu);
    let s = wrap64(wrap64(au + bu) + carry as u64);
    lemma_add_store(env, fuel, m, n1, n2, p, size, o, carry, s, au, bu);
    let m2 = splice(m, p + o, le_bytes(s as nat, 8));
    lemma_add_carry_first(env, fuel, m2, n1, n2, p, size, o, carry, s, au, bu);
    let g = (au != 0 && bu != 0) || carry as u64 != 0;
    lemma_add_carry_second(env, fuel, m2, n1, n2, p, size, o, carry, s, au, bu, g);
    let nc = flag(g && (s <= au || s <= bu));
    lemma_add_advance(env, fuel, m2, n1, n2, p, size, o, nc, s, au, bu);
}

/// What the addition loop leaves: the carry out of the last part, and, when there is none,
/// the sum stored at the result's address.
pub open spec fn add_loop_done(o: Outcome, mem0: Seq<u8>, n1: u32, n2: u32, p: u32, size: u32) -> bool {
    match o {
        Outcome::Break(d, l, mf) => {
            let a = number_at(mem0, n1 as int, size as int);
            let b = number_at(mem0, n2 as int, size as int);
            let overflow = a + b >= crate::wasm::pow256(size as nat);
            &&& d == 0
            &&& l.len() == 9
            &&& l[2] == Value::I32(p)
            &&& l[5] == Value::I32(flag(overflow))
            &&& !overflow ==> result_memory(mem0, mf, p as int, size as int, (a + b) as int)
        },
        _ => false,
    }
}

/// The addition loop from part `j` on, when the parts before `j` are added: the sum so far is
/// stored at the result's address, and the carry is whether the low `j` parts overflow.
#[verifier::rlimit(80)]
proof fn lemma_add_loop(
    env: Seq<FunctionView>,
    fuel: nat,
    mem0: Seq<u8>,
    m: Seq<u8>,
    n1: u32,
    n2: u32,
    p: u32,
    size: u32,
    j: nat,
    carry: u32,
    sum: u64,
    x: u64,
    y: u64,
    r: nat,
)
    requires
        size % 8 == 0,
        8 * j <= size,
        n1 + size <= mem0.len(),
        n2 + size <= mem0.len(),
        p + size <= mem0.len(),
        n1 + size <= u32::MAX,
        n2 + size <= u32::MAX,
        p + size <= u32::MAX,
        same_or_apart(n1, p, size),
        same_or_apart(n2, p, size),
        fuel * 8 + 8 * j >= size,
        m.len() == mem0.len(),
        forall|i: int| 0 <= i < m.len() && !(p <= i < p + 8 * j) ==> m[i] == mem0[i],
        number_at(m, p as int, (8 * j) as int) == r,
        carry <= 1,
        number_at(mem0, n1 as int, (8 * j) as int) + number_at(mem0, n2 as int, (8 * j) as int)
            == r + crate::wasm::pow256(8 * j) * carry,
    ensures
        add_loop_done(
            run(env, fuel, seq![InstrView::Loop(heap_add_loop())], 0, Seq::empty(),
                add_locals(n1, n2, p, size, (8 * j) as u32, carry, sum, x, y), m),
            mem0, n1, n2, p, size,
        ),
    decreases size - 8 * j,
{
    let o = (8 * j) as u32;
    let big_p = crate::wasm::pow256(8 * j);
    crate::wasm::lemma_le_value_bound(m.subrange(p as int, p + 8 * j));
    if 8 * j == size {
        lemma_add_check(env, fuel, m, n1, n2, p, size, o, carry, sum, x, y);
    } else {
        lemma_add_pass(env, fuel, m, n1, n2, p, size, o, carry, sum, x, y);
        let a = number_at(m, n1 + o, 8);
        let b = number_at(m, n2 + o, 8);
        lemma_number_same(m, mem0, n1 + o, 8);
        lemma_number_same(m, mem0, n2 + o, 8);
        let au = a as u64;
        let bu = b as u64;
        lemma_add_part(au, bu, carry);
        let s = wrap64(wrap64(au + bu) + carry as u64);
        let nc = flag(((au != 0 && bu != 0) || carry as u64 != 0) && (s <= au || s <= bu));
        let bytes = le_bytes(s as nat, 8);
        crate::wasm::lemma_le_bytes_len(s as nat, 8);
        let m2 = splice(m, p + o, bytes);
        lemma_splice(m, p + o, bytes);
        // The sum so far, with the new part
        let r2 = (r + big_p * s) as nat;
        lemma_number_next_part(m2, p as int, j);
        lemma_number_same(m2, m, p as int, (8 * j) as int);
        crate::wasm::lemma_le_value_of_bytes(s as nat, 8);
        crate::wasm::lemma_pow256_8();
        assert(number_at(m2, p + 8 * j, 8) == s);
        assert(number_at(m2, p as int, (8 * (j + 1)) as int) == r2);
        // The operands so far, with the new parts
        lemma_number_next_part(mem0, n1 as int, j);
        lemma_number_next_part(mem0, n2 as int, j);
        crate::wasm::lemma_pow256_add(8 * j, 8);
        let a0 = number_at(mem0, n1 as int, (8 * j) as int);
        let b0 = number_at(mem0, n2 as int, (8 * j) as int);
        assert((a0 + big_p * a) + (b0 + big_p * b) == r2 + (big_p * 0x1_0000_0000_0000_0000) * nc) by (nonlinear_arith)
            requires
                a0 + b0 == r + big_p * carry,
                s == a + b + carry - 0x1_0000_0000_0000_0000 * nc,
                r2 == r + big_p * s,
        ;
        assert forall|i: int| 0 <= i < m2.len() && !(p <= i < p + 8 * (j + 1)) implies m2[i] == mem0[i] by {
            assert(m2[i] == m[i]);
        }
        assert(fuel > 0);
        lemma_add_loop(env, (fuel - 1) as nat, mem0, m2, n1, n2, p, size, j + 1, nc, s, au, bu, r2);
        assert(((8 * j + 8) as u32) == (8 * (j + 1)) as u32);
    }
}

/// `heap_integers_add` adds the numbers of `size` bytes at `n1` and `n2`: it traps when the sum
/// does not fit in `size` bytes, and otherwise stores the sum in the `size` bytes at `p`, leaves
/// every other byte as it was, and returns `p`.
#[verifier::rlimit(30)]
pub proof fn law_heap_integers_add(env: Seq<FunctionView>, fuel: nat, mem: Seq<u8>, n1: u32, n2: u32, p: u32, size: u32)
    requires
        size % 8 == 0,
        n1 + size <= mem.len(),
        n2 + size <= mem.len(),
        p + size <= mem.len(),
        n1 + size <= u32::MAX,
        n2 + size <= u32::MAX,
        p + size <= u32::MAX,
        same_or_apart(n1, p, size),
        same_or_apart(n2, p, size),
        fuel * 8 >= size,
    ensures
        ({
            let a = number_at(mem, n1 as int, size as int);
            let b = number_at(mem, n2 as int, size as int);
            let out = invoke(env, fuel, heap_integers_add_code(), args4(Value::I32(n1), Value::I32(n2), Value::I32(p), Value::I32(size)), mem);
            &&& a + b >= crate::wasm::pow256(size as nat) ==> out == Completion::Trapped
            &&& a + b < crate::wasm::pow256(size as nat) ==> (out matches Completion::Returned(s, m) && s == args1(Value::I32(p))
                && result_memory(mem, m, p as int, size as int, (a + b) as int))
        }),
{
    let code = heap_integers_add_code();
    let b = code.body;
    let e = Seq::<Value>::empty();
    let l0 = add_locals(n1, n2, p, size, 0, 0, 0, 0, 0);
    assert(args4(Value::I32(n1), Value::I32(n2), Value::I32(p), Value::I32(size)) + zeros(code.locals) =~= l0);
    assert(run(env, fuel, b, 0, e, l0, mem) == run(env, fuel, b, 1, e.push(Value::I32(0)), l0, mem));
    assert(e.push(Value::I32(0)).drop_last() =~= e);
    assert(l0.update(4, Value::I32(0)) =~= l0);
    assert(l0.update(5, Value::I32(0)) =~= l0);
    assert(run(env, fuel, b, 1, e.push(Value::I32(0)), l0, mem) == run(env, fuel, b, 2, e, l0, mem));
    assert(run(env, fuel, b, 2, e, l0, mem) == run(env, fuel, b, 3, e.push(Value::I32(0)), l0, mem));
    assert(run(env, fuel, b, 3, e.push(Value::I32(0)), l0, mem) == run(env, fuel, b, 4, e, l0, mem));
    assert(mem.subrange(p as int, p as int) =~= Seq::<u8>::empty());
    assert(mem.subrange(n1 as int, n1 as int) =~= Seq::<u8>::empty());
    assert(mem.subrange(n2 as int, n2 as int) =~= Seq::<u8>::empty());
    assert(crate::wasm::pow256(0) == 1);
    lemma_add_loop(env, fuel, mem, mem, n1, n2, p, size, 0, 0, 0, 0, 0, 0);
    let out = run(env, fuel, seq![InstrView::Loop(heap_add_loop())], 0, e, l0, mem);
    match out {
        Outcome::Break(_, l, mf) => {
            let cf = l[5];
            assert(e + e =~= e);
            assert(run(env, fuel, b, 4, e, l0, mem) == run(env, fuel, b, 5, e, l, mf));
            assert(run(env, fuel, b, 5, e, l, mf) == run(env, fuel, b, 6, e.push(cf), l, mf));
            assert(run(env, fuel, b, 6, e.push(cf), l, mf) == run(env, fuel, b, 7, e.push(cf).push(Value::I32(1)), l, mf));
            assert(e.push(cf).push(Value::I32(1)).drop_last().drop_last() =~= e);
            let a = number_at(mem, n1 as int, size as int);
            let bb = number_at(mem, n2 as int, size as int);
            let overflow = a + bb >= crate::wasm::pow256(size as nat);
            let c = Value::I32(flag(overflow));
            assert(run(env, fuel, b, 7, e.push(cf).push(Value::I32(1)), l, mf) == run(env, fuel, b, 8, e.push(c), l, mf));
            if overflow {
                assert(run(env, fuel, seq![InstrView::Unreachable], 0, e, l, mf) == Outcome::Trap);
            } else {
                let pv = Value::I32(p);
                assert(run(env, fuel, seq![InstrView::LocalGet(2)], 0, e, l, mf) == run(env, fuel, seq![InstrView::LocalGet(2)], 1, e.push(pv), l, mf));
                assert(e.push(c).drop_last() + e.push(pv) =~= e.push(pv));
                assert(run(env, fuel, b, 8, e.push(c), l, mf) == run(env, fuel, b, 9, e.push(pv), l, mf));
                assert(e.push(pv) =~= args1(pv));
            }
        },
        _ => {},
    }
}

/// Builds the instructions of the loop of `heap_integers_add`.
#[verifier::rlimit(100)]
fn heap_add_loop_body() -> (lb: Vec<Instr>)
    ensures
        instrs_view(lb@) == heap_add_loop(),
{
    let mut lb: Vec<Instr> = Vec::new();
    // Leave when every part was added
    push_instr(&mut lb, Instr::LocalGet(4));
    push_instr(&mut lb, Instr::LocalGet(3));
    push_instr(&mut lb, Instr::Binop(BinaryOp::I32Eq));
    push_instr(&mut lb, Instr::BrIf(1));
    // Load the parts of the operands
    push_instr(&mut lb, Instr::LocalGet(0));
    push_instr(&mut lb, Instr::LocalGet(4));
    push_instr(&mut lb, Instr::Binop(BinaryOp::I32Add));
    push_instr(&mut lb, Instr::Load(ValType::I64, 0));
    push_instr(&mut lb, Instr::LocalTee(7));
    push_instr(&mut lb, Instr::LocalGet(1));
    push_instr(&mut lb, Instr::LocalGet(4));
    push_instr(&mut lb, Instr::Binop(BinaryOp::I32Add));
    push_instr(&mut lb, Instr::Load(ValType::I64, 0));
    push_instr(&mut lb, Instr::LocalTee(8));
    // Add them and the carry
    push_instr(&mut lb, Instr::Binop(BinaryOp::I64Add));
    push_instr(&mut lb, Instr::LocalGet(5));
    push_instr(&mut lb, Instr::Unop(UnaryOp::I64ExtendUI32));
    push_instr(&mut lb, Instr::Binop(BinaryOp::I64Add));
    push_instr(&mut lb, Instr::LocalSet(6));
    // Store the part of the sum
    push_instr(&mut lb, Instr::LocalGet(2));
    push_instr(&mut lb, Instr::LocalGet(4));
    push_instr(&mut lb, Instr::Binop(BinaryOp::I32Add));
    push_instr(&mut lb, Instr::LocalGet(6));
    push_instr(&mut lb, Instr::Store(ValType::I64, 0));
    // The new carry: ((n1 != 0) && (n2 != 0) || (carry != 0)) && ((sum <= n1) || (sum <= n2))
    push_instr(&mut lb, Instr::LocalGet(7));
    push_instr(&mut lb, Instr::I64Const(0));
    push_instr(&mut lb, Instr::Binop(BinaryOp::I64Ne));
    push_instr(&mut lb, Instr::LocalGet(8));
    push_instr(&mut lb, Instr::I64Const(0));
    push_instr(&mut lb, Instr::Binop(BinaryOp::I64Ne));
    push_instr(&mut lb, Instr::Binop(BinaryOp::I32And));
    push_instr(&mut lb, Instr::LocalGet(5));
    push_instr(&mut lb, Instr::Unop(UnaryOp::I64ExtendUI32));
    push_instr(&mut lb, Instr::I64Const(0));
    push_instr(&mut lb, Instr::Binop(BinaryOp::I64Ne));
    push_instr(&mut lb, Instr::Binop(BinaryOp::I32Or));
    push_instr(&mut lb, Instr::LocalGet(6));
    push_instr(&mut lb, Instr::LocalGet(7));
    push_instr(&mut lb, Instr::Binop(BinaryOp::I64LeU));
    push_instr(&mut lb, Instr::LocalGet(6));
    push_instr(&mut lb, Instr::LocalGet(8));
    push_instr(&mut lb, Instr::Binop(BinaryOp::I64LeU));
    push_instr(&mut lb, Instr::Binop(BinaryOp::I32Or));
    push_instr(&mut lb, Instr::Binop(BinaryOp::I32And));
    push_instr(&mut lb, Instr::LocalSet(5));
    // Go on with the next part
    push_instr(&mut lb, Instr::LocalGet(4));
    push_instr(&mut lb, Instr::I32Const(8));
    push_instr(&mut lb, Instr::Binop(BinaryOp::I32Add));
    push_instr(&mut lb, Instr::LocalSet(4));
    push_instr(&mut lb, Instr::Br(0));
    assert(instrs_view(lb@) == heap_add_loop());
    lb
}

/// What a call of the function built from `code` does, for every input.
proof fn lemma_heap_integers_add_calls(code: FunctionView)
    requires
        code == heap_integers_add_code(),
    ensures
        forall|env: Seq<FunctionView>, fuel: nat, mem: Seq<u8>, n1: u32, n2: u32, p: u32, size: u32|
            size % 8 == 0 && n1 + size <= mem.len() && n2 + size <= mem.len() && p + size <= mem.len()
                && n1 + size <= u32::MAX && n2 + size <= u32::MAX && p + size <= u32::MAX
                && same_or_apart(n1, p, size) && same_or_apart(n2, p, size) && fuel * 8 >= size
            ==> ({
                let a = number_at(mem, n1 as int, size as int);
                let b = number_at(mem, n2 as int, size as int);
                let out = #[trigger] invoke(env, fuel, code, args4(Value::I32(n1), Value::I32(n2), Value::I32(p), Value::I32(size)), mem);
                &&& a + b >= crate::wasm::pow256(size as nat) ==> out == Completion::Trapped
                &&& a + b < crate::wasm::pow256(size as nat) ==> (out matches Completion::Returned(s, m) && s == args1(Value::I32(p))
                    && result_memory(mem, m, p as int, size as int, (a + b) as int))
            }),
{
    assert forall|env: Seq<FunctionView>, fuel: nat, mem: Seq<u8>, n1: u32, n2: u32, p: u32, size: u32|
        size % 8 == 0 && n1 + size <= mem.len() && n2 + size <= mem.len() && p + size <= mem.len()
            && n1 + size <= u32::MAX && n2 + size <= u32::MAX && p + size <= u32::MAX
            && same_or_apart(n1, p, size) && same_or_apart(n2, p, size) && fuel * 8 >= size
        implies ({
            let a = number_at(mem, n1 as int, size as int);
            let b = number_at(mem, n2 as int, size as int);
            let out = #[trigger] invoke(env, fuel, code, args4(Value::I32(n1), Value::I32(n2), Value::I32(p), Value::I32(size)), mem);
            &&& a + b >= crate::wasm::pow256(size as nat) ==> out == Completion::Trapped
            &&& a + b < crate::wasm::pow256(size as nat) ==> (out matches Completion::Returned(s, m) && s == args1(Value::I32(p))
                && result_memory(mem, m, p as int, size as int, (a + b) as int))
        }) by {
        law_heap_integers_add(env, fuel, mem, n1, n2, p, size);
    }
}

/// Builds the function that adds two `u128` or `u256` in memory, part by part with a carry: it
/// takes the operands' addresses, the result's address and the size in bytes, traps when the
/// sum does not fit, and otherwise stores the sum and returns the result's address.
#[verifier::rlimit(100)]
pub fn heap_integers_add() -> (r: FunctionBody)
    ensures
        r@ == heap_integers_add_code(),
        forall|env: Seq<FunctionView>, fuel: nat, mem: Seq<u8>, n1: u32, n2: u32, p: u32, size: u32|
            size % 8 == 0 && n1 + size <= mem.len() && n2 + size <= mem.len() && p + size <= mem.len()
                && n1 + size <= u32::MAX && n2 + size <= u32::MAX && p + size <= u32::MAX
                && same_or_apart(n1, p, size) && same_or_apart(n2, p, size) && fuel * 8 >= size
            ==> ({
                let a = number_at(mem, n1 as int, size as int);
                let b = number_at(mem, n2 as int, size as int);
                let out = #[trigger] invoke(env, fuel, r@, args4(Value::I32(n1), Value::I32(n2), Value::I32(p), Value::I32(size)), mem);
                &&& a + b >= crate::wasm::pow256(size as nat) ==> out == Completion::Trapped
                &&& a + b < crate::wasm::pow256(size as nat) ==> (out matches Completion::Returned(s, m) && s == args1(Value::I32(p))
                    && result_memory(mem, m, p as int, size as int, (a + b) as int))
            }),
{
    let lb = heap_add_loop_body();

    let mut block: Vec<Instr> = Vec::new();
    push_instr(&mut block, Instr::Loop(lb));
    assert(instrs_view(block@) =~= seq![InstrView::Loop(heap_add_loop())]);
    let mut then_: Vec<Instr> = Vec::new();
    push_instr(&mut then_, Instr::Unreachable);
    let mut else_: Vec<Instr> = Vec::new();
    push_instr(&mut else_, Instr::LocalGet(2));

    let mut body: Vec<Instr> = Vec::new();
    push_instr(&mut body, Instr::I32Const(0));
    push_instr(&mut body, Instr::LocalSet(4));
    push_instr(&mut body, Instr::I32Const(0));
    push_instr(&mut body, Instr::LocalSet(5));
    push_instr(&mut body, Instr::Block(block));
    // Trap when there is a carry out of the last part
    push_instr(&mut body, Instr::LocalGet(5));
    push_instr(&mut body, Instr::I32Const(1));
    push_instr(&mut body, Instr::Binop(BinaryOp::I32Eq));
    push_instr(&mut body, Instr::IfElse(Some(ValType::I32), then_, else_));
    let r = FunctionBody {
        name: String::from_str(RuntimeFunction::HeapIntSum.name()),
        params: vec![ValType::I32, ValType::I32, ValType::I32, ValType::I32],
        results: vec![ValType::I32],
        locals: vec![ValType::I32, ValType::I32, ValType::I64, ValType::I64, ValType::I64],
        body,
    };
    proof {
        let code = heap_integers_add_code();
        assert(r@.params =~= code.params);
        assert(r@.results =~= code.results);
        assert(r@.locals =~= code.locals);
        assert(r@.name == code.name);
        assert(r@.body =~= code.body);
        lemma_heap_integers_add_calls(r@);
    }
    r
}

} // verus!

verus! {

/// The instructions of the function `add_u32`.
pub open spec fn add_u32_code() -> FunctionView {
    FunctionView {
        name: runtime_function_name(RuntimeFunction::AddU32),
        params: seq![ValType::I32, ValType::I32],
        results: seq![ValType::I32],
        locals: seq![ValType::I32],
        body: seq![
            InstrView::LocalGet(0),
            InstrView::LocalGet(1),
            InstrView::Binop(BinaryOp::I32Add),
            InstrView::LocalTee(2),
            InstrView::LocalGet(0),
            InstrView::Binop(BinaryOp::I32LtU),
            InstrView::LocalGet(2),
            InstrView::LocalGet(1),
            InstrView::Binop(BinaryOp::I32LtU),
            InstrView::Binop(BinaryOp::I32Or),
            InstrView::IfElse(Some(ValType::I32), seq![InstrView::Unreachable], seq![InstrView::LocalGet(2)]),
        ],
    }
}

/// `add_u32` adds two `u32`, and traps when the sum does not fit in a `u32`.
#[verifier::rlimit(30)]
pub proof fn law_add_u32(env: Seq<FunctionView>, fuel: nat, mem: Seq<u8>, a: u32, b: u32)
    ensures
        invoke(env, fuel, add_u32_code(), args2(Value::I32(a), Value::I32(b)), mem) == if a + b <= u32::MAX {
            Completion::Returned(args1(Value::I32((a + b) as u32)), mem)
        } else {
            Completion::Trapped
        },
{
    let f = add_u32_code();
    let e = Seq::<Value>::empty();
    let va = Value::I32(a);
    let vb = Value::I32(b);
    let z = Value::I32(0);
    let locals = e.push(va).push(vb).push(z);
    assert(args2(va, vb) + zeros(f.locals) =~= locals);
    let sum = wrap32(a + b);
    lemma_wrap32_sum(a, b);
    let vs = Value::I32(sum);
    let tee = locals.update(2, vs);
    let f1: u32 = if sum < a { 1 } else { 0 };
    let f2: u32 = if sum < b { 1 } else { 0 };
    lemma_flags_or(f1, f2);
    let c = Value::I32(f1 | f2);
    assert(run(env, fuel, f.body, 0, e, locals, mem) == run(env, fuel, f.body, 1, e.push(va), locals, mem));
    assert(run(env, fuel, f.body, 1, e.push(va), locals, mem) == run(env, fuel, f.body, 2, e.push(va).push(vb), locals, mem));
    assert(e.push(va).push(vb).drop_last().drop_last() =~= e);
    assert(run(env, fuel, f.body, 2, e.push(va).push(vb), locals, mem) == run(env, fuel, f.body, 3, e.push(vs), locals, mem));
    assert(run(env, fuel, f.body, 3, e.push(vs), locals, mem) == run(env, fuel, f.body, 4, e.push(vs), tee, mem));
    assert(tee[0] == va && tee[1] == vb && tee[2] == vs);
    assert(run(env, fuel, f.body, 4, e.push(vs), tee, mem) == run(env, fuel, f.body, 5, e.push(vs).push(va), tee, mem));
    assert(e.push(vs).push(va).drop_last().drop_last() =~= e);
    assert(run(env, fuel, f.body, 5, e.push(vs).push(va), tee, mem) == run(env, fuel, f.body, 6, e.push(Value::I32(f1)), tee, mem));
    assert(run(env, fuel, f.body, 6, e.push(Value::I32(f1)), tee, mem) == run(env, fuel, f.body, 7, e.push(Value::I32(f1)).push(vs), tee, mem));
    assert(run(env, fuel, f.body, 7, e.push(Value::I32(f1)).push(vs), tee, mem)
        == run(env, fuel, f.body, 8, e.push(Value::I32(f1)).push(vs).push(vb), tee, mem));
    assert(e.push(Value::I32(f1)).push(vs).push(vb).drop_last().drop_last() =~= e.push(Value::I32(f1)));
    assert(run(env, fuel, f.body, 8, e.push(Value::I32(f1)).push(vs).push(vb), tee, mem)
        == run(env, fuel, f.body, 9, e.push(Value::I32(f1)).push(Value::I32(f2)), tee, mem));
    assert(e.push(Value::I32(f1)).push(Value::I32(f2)).drop_last().drop_last() =~= e);
    assert(run(env, fuel, f.body, 9, e.push(Value::I32(f1)).push(Value::I32(f2)), tee, mem) == run(env, fuel, f.body, 10, e.push(c), tee, mem));
    if f1 | f2 != 0 {
        assert(run(env, fuel, seq![InstrView::Unreachable], 0, e, tee, mem) == Outcome::Trap);
    } else {
        let else_ = seq![InstrView::LocalGet(2)];
        assert(run(env, fuel, else_, 0, e, tee, mem) == run(env, fuel, else_, 1, e.push(vs), tee, mem));
        assert(e.push(c).drop_last() + e.push(vs) =~= e.push(vs));
        assert(run(env, fuel, f.body, 10, e.push(c), tee, mem) == run(env, fuel, f.body, 11, e.push(vs), tee, mem));
    }
}

/// Builds the function that adds two `u32` and traps on overflow. The sum wraps around when it
/// overflows, so the overflow shows as a sum smaller than an operand.
#[verifier::rlimit(30)]
pub fn add_u32() -> (r: FunctionBody)
    ensures
        r@ == add_u32_code(),
        forall|env: Seq<FunctionView>, fuel: nat, mem: Seq<u8>, a: u32, b: u32| #[trigger] invoke(env, fuel, r@, args2(Value::I32(a), Value::I32(b)), mem)
            == if a + b <= u32::MAX {
                Completion::Returned(args1(Value::I32((a + b) as u32)), mem)
            } else {
                Completion::Trapped
            },
{
    let mut then_: Vec<Instr> = Vec::new();
    push_instr(&mut then_, Instr::Unreachable);
    let mut else_: Vec<Instr> = Vec::new();
    push_instr(&mut else_, Instr::LocalGet(2));
    let mut body: Vec<Instr> = Vec::new();
    push_instr(&mut body, Instr::LocalGet(0));
    push_instr(&mut body, Instr::LocalGet(1));
    push_instr(&mut body, Instr::Binop(BinaryOp::I32Add));
    push_instr(&mut body, Instr::LocalTee(2));
    push_instr(&mut body, Instr::LocalGet(0));
    push_instr(&mut body, Instr::Binop(BinaryOp::I32LtU));
    push_instr(&mut body, Instr::LocalGet(2));
    push_instr(&mut body, Instr::LocalGet(1));
    push_instr(&mut body, Instr::Binop(BinaryOp::I32LtU));
    push_instr(&mut body, Instr::Binop(BinaryOp::I32Or));
    push_instr(&mut body, Instr::IfElse(Some(ValType::I32), then_, else_));
    let r = FunctionBody {
        name: String::from_str(RuntimeFunction::AddU32.name()),
        params: vec![ValType::I32, ValType::I32],
        results: vec![ValType::I32],
        locals: vec![ValType::I32],
        body,
    };
    proof {
        assert(r@.params =~= add_u32_code().params);
        assert(r@.results =~= add_u32_code().results);
        assert(r@.locals =~= add_u32_code().locals);
        assert(r@.name == add_u32_code().name);
        assert(r@.body =~= add_u32_code().body);
        assert forall|env: Seq<FunctionView>, fuel: nat, mem: Seq<u8>, a: u32, b: u32| #[trigger] invoke(env, fuel, r@, args2(Value::I32(a), Value::I32(b)), mem)
            == if a + b <= u32::MAX {
                Completion::Returned(args1(Value::I32((a + b) as u32)), mem)
            } else {
                Completion::Trapped
            } by {
            law_add_u32(env, fuel, mem, a, b);
        }
    }
    r
}

/// The instructions of the function `add_u64`.
pub open spec fn add_u64_code() -> FunctionView {
    FunctionView {
        name: runtime_function_name(RuntimeFunction::AddU64),
        params: seq![ValType::I64, ValType::I64],
        results: seq![ValType::I64],
        locals: seq![ValType::I64],
        body: seq![
            InstrView::LocalGet(0),
            InstrView::LocalGet(1),
            InstrView::Binop(BinaryOp::I64Add),
            InstrView::LocalTee(2),
            InstrView::LocalGet(0),
            InstrView::Binop(BinaryOp::I64LtU),
            InstrView::LocalGet(2),
            InstrView::LocalGet(1),
            InstrView::Binop(BinaryOp::I64LtU),
            InstrView::Binop(BinaryOp::I32Or),
            InstrView::IfElse(Some(ValType::I64), seq![InstrView::Unreachable], seq![InstrView::LocalGet(2)]),
        ],
    }
}

/// `add_u64` adds two `u64`, and traps when the sum does not fit in a `u64`.
#[verifier::rlimit(30)]
pub proof fn law_add_u64(env: Seq<FunctionView>, fuel: nat, mem: Seq<u8>, a: u64, b: u64)
    ensures
        invoke(env, fuel, add_u64_code(), args2(Value::I64(a), Value::I64(b)), mem) == if a + b <= u64::MAX {
            Completion::Returned(args1(Value::I64((a + b) as u64)), mem)
        } else {
            Completion::Trapped
        },
{
    let f = add_u64_code();
    let e = Seq::<Value>::empty();
    let va = Value::I64(a);
    let vb = Value::I64(b);
    let z = Value::I64(0);
    let locals = e.push(va).push(vb).push(z);
    assert(args2(va, vb) + zeros(f.locals) =~= locals);
    let sum = wrap64(a + b);
    lemma_wrap64_sum(a, b);
    let vs = Value::I64(sum);
    let tee = locals.update(2, vs);
    let f1: u32 = if sum < a { 1 } else { 0 };
    let f2: u32 = if sum < b { 1 } else { 0 };
    lemma_flags_or(f1, f2);
    let c = Value::I32(f1 | f2);
    assert(run(env, fuel, f.body, 0, e, locals, mem) == run(env, fuel, f.body, 1, e.push(va), locals, mem));
    assert(run(env, fuel, f.body, 1, e.push(va), locals, mem) == run(env, fuel, f.body, 2, e.push(va).push(vb), locals, mem));
    assert(e.push(va).push(vb).drop_last().drop_last() =~= e);
    assert(run(env, fuel, f.body, 2, e.push(va).push(vb), locals, mem) == run(env, fuel, f.body, 3, e.push(vs), locals, mem));
    assert(run(env, fuel, f.body, 3, e.push(vs), locals, mem) == run(env, fuel, f.body, 4, e.push(vs), tee, mem));
    assert(tee[0] == va && tee[1] == vb && tee[2] == vs);
    assert(run(env, fuel, f.body, 4, e.push(vs), tee, mem) == run(env, fuel, f.body, 5, e.push(vs).push(va), tee, mem));
    assert(e.push(vs).push(va).drop_last().drop_last() =~= e);
    assert(run(env, fuel, f.body, 5, e.push(vs).push(va), tee, mem) == run(env, fuel, f.body, 6, e.push(Value::I32(f1)), tee, mem));
    assert(run(env, fuel, f.body, 6, e.push(Value::I32(f1)), tee, mem) == run(env, fuel, f.body, 7, e.push(Value::I32(f1)).push(vs), tee, mem));
    assert(run(env, fuel, f.body, 7, e.push(Value::I32(f1)).push(vs), tee, mem)
        == run(env, fuel, f.body, 8, e.push(Value::I32(f1)).push(vs).push(vb), tee, mem));
    assert(e.push(Value::I32(f1)).push(vs).push(vb).drop_last().drop_last() =~= e.push(Value::I32(f1)));
    assert(run(env, fuel, f.body, 8, e.push(Value::I32(f1)).push(vs).push(vb), tee, mem)
        == run(env, fuel, f.body, 9, e.push(Value::I32(f1)).push(Value::I32(f2)), tee, mem));
    assert(e.push(Value::I32(f1)).push(Value::I32(f2)).drop_last().drop_last() =~= e);
    assert(run(env, fuel, f.body, 9, e.push(Value::I32(f1)).push(Value::I32(f2)), tee, mem) == run(env, fuel, f.body, 10, e.push(c), tee, mem));
    if f1 | f2 != 0 {
        assert(run(env, fuel, seq![InstrView::Unreachable], 0, e, tee, mem) == Outcome::Trap);
    } else {
        let else_ = seq![InstrView::LocalGet(2)];
        assert(run(env, fuel, else_, 0, e, tee, mem) == run(env, fuel, else_, 1, e.push(vs), tee, mem));
        assert(e.push(c).drop_last() + e.push(vs) =~= e.push(vs));
        assert(run(env, fuel, f.body, 10, e.push(c), tee, mem) == run(env, fuel, f.body, 11, e.push(vs), tee, mem));
    }
}

/// Builds the function that adds two `u64` and traps on overflow.
#[verifier::rlimit(30)]
pub fn add_u64() -> (r: FunctionBody)
    ensures
        r@ == add_u64_code(),
        forall|env: Seq<FunctionView>, fuel: nat, mem: Seq<u8>, a: u64, b: u64| #[trigger] invoke(env, fuel, r@, args2(Value::I64(a), Value::I64(b)), mem)
            == if a + b <= u64::MAX {
                Completion::Returned(args1(Value::I64((a + b) as u64)), mem)
            } else {
                Completion::Trapped
            },
{
    let mut else_: Vec<Instr> = Vec::new();
    push_instr(&mut else_, Instr::LocalGet(2));
    let mut body: Vec<Instr> = Vec::new();
    push_instr(&mut body, Instr::LocalGet(0));
    push_instr(&mut body, Instr::LocalGet(1));
    push_instr(&mut body, Instr::Binop(BinaryOp::I64Add));
    push_instr(&mut body, Instr::LocalTee(2));
    push_instr(&mut body, Instr::LocalGet(0));
    push_instr(&mut body, Instr::Binop(BinaryOp::I64LtU));
    push_instr(&mut body, Instr::LocalGet(2));
    push_instr(&mut body, Instr::LocalGet(1));
    push_instr(&mut body, Instr::Binop(BinaryOp::I64LtU));
    push_instr(&mut body, Instr::Binop(BinaryOp::I32Or));
    push_instr(&mut body, trap_if(ValType::I64, else_));
    let r = FunctionBody {
        name: String::from_str(RuntimeFunction::AddU64.name()),
        params: vec![ValType::I64, ValType::I64],
        results: vec![ValType::I64],
        locals: vec![ValType::I64],
        body,
    };
    proof {
        assert(r@.params =~= add_u64_code().params);
        assert(r@.results =~= add_u64_code().results);
        assert(r@.locals =~= add_u64_code().locals);
        assert(r@.name == add_u64_code().name);
        assert(r@.body =~= add_u64_code().body);
        assert forall|env: Seq<FunctionView>, fuel: nat, mem: Seq<u8>, a: u64, b: u64| #[trigger] invoke(env, fuel, r@, args2(Value::I64(a), Value::I64(b)), mem)
            == if a + b <= u64::MAX {
                Completion::Returned(args1(Value::I64((a + b) as u64)), mem)
            } else {
                Completion::Trapped
            } by {
            law_add_u64(env, fuel, mem, a, b);
        }
    }
    r
}

} // verus!
