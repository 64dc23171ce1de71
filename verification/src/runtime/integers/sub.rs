//! Subtractions that trap when the result would be negative: of `u32` and `u64` values, and of
//! integers stored in memory (`u128` and `u256`), with a borrow from part to part.
use vstd::prelude::*;

use crate::runtime::{RuntimeFunction, runtime_function_name};
use crate::runtime::integers::{
    lemma_flags_or, lemma_wrap32_difference, lemma_wrap64_difference, number_at, trap_if,
};
use crate::wasm::{
    BinaryOp, Completion, FunctionBody, FunctionView, Instr, InstrView, Outcome, UnaryOp, ValType,
    Value, args1, args2, args4, instrs_view, invoke, le_bytes, lemma_le_value_fits, lemma_wrap64_range, push_instr, run,
    wrap32, wrap64, zeros,
};

verus! {

/// The locals of the subtraction: the operands' and the result's addresses, the size, the
/// offset of the current part, the borrow, the last sum, the last part of the result, and the
/// last parts of the operands.
pub open spec fn sub_locals(n1: u32, n2: u32, p: u32, size: u32, offset: u32, borrow: u64, sum: u64, part: u64, x: u64, y: u64) -> Seq<Value> {
    seq![
        Value::I32(n1),
        Value::I32(n2),
        Value::I32(p),
        Value::I32(size),
        Value::I32(offset),
        Value::I64(borrow),
        Value::I64(sum),
        Value::I64(part),
        Value::I64(x),
        Value::I64(y),
    ]
}

/// One part of the subtraction: leave when every part was done; else subtract the parts at
/// the offset and the borrow, store the difference, work out the new borrow, and go on with
/// the next part.
pub open spec fn heap_sub_loop() -> Seq<InstrView> {
    seq![
        InstrView::LocalGet(4),
        InstrView::LocalGet(3),
        InstrView::Binop(BinaryOp::I32Eq),
        InstrView::BrIf(1),
        InstrView::LocalGet(0),
        InstrView::LocalGet(4),
        InstrView::Binop(BinaryOp::I32Add),
        InstrView::Load(ValType::I64, 0),
        InstrView::LocalSet(8),
        InstrView::LocalGet(1),
        InstrView::LocalGet(4),
        InstrView::Binop(BinaryOp::I32Add),
        InstrView::Load(ValType::I64, 0),
        InstrView::LocalSet(9),
        InstrView::LocalGet(8),
        InstrView::LocalGet(5),
        InstrView::Binop(BinaryOp::I64Sub),
        InstrView::LocalGet(9),
        InstrView::Binop(BinaryOp::I64Sub),
        InstrView::LocalTee(7),
        InstrView::LocalSet(7),
        InstrView::LocalGet(2),
        InstrView::LocalGet(4),
        InstrView::Binop(BinaryOp::I32Add),
        InstrView::LocalGet(7),
        InstrView::Store(ValType::I64, 0),
        InstrView::LocalGet(9),
        InstrView::LocalGet(5),
        InstrView::Binop(BinaryOp::I64Add),
        InstrView::LocalSet(6),
        InstrView::LocalGet(8),
        InstrView::LocalGet(6),
        InstrView::Binop(BinaryOp::I64LtU),
        InstrView::LocalGet(6),
        InstrView::LocalGet(9),
        InstrView::Binop(BinaryOp::I64LtU),
        InstrView::Binop(BinaryOp::I32Or),
        InstrView::Unop(UnaryOp::I64ExtendUI32),
        InstrView::LocalSet(5),
        InstrView::LocalGet(4),
        InstrView::I32Const(8),
        InstrView::Binop(BinaryOp::I32Add),
        InstrView::LocalSet(4),
        InstrView::Br(0),
    ]
}

/// The function that subtracts two numbers in memory and stores the difference.
pub open spec fn heap_integers_sub_code() -> FunctionView {
    FunctionView {
        name: runtime_function_name(RuntimeFunction::HeapIntSub),
        params: seq![ValType::I32, ValType::I32, ValType::I32, ValType::I32],
        results: seq![ValType::I32],
        locals: seq![ValType::I32, ValType::I64, ValType::I64, ValType::I64, ValType::I64, ValType::I64],
        body: seq![
            InstrView::I64Const(0),
            InstrView::LocalSet(5),
            InstrView::I32Const(0),
            InstrView::LocalSet(4),
            InstrView::Block(seq![InstrView::Loop(heap_sub_loop())]),
            InstrView::LocalGet(5),
            InstrView::I64Const(1),
            InstrView::Binop(BinaryOp::I64Eq),
            InstrView::IfElse(Some(ValType::I32), seq![InstrView::Unreachable], seq![InstrView::LocalGet(2)]),
        ],
    }
}

/// The memory `mem` with the bytes at `a` replaced by `bytes`.
pub open spec fn splice(mem: Seq<u8>, a: int, bytes: Seq<u8>) -> Seq<u8> {
    mem.subrange(0, a) + bytes + mem.subrange(a + bytes.len(), mem.len() as int)
}

/// The first pass step: leave the loop when the offset reached the size.
#[verifier::rlimit(30)]
proof fn lemma_sub_check(env: Seq<FunctionView>, fuel: nat, m: Seq<u8>, n1: u32, n2: u32, p: u32, size: u32, o: u32, borrow: u64, sum: u64, part: u64, x: u64, y: u64)
    ensures
        ({
            let l = sub_locals(n1, n2, p, size, o, borrow, sum, part, x, y);
            &&& o == size ==> run(env, fuel, heap_sub_loop(), 0, Seq::empty(), l, m) == Outcome::Break(1, l, m)
            &&& o != size ==> run(env, fuel, heap_sub_loop(), 0, Seq::empty(), l, m) == run(env, fuel, heap_sub_loop(), 4, Seq::empty(), l, m)
        }),
{
    let lb = heap_sub_loop();
    let e = Seq::<Value>::empty();
    let l = sub_locals(n1, n2, p, size, o, borrow, sum, part, x, y);
    let c = Value::I32(if o == size { 1 } else { 0 });
    assert(run(env, fuel, lb, 0, e, l, m) == run(env, fuel, lb, 1, e.push(Value::I32(o)), l, m));
    assert(run(env, fuel, lb, 1, e.push(Value::I32(o)), l, m) == run(env, fuel, lb, 2, e.push(Value::I32(o)).push(Value::I32(size)), l, m));
    assert(e.push(Value::I32(o)).push(Value::I32(size)).drop_last().drop_last() =~= e);
    assert(run(env, fuel, lb, 2, e.push(Value::I32(o)).push(Value::I32(size)), l, m) == run(env, fuel, lb, 3, e.push(c), l, m));
    assert(e.push(c).drop_last() =~= e);
}

/// Loading the parts of the operands at the offset.
#[verifier::rlimit(80)]
proof fn lemma_sub_load(env: Seq<FunctionView>, fuel: nat, m: Seq<u8>, n1: u32, n2: u32, p: u32, size: u32, o: u32, borrow: u64, sum: u64, part: u64, x: u64, y: u64)
    requires
        n1 + o + 8 <= m.len(),
        n2 + o + 8 <= m.len(),
        n1 + o <= u32::MAX,
        n2 + o <= u32::MAX,
    ensures
        ({
            let a = number_at(m, n1 + o, 8);
            let b = number_at(m, n2 + o, 8);
            &&& a <= u64::MAX && b <= u64::MAX
            &&& run(env, fuel, heap_sub_loop(), 4, Seq::empty(), sub_locals(n1, n2, p, size, o, borrow, sum, part, x, y), m)
                == run(env, fuel, heap_sub_loop(), 14, Seq::empty(), sub_locals(n1, n2, p, size, o, borrow, sum, part, a as u64, b as u64), m)
        }),
{
    let lb = heap_sub_loop();
    let e = Seq::<Value>::empty();
    let l = sub_locals(n1, n2, p, size, o, borrow, sum, part, x, y);
    let a = number_at(m, n1 + o, 8);
    let b = number_at(m, n2 + o, 8);
    lemma_le_value_fits(m.subrange(n1 + o, n1 + o + 8));
    lemma_le_value_fits(m.subrange(n2 + o, n2 + o + 8));
    let va = Value::I64(a as u64);
    let vb = Value::I64(b as u64);
    let aa = (n1 + o) as u32;
    let ba = (n2 + o) as u32;
    assert(wrap32(n1 + o) == aa && wrap32(n2 + o) == ba);
    let l1 = sub_locals(n1, n2, p, size, o, borrow, sum, part, a as u64, y);
    let l2 = sub_locals(n1, n2, p, size, o, borrow, sum, part, a as u64, b as u64);
    assert(run(env, fuel, lb, 4, e, l, m) == run(env, fuel, lb, 5, e.push(Value::I32(n1)), l, m));
    assert(run(env, fuel, lb, 5, e.push(Value::I32(n1)), l, m) == run(env, fuel, lb, 6, e.push(Value::I32(n1)).push(Value::I32(o)), l, m));
    assert(e.push(Value::I32(n1)).push(Value::I32(o)).drop_last().drop_last() =~= e);
    assert(run(env, fuel, lb, 6, e.push(Value::I32(n1)).push(Value::I32(o)), l, m) == run(env, fuel, lb, 7, e.push(Value::I32(aa)), l, m));
    assert(e.push(Value::I32(aa)).drop_last() =~= e);
    assert(run(env, fuel, lb, 7, e.push(Value::I32(aa)), l, m) == run(env, fuel, lb, 8, e.push(va), l, m));
    assert(e.push(va).drop_last() =~= e);
    assert(l.update(8, va) =~= l1);
    assert(run(env, fuel, lb, 8, e.push(va), l, m) == run(env, fuel, lb, 9, e, l1, m));
    assert(run(env, fuel, lb, 9, e, l1, m) == run(env, fuel, lb, 10, e.push(Value::I32(n2)), l1, m));
    assert(run(env, fuel, lb, 10, e.push(Value::I32(n2)), l1, m) == run(env, fuel, lb, 11, e.push(Value::I32(n2)).push(Value::I32(o)), l1, m));
    assert(e.push(Value::I32(n2)).push(Value::I32(o)).drop_last().drop_last() =~= e);
    assert(run(env, fuel, lb, 11, e.push(Value::I32(n2)).push(Value::I32(o)), l1, m) == run(env, fuel, lb, 12, e.push(Value::I32(ba)), l1, m));
    assert(e.push(Value::I32(ba)).drop_last() =~= e);
    assert(run(env, fuel, lb, 12, e.push(Value::I32(ba)), l1, m) == run(env, fuel, lb, 13, e.push(vb), l1, m));
    assert(e.push(vb).drop_last() =~= e);
    assert(l1.update(9, vb) =~= l2);
    assert(run(env, fuel, lb, 13, e.push(vb), l1, m) == run(env, fuel, lb, 14, e, l2, m));
}

/// The difference of the parts, less the borrow.
#[verifier::rlimit(30)]
proof fn lemma_sub_difference(env: Seq<FunctionView>, fuel: nat, m: Seq<u8>, n1: u32, n2: u32, p: u32, size: u32, o: u32, borrow: u64, sum: u64, part: u64, x: u64, y: u64)
    ensures
        run(env, fuel, heap_sub_loop(), 14, Seq::empty(), sub_locals(n1, n2, p, size, o, borrow, sum, part, x, y), m)
            == run(env, fuel, heap_sub_loop(), 21, Seq::empty(),
                sub_locals(n1, n2, p, size, o, borrow, sum, wrap64(wrap64(x - borrow) - y), x, y), m),
{
    let lb = heap_sub_loop();
    let e = Seq::<Value>::empty();
    let l = sub_locals(n1, n2, p, size, o, borrow, sum, part, x, y);
    let d1 = wrap64(x - borrow);
    let d2 = wrap64(d1 - y);
    let l2 = sub_locals(n1, n2, p, size, o, borrow, sum, d2, x, y);
    let vx = Value::I64(x);
    assert(run(env, fuel, lb, 14, e, l, m) == run(env, fuel, lb, 15, e.push(vx), l, m));
    assert(run(env, fuel, lb, 15, e.push(vx), l, m) == run(env, fuel, lb, 16, e.push(vx).push(Value::I64(borrow)), l, m));
    assert(e.push(vx).push(Value::I64(borrow)).drop_last().drop_last() =~= e);
    assert(run(env, fuel, lb, 16, e.push(vx).push(Value::I64(borrow)), l, m) == run(env, fuel, lb, 17, e.push(Value::I64(d1)), l, m));
    assert(run(env, fuel, lb, 17, e.push(Value::I64(d1)), l, m) == run(env, fuel, lb, 18, e.push(Value::I64(d1)).push(Value::I64(y)), l, m));
    assert(e.push(Value::I64(d1)).push(Value::I64(y)).drop_last().drop_last() =~= e);
    assert(run(env, fuel, lb, 18, e.push(Value::I64(d1)).push(Value::I64(y)), l, m) == run(env, fuel, lb, 19, e.push(Value::I64(d2)), l, m));
    assert(l.update(7, Value::I64(d2)) =~= l2);
    assert(run(env, fuel, lb, 19, e.push(Value::I64(d2)), l, m) == run(env, fuel, lb, 20, e.push(Value::I64(d2)), l2, m));
    assert(e.push(Value::I64(d2)).drop_last() =~= e);
    assert(l2.update(7, Value::I64(d2)) =~= l2);
    assert(run(env, fuel, lb, 20, e.push(Value::I64(d2)), l2, m) == run(env, fuel, lb, 21, e, l2, m));
}

/// Storing the part of the difference at the offset of the result.
#[verifier::rlimit(30)]
proof fn lemma_sub_store(env: Seq<FunctionView>, fuel: nat, m: Seq<u8>, n1: u32, n2: u32, p: u32, size: u32, o: u32, borrow: u64, sum: u64, part: u64, x: u64, y: u64)
    requires
        p + o + 8 <= m.len(),
        p + o <= u32::MAX,
    ensures
        run(env, fuel, heap_sub_loop(), 21, Seq::empty(), sub_locals(n1, n2, p, size, o, borrow, sum, part, x, y), m)
            == run(env, fuel, heap_sub_loop(), 26, Seq::empty(), sub_locals(n1, n2, p, size, o, borrow, sum, part, x, y),
                splice(m, p + o, le_bytes(part as nat, 8))),
{
    let lb = heap_sub_loop();
    let e = Seq::<Value>::empty();
    let l = sub_locals(n1, n2, p, size, o, borrow, sum, part, x, y);
    let pa = (p + o) as u32;
    assert(wrap32(p + o) == pa);
    crate::wasm::lemma_le_bytes_len(part as nat, 8);
    assert(run(env, fuel, lb, 21, e, l, m) == run(env, fuel, lb, 22, e.push(Value::I32(p)), l, m));
    assert(run(env, fuel, lb, 22, e.push(Value::I32(p)), l, m) == run(env, fuel, lb, 23, e.push(Value::I32(p)).push(Value::I32(o)), l, m));
    assert(e.push(Value::I32(p)).push(Value::I32(o)).drop_last().drop_last() =~= e);
    assert(run(env, fuel, lb, 23, e.push(Value::I32(p)).push(Value::I32(o)), l, m) == run(env, fuel, lb, 24, e.push(Value::I32(pa)), l, m));
    assert(run(env, fuel, lb, 24, e.push(Value::I32(pa)), l, m) == run(env, fuel, lb, 25, e.push(Value::I32(pa)).push(Value::I64(part)), l, m));
    assert(e.push(Value::I32(pa)).push(Value::I64(part)).drop_last().drop_last() =~= e);
}

/// The new borrow: whether the first part is less than the second part plus the borrow.
#[verifier::rlimit(30)]
proof fn lemma_sub_borrow(env: Seq<FunctionView>, fuel: nat, m: Seq<u8>, n1: u32, n2: u32, p: u32, size: u32, o: u32, borrow: u64, sum: u64, part: u64, x: u64, y: u64)
    ensures
        ({
            let s = wrap64(y + borrow);
            let f1: u32 = if x < s { 1 } else { 0 };
            let f2: u32 = if s < y { 1 } else { 0 };
            run(env, fuel, heap_sub_loop(), 26, Seq::empty(), sub_locals(n1, n2, p, size, o, borrow, sum, part, x, y), m)
                == run(env, fuel, heap_sub_loop(), 39, Seq::empty(), sub_locals(n1, n2, p, size, o, (f1 | f2) as u64, s, part, x, y), m)
        }),
{
    let lb = heap_sub_loop();
    let e = Seq::<Value>::empty();
    let l = sub_locals(n1, n2, p, size, o, borrow, sum, part, x, y);
    let s = wrap64(y + borrow);
    let f1: u32 = if x < s { 1 } else { 0 };
    let f2: u32 = if s < y { 1 } else { 0 };
    let l1 = sub_locals(n1, n2, p, size, o, borrow, s, part, x, y);
    let l2 = sub_locals(n1, n2, p, size, o, (f1 | f2) as u64, s, part, x, y);
    let vx = Value::I64(x);
    let vy = Value::I64(y);
    let vs = Value::I64(s);
    let v1 = Value::I32(f1);
    assert(run(env, fuel, lb, 26, e, l, m) == run(env, fuel, lb, 27, e.push(vy), l, m));
    assert(run(env, fuel, lb, 27, e.push(vy), l, m) == run(env, fuel, lb, 28, e.push(vy).push(Value::I64(borrow)), l, m));
    assert(e.push(vy).push(Value::I64(borrow)).drop_last().drop_last() =~= e);
    assert(run(env, fuel, lb, 28, e.push(vy).push(Value::I64(borrow)), l, m) == run(env, fuel, lb, 29, e.push(vs), l, m));
    assert(e.push(vs).drop_last() =~= e);
    assert(l.update(6, vs) =~= l1);
    assert(run(env, fuel, lb, 29, e.push(vs), l, m) == run(env, fuel, lb, 30, e, l1, m));
    assert(run(env, fuel, lb, 30, e, l1, m) == run(env, fuel, lb, 31, e.push(vx), l1, m));
    assert(run(env, fuel, lb, 31, e.push(vx), l1, m) == run(env, fuel, lb, 32, e.push(vx).push(vs), l1, m));
    assert(e.push(vx).push(vs).drop_last().drop_last() =~= e);
    assert(run(env, fuel, lb, 32, e.push(vx).push(vs), l1, m) == run(env, fuel, lb, 33, e.push(v1), l1, m));
    assert(run(env, fuel, lb, 33, e.push(v1), l1, m) == run(env, fuel, lb, 34, e.push(v1).push(vs), l1, m));
    assert(run(env, fuel, lb, 34, e.push(v1).push(vs), l1, m) == run(env, fuel, lb, 35, e.push(v1).push(vs).push(vy), l1, m));
    assert(e.push(v1).push(vs).push(vy).drop_last().drop_last() =~= e.push(v1));
    assert(run(env, fuel, lb, 35, e.push(v1).push(vs).push(vy), l1, m) == run(env, fuel, lb, 36, e.push(v1).push(Value::I32(f2)), l1, m));
    assert(e.push(v1).push(Value::I32(f2)).drop_last().drop_last() =~= e);
    assert(run(env, fuel, lb, 36, e.push(v1).push(Value::I32(f2)), l1, m) == run(env, fuel, lb, 37, e.push(Value::I32(f1 | f2)), l1, m));
    assert(e.push(Value::I32(f1 | f2)).drop_last() =~= e);
    assert(run(env, fuel, lb, 37, e.push(Value::I32(f1 | f2)), l1, m) == run(env, fuel, lb, 38, e.push(Value::I64((f1 | f2) as u64)), l1, m));
    assert(e.push(Value::I64((f1 | f2) as u64)).drop_last() =~= e);
    assert(l1.update(5, Value::I64((f1 | f2) as u64)) =~= l2);
    assert(run(env, fuel, lb, 38, e.push(Value::I64((f1 | f2) as u64)), l1, m) == run(env, fuel, lb, 39, e, l2, m));
}

/// Moving to the next part and running the loop again.
#[verifier::rlimit(30)]
proof fn lemma_sub_advance(env: Seq<FunctionView>, fuel: nat, m: Seq<u8>, n1: u32, n2: u32, p: u32, size: u32, o: u32, borrow: u64, sum: u64, part: u64, x: u64, y: u64)
    requires
        o + 8 <= u32::MAX,
    ensures
        run(env, fuel, heap_sub_loop(), 39, Seq::empty(), sub_locals(n1, n2, p, size, o, borrow, sum, part, x, y), m)
            == Outcome::Break(0, sub_locals(n1, n2, p, size, (o + 8) as u32, borrow, sum, part, x, y), m),
{
    let lb = heap_sub_loop();
    let e = Seq::<Value>::empty();
    let l = sub_locals(n1, n2, p, size, o, borrow, sum, part, x, y);
    let next = (o + 8) as u32;
    let l2 = sub_locals(n1, n2, p, size, next, borrow, sum, part, x, y);
    assert(wrap32(o + 8) == next);
    assert(run(env, fuel, lb, 39, e, l, m) == run(env, fuel, lb, 40, e.push(Value::I32(o)), l, m));
    assert(run(env, fuel, lb, 40, e.push(Value::I32(o)), l, m) == run(env, fuel, lb, 41, e.push(Value::I32(o)).push(Value::I32(8)), l, m));
    assert(e.push(Value::I32(o)).push(Value::I32(8)).drop_last().drop_last() =~= e);
    assert(run(env, fuel, lb, 41, e.push(Value::I32(o)).push(Value::I32(8)), l, m) == run(env, fuel, lb, 42, e.push(Value::I32(next)), l, m));
    assert(e.push(Value::I32(next)).drop_last() =~= e);
    assert(l.update(4, Value::I32(next)) =~= l2);
    assert(run(env, fuel, lb, 42, e.push(Value::I32(next)), l, m) == run(env, fuel, lb, 43, e, l2, m));
}

/// The subtraction of one 64-bit part with a borrow: the new borrow is whether the first part
/// is less than the second plus the borrow, and the part of the difference is the difference
/// plus 2^64 when there is a new borrow.
proof fn lemma_sub_part(a: u64, b: u64, borrow: u64)
    requires
        borrow <= 1,
    ensures
        ({
            let s = wrap64(b + borrow);
            let f1: u32 = if a < s { 1 } else { 0 };
            let f2: u32 = if s < b { 1 } else { 0 };
            let nb = (f1 | f2) as u64;
            &&& nb == if a < b + borrow { 1u64 } else { 0u64 }
            &&& wrap64(wrap64(a - borrow) - b) == a - b - borrow + 0x1_0000_0000_0000_0000 * nb
        }),
{
    let s = wrap64(b + borrow);
    let f1: u32 = if a < s { 1 } else { 0 };
    let f2: u32 = if s < b { 1 } else { 0 };
    crate::runtime::integers::lemma_flags_or(f1, f2);
    lemma_wrap64_range(b + borrow);
    lemma_wrap64_range(a - borrow);
    let d1 = wrap64(a - borrow);
    lemma_wrap64_range(d1 - b);
}

/// What the subtraction loop leaves: the borrow out of the last part, and, when there is none,
/// the difference stored at the result's address.
pub open spec fn sub_loop_done(o: Outcome, mem0: Seq<u8>, n1: u32, n2: u32, p: u32, size: u32) -> bool {
    match o {
        Outcome::Break(d, l, mf) => {
            let a = number_at(mem0, n1 as int, size as int);
            let b = number_at(mem0, n2 as int, size as int);
            &&& d == 0
            &&& l.len() == 10
            &&& l[2] == Value::I32(p)
            &&& l[5] == Value::I64(if a < b { 1 } else { 0 })
            &&& a >= b ==> result_memory(mem0, mf, p as int, size as int, a - b)
        },
        _ => false,
    }
}

/// Whether `m` is `mem0` with the `size` bytes at `p` holding `v`.
pub open spec fn result_memory(mem0: Seq<u8>, m: Seq<u8>, p: int, size: int, v: int) -> bool {
    &&& m.len() == mem0.len()
    &&& forall|i: int| 0 <= i < m.len() && !(p <= i < p + size) ==> m[i] == mem0[i]
    &&& number_at(m, p, size) == v
}

/// Whether the `size` bytes at `n` and those at `p` are the same or do not overlap.
pub open spec fn same_or_apart(n: u32, p: u32, size: u32) -> bool {
    n == p || n + size <= p || p + size <= n
}

/// A pass of the loop at part `j`, before the last part: the parts are subtracted with the
/// borrow, the difference is stored, and the loop runs again at the next part.
proof fn lemma_sub_pass(env: Seq<FunctionView>, fuel: nat, m: Seq<u8>, n1: u32, n2: u32, p: u32, size: u32, o: u32, borrow: u64, sum: u64, part: u64, x: u64, y: u64)
    requires
        o + 8 <= size,
        n1 + size <= m.len(),
        n2 + size <= m.len(),
        p + size <= m.len(),
        n1 + size <= u32::MAX,
        n2 + size <= u32::MAX,
        p + size <= u32::MAX,
    ensures
        ({
            let a = number_at(m, n1 + o, 8);
            let b = number_at(m, n2 + o, 8);
            let d = wrap64(wrap64(a - borrow) - b);
            let s = wrap64(b + borrow);
            let f1: u32 = if a < s { 1 } else { 0 };
            let f2: u32 = if s < b { 1 } else { 0 };
            &&& a <= u64::MAX && b <= u64::MAX
            &&& run(env, fuel, heap_sub_loop(), 0, Seq::empty(), sub_locals(n1, n2, p, size, o, borrow, sum, part, x, y), m)
                == Outcome::Break(0, sub_locals(n1, n2, p, size, (o + 8) as u32, (f1 | f2) as u64, s, d, a as u64, b as u64),
                    splice(m, p + o, le_bytes(d as nat, 8)))
        }),
{
    let a = number_at(m, n1 + o, 8);
    let b = number_at(m, n2 + o, 8);
    lemma_sub_check(env, fuel, m, n1, n2, p, size, o, borrow, sum, part, x, y);
    lemma_sub_load(env, fuel, m, n1, n2, p, size, o, borrow, sum, part, x, y);
    let au = a as u64;
    let bu = b as u64;
    lemma_sub_difference(env, fuel, m, n1, n2, p, size, o, borrow, sum, part, au, bu);
    let d = wrap64(wrap64(au - borrow) - bu);
    lemma_sub_store(env, fuel, m, n1, n2, p, size, o, borrow, sum, d, au, bu);
    let m2 = splice(m, p + o, le_bytes(d as nat, 8));
    lemma_sub_borrow(env, fuel, m2, n1, n2, p, size, o, borrow, sum, d, au, bu);
    let s = wrap64(bu + borrow);
    let f1: u32 = if au < s { 1 } else { 0 };
    let f2: u32 = if s < bu { 1 } else { 0 };
    lemma_sub_advance(env, fuel, m2, n1, n2, p, size, o, (f1 | f2) as u64, s, d, au, bu);
}

/// The bytes of a splice: those before and after the spliced bytes are kept.
pub proof fn lemma_splice(mem: Seq<u8>, a: int, bytes: Seq<u8>)
    requires
        0 <= a,
        a + bytes.len() <= mem.len(),
    ensures
        splice(mem, a, bytes).len() == mem.len(),
        forall|i: int| 0 <= i < mem.len() && !(a <= i < a + bytes.len()) ==> #[trigger] splice(mem, a, bytes)[i] == mem[i],
        splice(mem, a, bytes).subrange(a, a + bytes.len()) =~= bytes,
{
    let s = splice(mem, a, bytes);
    assert forall|i: int| 0 <= i < mem.len() && !(a <= i < a + bytes.len()) implies #[trigger] s[i] == mem[i] by {
        if i < a {
            assert(s[i] == mem.subrange(0, a)[i]);
        } else {
            assert(s[i] == mem.subrange(a + bytes.len(), mem.len() as int)[i - a - bytes.len()]);
        }
    }
}

/// The number of `n` bytes at `ptr` is the same in two memories that agree on those bytes.
pub proof fn lemma_number_same(m1: Seq<u8>, m2: Seq<u8>, ptr: int, n: int)
    requires
        0 <= ptr,
        0 <= n,
        ptr + n <= m1.len(),
        ptr + n <= m2.len(),
        forall|i: int| ptr <= i < ptr + n ==> m1[i] == m2[i],
    ensures
        number_at(m1, ptr, n) == number_at(m2, ptr, n),
{
    assert(m1.subrange(ptr, ptr + n) =~= m2.subrange(ptr, ptr + n));
}

/// The number of the low `j + 1` parts of 8 bytes at `ptr` is that of the low `j` parts plus
/// 256^(8j) times part `j`.
pub proof fn lemma_number_next_part(mem: Seq<u8>, ptr: int, j: nat)
    requires
        0 <= ptr,
        ptr + 8 * j + 8 <= mem.len(),
    ensures
        number_at(mem, ptr, (8 * j + 8) as int) == number_at(mem, ptr, (8 * j) as int) + crate::wasm::pow256(8 * j) * number_at(mem, ptr + 8 * j, 8),
{
    assert(mem.subrange(ptr, ptr + 8 * j + 8) =~= mem.subrange(ptr, ptr + 8 * j) + mem.subrange(ptr + 8 * j, ptr + 8 * j + 8));
    crate::wasm::lemma_le_value_concat(mem.subrange(ptr, ptr + 8 * j), mem.subrange(ptr + 8 * j, ptr + 8 * j + 8));
}

/// The subtraction loop from part `j` on, when the parts before `j` are subtracted: the
/// difference so far is stored at the result's address, and the borrow is whether the low `j`
/// parts of the first number are less than those of the second.
#[verifier::rlimit(80)]
proof fn lemma_sub_loop(
    env: Seq<FunctionView>,
    fuel: nat,
    mem0: Seq<u8>,
    m: Seq<u8>,
    n1: u32,
    n2: u32,
    p: u32,
    size: u32,
    j: nat,
    borrow: u64,
    sum: u64,
    part: u64,
    x: u64,
    y: u64,
    r: nat,
)
    requires
        size % 8 == 0,
        8 * j <= size,
        n1 + size <= mem0.len(),
        n2 + size <= mem0.len(),
        p + size <= mem0.len(),
        n1 + size <= u32::MAX,
        n2 + size <= u32::MAX,
        p + size <= u32::MAX,
        same_or_apart(n1, p, size),
        same_or_apart(n2, p, size),
        fuel * 8 + 8 * j >= size,
        m.len() == mem0.len(),
        forall|i: int| 0 <= i < m.len() && !(p <= i < p + 8 * j) ==> m[i] == mem0[i],
        number_at(m, p as int, (8 * j) as int) == r,
        borrow <= 1,
        number_at(mem0, n1 as int, (8 * j) as int) + crate::wasm::pow256(8 * j) * borrow
            == number_at(mem0, n2 as int, (8 * j) as int) + r,
    ensures
        sub_loop_done(
            run(env, fuel, seq![InstrView::Loop(heap_sub_loop())], 0, Seq::empty(),
                sub_locals(n1, n2, p, size, (8 * j) as u32, borrow, sum, part, x, y), m),
            mem0, n1, n2, p, size,
        ),
    decreases size - 8 * j,
{
    let o = (8 * j) as u32;
    let l = sub_locals(n1, n2, p, size, o, borrow, sum, part, x, y);
    let big_p = crate::wasm::pow256(8 * j);
    crate::wasm::lemma_le_value_bound(m.subrange(p as int, p + 8 * j));
    if 8 * j == size {
        lemma_sub_check(env, fuel, m, n1, n2, p, size, o, borrow, sum, part, x, y);
    } else {
        lemma_sub_pass(env, fuel, m, n1, n2, p, size, o, borrow, sum, part, x, y);
        let a = number_at(m, n1 + o, 8);
        let b = number_at(m, n2 + o, 8);
        lemma_number_same(m, mem0, n1 + o, 8);
        lemma_number_same(m, mem0, n2 + o, 8);
        let au = a as u64;
        let bu = b as u64;
        lemma_sub_part(au, bu, borrow);
        let d = wrap64(wrap64(au - borrow) - bu);
        let s = wrap64(bu + borrow);
        let f1: u32 = if au < s { 1 } else { 0 };
        let f2: u32 = if s < bu { 1 } else { 0 };
        let nb = (f1 | f2) as u64;
        let bytes = le_bytes(d as nat, 8);
        crate::wasm::lemma_le_bytes_len(d as nat, 8);
        let m2 = splice(m, p + o, bytes);
        lemma_splice(m, p + o, bytes);
        // The difference so far, with the new part
        let r2 = (r + big_p * d) as nat;
        lemma_number_next_part(m2, p as int, j);
        lemma_number_same(m2, m, p as int, (8 * j) as int);
        crate::wasm::lemma_le_value_of_bytes(d as nat, 8);
        crate::wasm::lemma_pow256_8();
        assert(number_at(m2, p + 8 * j, 8) == d);
        assert(number_at(m2, p as int, (8 * (j + 1)) as int) == r2);
        // The numbers so far, with the new parts
        lemma_number_next_part(mem0, n1 as int, j);
        lemma_number_next_part(mem0, n2 as int, j);
        crate::wasm::lemma_pow256_add(8 * j, 8);
        let a0 = number_at(mem0, n1 as int, (8 * j) as int);
        let b0 = number_at(mem0, n2 as int, (8 * j) as int);
        assert(a0 + big_p * a + (big_p * 0x1_0000_0000_0000_0000) * nb == b0 + big_p * b + r2) by (nonlinear_arith)
            requires
                a0 + big_p * borrow == b0 + r,
                d == a - b - borrow + 0x1_0000_0000_0000_0000 * nb,
                r2 == r + big_p * d,
        ;
        assert forall|i: int| 0 <= i < m2.len() && !(p <= i < p + 8 * (j + 1)) implies m2[i] == mem0[i] by {
            assert(m2[i] == m[i]);
        }
        assert(fuel > 0);
        lemma_sub_loop(env, (fuel - 1) as nat, mem0, m2, n1, n2, p, size, j + 1, nb, s, d, au, bu, r2);
        assert(((8 * j + 8) as u32) == (8 * (j + 1)) as u32);
    }
}

/// `heap_integers_sub` subtracts the number of `size` bytes at `n2` from the one at `n1`: it
/// traps when the first is less than the second, and otherwise stores the difference in the
/// `size` bytes at `p`, leaves every other byte as it was, and returns `p`.
#[verifier::rlimit(30)]
pub proof fn law_heap_integers_sub(env: Seq<FunctionView>, fuel: nat, mem: Seq<u8>, n1: u32, n2: u32, p: u32, size: u32)
    requires
        size % 8 == 0,
        n1 + size <= mem.len(),
        n2 + size <= mem.len(),
        p + size <= mem.len(),
        n1 + size <= u32::MAX,
        n2 + size <= u32::MAX,
        p + size <= u32::MAX,
        same_or_apart(n1, p, size),
        same_or_apart(n2, p, size),
        fuel * 8 >= size,
    ensures
        ({
            let a = number_at(mem, n1 as int, size as int);
            let b = number_at(mem, n2 as int, size as int);
            let out = invoke(env, fuel, heap_integers_sub_code(), args4(Value::I32(n1), Value::I32(n2), Value::I32(p), Value::I32(size)), mem);
            &&& a < b ==> out == Completion::Trapped
            &&& a >= b ==> (out matches Completion::Returned(s, m) && s == args1(Value::I32(p)) && result_memory(mem, m, p as int, size as int, a - b))
        }),
{
    let code = heap_integers_sub_code();
    let b = code.body;
    let e = Seq::<Value>::empty();
    let l0 = sub_locals(n1, n2, p, size, 0, 0, 0, 0, 0, 0);
    assert(args4(Value::I32(n1), Value::I32(n2), Value::I32(p), Value::I32(size)) + zeros(code.locals) =~= l0);
    assert(run(env, fuel, b, 0, e, l0, mem) == run(env, fuel, b, 1, e.push(Value::I64(0)), l0, mem));
    assert(e.push(Value::I64(0)).drop_last() =~= e);
    assert(l0.update(5, Value::I64(0)) =~= l0);
    assert(run(env, fuel, b, 1, e.push(Value::I64(0)), l0, mem) == run(env, fuel, b, 2, e, l0, mem));
    assert(run(env, fuel, b, 2, e, l0, mem) == run(env, fuel, b, 3, e.push(Value::I32(0)), l0, mem));
    assert(e.push(Value::I32(0)).drop_last() =~= e);
    assert(l0.update(4, Value::I32(0)) =~= l0);
    assert(run(env, fuel, b, 3, e.push(Value::I32(0)), l0, mem) == run(env, fuel, b, 4, e, l0, mem));
    assert(mem.subrange(p as int, p as int) =~= Seq::<u8>::empty());
    assert(mem.subrange(n1 as int, n1 as int) =~= Seq::<u8>::empty());
    assert(mem.subrange(n2 as int, n2 as int) =~= Seq::<u8>::empty());
    assert(crate::wasm::pow256(0) == 1);
    lemma_sub_loop(env, fuel, mem, mem, n1, n2, p, size, 0, 0, 0, 0, 0, 0, 0);
    let out = run(env, fuel, seq![InstrView::Loop(heap_sub_loop())], 0, e, l0, mem);
    match out {
        Outcome::Break(_, l, mf) => {
            let bf = l[5];
            assert(e + e =~= e);
            assert(run(env, fuel, b, 4, e, l0, mem) == run(env, fuel, b, 5, e, l, mf));
            assert(run(env, fuel, b, 5, e, l, mf) == run(env, fuel, b, 6, e.push(bf), l, mf));
            assert(run(env, fuel, b, 6, e.push(bf), l, mf) == run(env, fuel, b, 7, e.push(bf).push(Value::I64(1)), l, mf));
            assert(e.push(bf).push(Value::I64(1)).drop_last().drop_last() =~= e);
            let a = number_at(mem, n1 as int, size as int);
            let bb = number_at(mem, n2 as int, size as int);
            let c = Value::I32(if a < bb { 1 } else { 0 });
            assert(run(env, fuel, b, 7, e.push(bf).push(Value::I64(1)), l, mf) == run(env, fuel, b, 8, e.push(c), l, mf));
            if a < bb {
                assert(run(env, fuel, seq![InstrView::Unreachable], 0, e, l, mf) == Outcome::Trap);
            } else {
                let pv = Value::I32(p);
                assert(run(env, fuel, seq![InstrView::LocalGet(2)], 0, e, l, mf) == run(env, fuel, seq![InstrView::LocalGet(2)], 1, e.push(pv), l, mf));
                assert(e.push(c).drop_last() + e.push(pv) =~= e.push(pv));
                assert(run(env, fuel, b, 8, e.push(c), l, mf) == run(env, fuel, b, 9, e.push(pv), l, mf));
                assert(e.push(pv) =~= args1(pv));
            }
        },
        _ => {},
    }
}

/// Builds the instructions of the loop of `heap_integers_sub`.
#[verifier::rlimit(100)]
fn heap_sub_loop_body() -> (lb: Vec<Instr>)
    ensures
        instrs_view(lb@) == heap_sub_loop(),
{
    let mut lb: Vec<Instr> = Vec::new();
    // Leave when every part was subtracted
    push_instr(&mut lb, Instr::LocalGet(4));
    push_instr(&mut lb, Instr::LocalGet(3));
    push_instr(&mut lb, Instr::Binop(BinaryOp::I32Eq));
    push_instr(&mut lb, Instr::BrIf(1));
    // Load the part of the first operand
    push_instr(&mut lb, Instr::LocalGet(0));
    push_instr(&mut lb, Instr::LocalGet(4));
    push_instr(&mut lb, Instr::Binop(BinaryOp::I32Add));
    push_instr(&mut lb, Instr::Load(ValType::I64, 0));
    push_instr(&mut lb, Instr::LocalSet(8));
    // Load the part of the second operand
    push_instr(&mut lb, Instr::LocalGet(1));
    push_instr(&mut lb, Instr::LocalGet(4));
    push_instr(&mut lb, Instr::Binop(BinaryOp::I32Add));
    push_instr(&mut lb, Instr::Load(ValType::I64, 0));
    push_instr(&mut lb, Instr::LocalSet(9));
    // The part of the difference: n1 - borrow - n2
    push_instr(&mut lb, Instr::LocalGet(8));
    push_instr(&mut lb, Instr::LocalGet(5));
    push_instr(&mut lb, Instr::Binop(BinaryOp::I64Sub));
    push_instr(&mut lb, Instr::LocalGet(9));
    push_instr(&mut lb, Instr::Binop(BinaryOp::I64Sub));
    push_instr(&mut lb, Instr::LocalTee(7));
    push_instr(&mut lb, Instr::LocalSet(7));
    // Store it
    push_instr(&mut lb, Instr::LocalGet(2));
    push_instr(&mut lb, Instr::LocalGet(4));
    push_instr(&mut lb, Instr::Binop(BinaryOp::I32Add));
    push_instr(&mut lb, Instr::LocalGet(7));
    push_instr(&mut lb, Instr::Store(ValType::I64, 0));
    // The new borrow: (n1 < n2 + borrow) || (n2 + borrow < n2)
    push_instr(&mut lb, Instr::LocalGet(9));
    push_instr(&mut lb, Instr::LocalGet(5));
    push_instr(&mut lb, Instr::Binop(BinaryOp::I64Add));
    push_instr(&mut lb, Instr::LocalSet(6));
    push_instr(&mut lb, Instr::LocalGet(8));
    push_instr(&mut lb, Instr::LocalGet(6));
    push_instr(&mut lb, Instr::Binop(BinaryOp::I64LtU));
    push_instr(&mut lb, Instr::LocalGet(6));
    push_instr(&mut lb, Instr::LocalGet(9));
    push_instr(&mut lb, Instr::Binop(BinaryOp::I64LtU));
    push_instr(&mut lb, Instr::Binop(BinaryOp::I32Or));
    push_instr(&mut lb, Instr::Unop(UnaryOp::I64ExtendUI32));
    push_instr(&mut lb, Instr::LocalSet(5));
    // Go on with the next part
    push_instr(&mut lb, Instr::LocalGet(4));
    push_instr(&mut lb, Instr::I32Const(8));
    push_instr(&mut lb, Instr::Binop(BinaryOp::I32Add));
    push_instr(&mut lb, Instr::LocalSet(4));
    push_instr(&mut lb, Instr::Br(0));
    assert(instrs_view(lb@) == heap_sub_loop());
    lb
}

/// What a call of the function built from `code` does, for every input.
proof fn lemma_heap_integers_sub_calls(code: FunctionView)
    requires
        code == heap_integers_sub_code(),
    ensures
        forall|env: Seq<FunctionView>, fuel: nat, mem: Seq<u8>, n1: u32, n2: u32, p: u32, size: u32|
            size % 8 == 0 && n1 + size <= mem.len() && n2 + size <= mem.len() && p + size <= mem.len()
                && n1 + size <= u32::MAX && n2 + size <= u32::MAX && p + size <= u32::MAX
                && same_or_apart(n1, p, size) && same_or_apart(n2, p, size) && fuel * 8 >= size
            ==> ({
                let a = number_at(mem, n1 as int, size as int);
                let b = number_at(mem, n2 as int, size as int);
                let out = #[trigger] invoke(env, fuel, code, args4(Value::I32(n1), Value::I32(n2), Value::I32(p), Value::I32(size)), mem);
                &&& a < b ==> out == Completion::Trapped
                &&& a >= b ==> (out matches Completion::Returned(s, m) && s == args1(Value::I32(p))
                    && result_memory(mem, m, p as int, size as int, a - b))
            }),
{
    assert forall|env: Seq<FunctionView>, fuel: nat, mem: Seq<u8>, n1: u32, n2: u32, p: u32, size: u32|
        size % 8 == 0 && n1 + size <= mem.len() && n2 + size <= mem.len() && p + size <= mem.len()
            && n1 + size <= u32::MAX && n2 + size <= u32::MAX && p + size <= u32::MAX
            && same_or_apart(n1, p, size) && same_or_apart(n2, p, size) && fuel * 8 >= size
        implies ({
            let a = number_at(mem, n1 as int, size as int);
            let b = number_at(mem, n2 as int, size as int);
            let out = #[trigger] invoke(env, fuel, code, args4(Value::I32(n1), Value::I32(n2), Value::I32(p), Value::I32(size)), mem);
            &&& a < b ==> out == Completion::Trapped
            &&& a >= b ==> (out matches Completion::Returned(s, m) && s == args1(Value::I32(p))
                && result_memory(mem, m, p as int, size as int, a - b))
        }) by {
        law_heap_integers_sub(env, fuel, mem, n1, n2, p, size);
    }
}

/// Builds the function that subtracts two `u128` or `u256` in memory, part by part with a
/// borrow: it takes the operands' addresses, the result's address and the size in bytes, traps
/// when the first operand is less than the second, and otherwise stores the difference and
/// returns the result's address.
#[verifier::rlimit(100)]
pub fn heap_integers_sub() -> (r: FunctionBody)
    ensures
        r@ == heap_integers_sub_code(),
        forall|env: Seq<FunctionView>, fuel: nat, mem: Seq<u8>, n1: u32, n2: u32, p: u32, size: u32|
            size % 8 == 0 && n1 + size <= mem.len() && n2 + size <= mem.len() && p + size <= mem.len()
                && n1 + size <= u32::MAX && n2 + size <= u32::MAX && p + size <= u32::MAX
                && same_or_apart(n1, p, size) && same_or_apart(n2, p, size) && fuel * 8 >= size
            ==> ({
                let a = number_at(mem, n1 as int, size as int);
                let b = number_at(mem, n2 as int, size as int);
                let out = #[trigger] invoke(env, fuel, r@, args4(Value::I32(n1), Value::I32(n2), Value::I32(p), Value::I32(size)), mem);
                &&& a < b ==> out == Completion::Trapped
                &&& a >= b ==> (out matches Completion::Returned(s, m) && s == args1(Value::I32(p))
                    && result_memory(mem, m, p as int, size as int, a - b))
            }),
{
    let lb = heap_sub_loop_body();

    let mut block: Vec<Instr> = Vec::new();
    push_instr(&mut block, Instr::Loop(lb));
    assert(instrs_view(block@) =~= seq![InstrView::Loop(heap_sub_loop())]);
    let mut then_: Vec<Instr> = Vec::new();
    push_instr(&mut then_, Instr::Unreachable);
    let mut else_: Vec<Instr> = Vec::new();
    push_instr(&mut else_, Instr::LocalGet(2));

    let mut body: Vec<Instr> = Vec::new();
    push_instr(&mut body, Instr::I64Const(0));
    push_instr(&mut body, Instr::LocalSet(5));
    push_instr(&mut body, Instr::I32Const(0));
    push_instr(&mut body, Instr::LocalSet(4));
    push_instr(&mut body, Instr::Block(block));
    // Trap when there is a borrow out of the last part
    push_instr(&mut body, Instr::LocalGet(5));
    push_instr(&mut body, Instr::I64Const(1));
    push_instr(&mut body, Instr::Binop(BinaryOp::I64Eq));
    push_instr(&mut body, Instr::IfElse(Some(ValType::I32), then_, else_));
    let r = FunctionBody {
        name: String::from_str(RuntimeFunction::HeapIntSub.name()),
        params: vec![ValType::I32, ValType::I32, ValType::I32, ValType::I32],
        results: vec![ValType::I32],
        locals: vec![ValType::I32, ValType::I64, ValType::I64, ValType::I64, ValType::I64, ValType::I64],
        body,
    };
    proof {
        let code = heap_integers_sub_code();
        assert(r@.params =~= code.params);
        assert(r@.results =~= code.results);
        assert(r@.locals =~= code.locals);
        assert(r@.name == code.name);
        assert(r@.body =~= code.body);
        lemma_heap_integers_sub_calls(r@);
    }
    r
}

} // verus!

verus! {

/// The instructions of the function `sub_u32`.
pub open spec fn sub_u32_code() -> FunctionView {
    FunctionView {
        name: runtime_function_name(RuntimeFunction::SubU32),
        params: seq![ValType::I32, ValType::I32],
        results: seq![ValType::I32],
        locals: seq![],
        body: seq![
            InstrView::LocalGet(0),
            InstrView::LocalGet(1),
            InstrView::Binop(BinaryOp::I32LtU),
            InstrView::IfElse(
                Some(ValType::I32),
                seq![InstrView::Unreachable],
                seq![InstrView::LocalGet(0), InstrView::LocalGet(1), InstrView::Binop(BinaryOp::I32Sub)],
            ),
        ],
    }
}

/// `sub_u32` subtracts two `u32`, and traps when the second is larger than the first.
#[verifier::rlimit(30)]
pub proof fn law_sub_u32(env: Seq<FunctionView>, fuel: nat, mem: Seq<u8>, a: u32, b: u32)
    ensures
        invoke(env, fuel, sub_u32_code(), args2(Value::I32(a), Value::I32(b)), mem)
            == if a < b { Completion::Trapped } else { Completion::Returned(args1(Value::I32((a - b) as u32)), mem) },
{
    let f = sub_u32_code();
    let e = Seq::<Value>::empty();
    let va = Value::I32(a);
    let vb = Value::I32(b);
    let locals = e.push(va).push(vb);
    assert(args2(va, vb) + zeros(f.locals) =~= locals);
    let flag = Value::I32(if a < b { 1 } else { 0 });
    assert(run(env, fuel, f.body, 0, e, locals, mem) == run(env, fuel, f.body, 1, e.push(va), locals, mem));
    assert(run(env, fuel, f.body, 1, e.push(va), locals, mem) == run(env, fuel, f.body, 2, e.push(va).push(vb), locals, mem));
    assert(e.push(va).push(vb).drop_last().drop_last() =~= e);
    assert(run(env, fuel, f.body, 2, e.push(va).push(vb), locals, mem) == run(env, fuel, f.body, 3, e.push(flag), locals, mem));
    let else_ = seq![InstrView::LocalGet(0), InstrView::LocalGet(1), InstrView::Binop(BinaryOp::I32Sub)];
    if a < b {
        assert(run(env, fuel, seq![InstrView::Unreachable], 0, e, locals, mem) == Outcome::Trap);
    } else {
        lemma_wrap32_difference(a, b);
        let d = Value::I32((a - b) as u32);
        assert(run(env, fuel, else_, 0, e, locals, mem) == run(env, fuel, else_, 1, e.push(va), locals, mem));
        assert(run(env, fuel, else_, 1, e.push(va), locals, mem) == run(env, fuel, else_, 2, e.push(va).push(vb), locals, mem));
        assert(run(env, fuel, else_, 2, e.push(va).push(vb), locals, mem) == run(env, fuel, else_, 3, e.push(d), locals, mem));
        assert(run(env, fuel, else_, 3, e.push(d), locals, mem) == Outcome::Done(e.push(d), locals, mem));
        assert(e.push(flag).drop_last() + e.push(d) =~= e.push(d));
        assert(run(env, fuel, f.body, 3, e.push(flag), locals, mem) == run(env, fuel, f.body, 4, e.push(d), locals, mem));
    }
}
/// Builds the function that subtracts two `u32` and traps when the result would be negative.
#[verifier::rlimit(30)]
pub fn sub_u32() -> (r: FunctionBody)
    ensures
        r@ == sub_u32_code(),
        forall|env: Seq<FunctionView>, fuel: nat, mem: Seq<u8>, a: u32, b: u32| #[trigger] invoke(env, fuel, r@, args2(Value::I32(a), Value::I32(b)), mem)
            == if a < b { Completion::Trapped } else { Completion::Returned(args1(Value::I32((a - b) as u32)), mem) },
{
    let mut else_: Vec<Instr> = Vec::new();
    push_instr(&mut else_, Instr::LocalGet(0));
    push_instr(&mut else_, Instr::LocalGet(1));
    push_instr(&mut else_, Instr::Binop(BinaryOp::I32Sub));
    assert(instrs_view(else_@) =~= seq![InstrView::LocalGet(0), InstrView::LocalGet(1), InstrView::Binop(BinaryOp::I32Sub)]);
    let mut body: Vec<Instr> = Vec::new();
    push_instr(&mut body, Instr::LocalGet(0));
    push_instr(&mut body, Instr::LocalGet(1));
    push_instr(&mut body, Instr::Binop(BinaryOp::I32LtU));
    push_instr(&mut body, trap_if(ValType::I32, else_));
    let r = FunctionBody {
        name: String::from_str(RuntimeFunction::SubU32.name()),
        params: vec![ValType::I32, ValType::I32],
        results: vec![ValType::I32],
        locals: Vec::new(),
        body,
    };
    proof {
        assert(r@.params =~= sub_u32_code().params);
        assert(r@.results =~= sub_u32_code().results);
        assert(r@.locals =~= sub_u32_code().locals);
        assert(r@.name == sub_u32_code().name);
        assert(r@.body =~= sub_u32_code().body);
        assert forall|env: Seq<FunctionView>, fuel: nat, mem: Seq<u8>, a: u32, b: u32| #[trigger] invoke(env, fuel, r@, args2(Value::I32(a), Value::I32(b)), mem)
            == if a < b { Completion::Trapped } else { Completion::Returned(args1(Value::I32((a - b) as u32)), mem) } by {
            law_sub_u32(env, fuel, mem, a, b);
        }
    }
    r
}

/// The instructions of the function `sub_u64`.
pub open spec fn sub_u64_code() -> FunctionView {
    FunctionView {
        name: runtime_function_name(RuntimeFunction::SubU64),
        params: seq![ValType::I64, ValType::I64],
        results: seq![ValType::I64],
        locals: seq![],
        body: seq![
            InstrView::LocalGet(0),
            InstrView::LocalGet(1),
            InstrView::Binop(BinaryOp::I64LtU),
            InstrView::IfElse(
                Some(ValType::I64),
                seq![InstrView::Unreachable],
                seq![InstrView::LocalGet(0), InstrView::LocalGet(1), InstrView::Binop(BinaryOp::I64Sub)],
            ),
        ],
    }
}

/// `sub_u64` subtracts two `u64`, and traps when the second is larger than the first.
#[verifier::rlimit(30)]
pub proof fn law_sub_u64(env: Seq<FunctionView>, fuel: nat, mem: Seq<u8>, a: u64, b: u64)
    ensures
        invoke(env, fuel, sub_u64_code(), args2(Value::I64(a), Value::I64(b)), mem)
            == if a < b { Completion::Trapped } else { Completion::Returned(args1(Value::I64((a - b) as u64)), mem) },
{
    let f = sub_u64_code();
    let e = Seq::<Value>::empty();
    let va = Value::I64(a);
    let vb = Value::I64(b);
    let locals = e.push(va).push(vb);
    assert(args2(va, vb) + zeros(f.locals) =~= locals);
    let flag = Value::I32(if a < b { 1 } else { 0 });
    assert(run(env, fuel, f.body, 0, e, locals, mem) == run(env, fuel, f.body, 1, e.push(va), locals, mem));
    assert(run(env, fuel, f.body, 1, e.push(va), locals, mem) == run(env, fuel, f.body, 2, e.push(va).push(vb), locals, mem));
    assert(e.push(va).push(vb).drop_last().drop_last() =~= e);
    assert(run(env, fuel, f.body, 2, e.push(va).push(vb), locals, mem) == run(env, fuel, f.body, 3, e.push(flag), locals, mem));
    let else_ = seq![InstrView::LocalGet(0), InstrView::LocalGet(1), InstrView::Binop(BinaryOp::I64Sub)];
    if a < b {
        assert(run(env, fuel, seq![InstrView::Unreachable], 0, e, locals, mem) == Outcome::Trap);
    } else {
        lemma_wrap64_difference(a, b);
        let d = Value::I64((a - b) as u64);
        assert(run(env, fuel, else_, 0, e, locals, mem) == run(env, fuel, else_, 1, e.push(va), locals, mem));
        assert(run(env, fuel, else_, 1, e.push(va), locals, mem) == run(env, fuel, else_, 2, e.push(va).push(vb), locals, mem));
        assert(run(env, fuel, else_, 2, e.push(va).push(vb), locals, mem) == run(env, fuel, else_, 3, e.push(d), locals, mem));
        assert(run(env, fuel, else_, 3, e.push(d), locals, mem) == Outcome::Done(e.push(d), locals, mem));
        assert(e.push(flag).drop_last() + e.push(d) =~= e.push(d));
        assert(run(env, fuel, f.body, 3, e.push(flag), locals, mem) == run(env, fuel, f.body, 4, e.push(d), locals, mem));
    }
}

/// Builds the function that subtracts two `u64` and traps when the result would be negative.
#[verifier::rlimit(30)]
pub fn sub_u64() -> (r: FunctionBody)
    ensures
        r@ == sub_u64_code(),
        forall|env: Seq<FunctionView>, fuel: nat, mem: Seq<u8>, a: u64, b: u64| #[trigger] invoke(env, fuel, r@, args2(Value::I64(a), Value::I64(b)), mem)
            == if a < b { Completion::Trapped } else { Completion::Returned(args1(Value::I64((a - b) as u64)), mem) },
{
    let mut else_: Vec<Instr> = Vec::new();
    push_instr(&mut else_, Instr::LocalGet(0));
    push_instr(&mut else_, Instr::LocalGet(1));
    push_instr(&mut else_, Instr::Binop(BinaryOp::I64Sub));
    assert(instrs_view(else_@) =~= seq![InstrView::LocalGet(0), InstrView::LocalGet(1), InstrView::Binop(BinaryOp::I64Sub)]);
    let mut body: Vec<Instr> = Vec::new();
    push_instr(&mut body, Instr::LocalGet(0));
    push_instr(&mut body, Instr::LocalGet(1));
    push_instr(&mut body, Instr::Binop(BinaryOp::I64LtU));
    push_instr(&mut body, trap_if(ValType::I64, else_));
    let r = FunctionBody {
        name: String::from_str(RuntimeFunction::SubU64.name()),
        params: vec![ValType::I64, ValType::I64],
        results: vec![ValType::I64],
        locals: Vec::new(),
        body,
    };
    proof {
        assert(r@.params =~= sub_u64_code().params);
        assert(r@.results =~= sub_u64_code().results);
        assert(r@.locals =~= sub_u64_code().locals);
        assert(r@.name == sub_u64_code().name);
        assert(r@.body =~= sub_u64_code().body);
        assert forall|env: Seq<FunctionView>, fuel: nat, mem: Seq<u8>, a: u64, b: u64| #[trigger] invoke(env, fuel, r@, args2(Value::I64(a), Value::I64(b)), mem)
            == if a < b { Completion::Trapped } else { Completion::Returned(args1(Value::I64((a - b) as u64)), mem) } by {
            law_sub_u64(env, fuel, mem, a, b);
        }
    }
    r
}

} // verus!
