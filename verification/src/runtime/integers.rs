//! Runtime functions on integers: checked downcasts, the overflow check of `u8` and `u16`
//! values, and the comparison of integers kept in memory; additions and subtractions are in the
//! submodules.
use vstd::prelude::*;

pub mod add;
pub mod sub;

use crate::runtime::{RuntimeFunction, runtime_function_name};
use crate::wasm::{
    BinaryOp, Completion, FunctionBody, FunctionView, Instr, InstrView, Outcome, UnaryOp, ValType, Value,
    args1, args2, args3, byte_width, lemma_le_value_compare, decode, instrs_view, le_value, invoke, lemma_le_value_fits, lemma_le_value_zero, push_instr, run, wrap32, wrap64,
    zero, zeros,
};

verus! {

/// `x | y` of two flags (0 or 1) is zero exactly when both are.
pub(crate) proof fn lemma_flags_or(x: u32, y: u32)
    by (bit_vector)
    requires
        x <= 1,
        y <= 1,
    ensures
        ((x | y) == 0) == (x == 0 && y == 0),
        (x | y) <= 1,
{
}

/// A sum of two `u32` modulo 2^32.
pub(crate) proof fn lemma_wrap32_sum(a: u32, b: u32)
    ensures
        wrap32(a + b) == if a + b <= u32::MAX { a + b } else { a + b - 0x1_0000_0000 },
{
}

/// A sum of two `u64` modulo 2^64.
pub(crate) proof fn lemma_wrap64_sum(a: u64, b: u64)
    ensures
        wrap64(a + b) == if a + b <= u64::MAX { a + b } else { a + b - 0x1_0000_0000_0000_0000 },
{
}

/// A difference of two `u32`, when it is not negative, is its own value modulo 2^32.
pub(crate) proof fn lemma_wrap32_difference(a: u32, b: u32)
    requires
        a >= b,
    ensures
        wrap32(a - b) == a - b,
{
}

/// A difference of two `u64`, when it is not negative, is its own value modulo 2^64.
pub(crate) proof fn lemma_wrap64_difference(a: u64, b: u64)
    requires
        a >= b,
    ensures
        wrap64(a - b) == a - b,
{
}

/// A number below 2^32 is its own value modulo 2^32.
proof fn lemma_wrap32_small(n: u64)
    requires
        n <= u32::MAX,
    ensures
        wrap32(n as int) == n,
{
}

} // verus!

verus! {

/// The function that checks that a number fits a smaller unsigned type.
pub open spec fn check_overflow_u8_u16_code() -> FunctionView {
    FunctionView {
        name: runtime_function_name(RuntimeFunction::CheckOverflowU8U16),
        params: seq![ValType::I32, ValType::I32],
        results: seq![ValType::I32],
        locals: seq![],
        body: seq![
            InstrView::LocalGet(0),
            InstrView::LocalGet(1),
            InstrView::Binop(BinaryOp::I32GtU),
            InstrView::IfElse(Some(ValType::I32), seq![InstrView::Unreachable], seq![InstrView::LocalGet(0)]),
        ],
    }
}

/// `check_overflow_u8_u16` returns the number when it is at most the given largest value,
/// and traps otherwise.
#[verifier::rlimit(30)]
pub proof fn law_check_overflow_u8_u16(env: Seq<FunctionView>, fuel: nat, mem: Seq<u8>, n: u32, max: u32)
    ensures
        invoke(env, fuel, check_overflow_u8_u16_code(), args2(Value::I32(n), Value::I32(max)), mem)
            == if n > max { Completion::Trapped } else { Completion::Returned(args1(Value::I32(n)), mem) },
{
    let f = check_overflow_u8_u16_code();
    let e = Seq::<Value>::empty();
    let vn = Value::I32(n);
    let vm = Value::I32(max);
    let locals = e.push(vn).push(vm);
    assert(args2(vn, vm) + zeros(f.locals) =~= locals);
    let c = Value::I32(if n > max { 1 } else { 0 });
    assert(run(env, fuel, f.body, 0, e, locals, mem) == run(env, fuel, f.body, 1, e.push(vn), locals, mem));
    assert(run(env, fuel, f.body, 1, e.push(vn), locals, mem) == run(env, fuel, f.body, 2, e.push(vn).push(vm), locals, mem));
    assert(e.push(vn).push(vm).drop_last().drop_last() =~= e);
    assert(run(env, fuel, f.body, 2, e.push(vn).push(vm), locals, mem) == run(env, fuel, f.body, 3, e.push(c), locals, mem));
    if n > max {
        assert(run(env, fuel, seq![InstrView::Unreachable], 0, e, locals, mem) == Outcome::Trap);
    } else {
        let else_ = seq![InstrView::LocalGet(0)];
        assert(run(env, fuel, else_, 0, e, locals, mem) == run(env, fuel, else_, 1, e.push(vn), locals, mem));
        assert(e.push(c).drop_last() + e.push(vn) =~= e.push(vn));
        assert(run(env, fuel, f.body, 3, e.push(c), locals, mem) == run(env, fuel, f.body, 4, e.push(vn), locals, mem));
    }
}

/// Builds the function that checks that a number fits a smaller unsigned type: it takes the
/// number and the largest value of the type, traps when the number is larger, and otherwise
/// returns it.
#[verifier::rlimit(30)]
pub fn check_overflow_u8_u16() -> (r: FunctionBody)
    ensures
        r@ == check_overflow_u8_u16_code(),
        forall|env: Seq<FunctionView>, fuel: nat, mem: Seq<u8>, n: u32, max: u32| #[trigger] invoke(env, fuel, r@, args2(Value::I32(n), Value::I32(max)), mem)
            == if n > max { Completion::Trapped } else { Completion::Returned(args1(Value::I32(n)), mem) },
{
    let mut then_: Vec<Instr> = Vec::new();
    push_instr(&mut then_, Instr::Unreachable);
    let mut else_: Vec<Instr> = Vec::new();
    push_instr(&mut else_, Instr::LocalGet(0));
    let mut body: Vec<Instr> = Vec::new();
    push_instr(&mut body, Instr::LocalGet(0));
    push_instr(&mut body, Instr::LocalGet(1));
    push_instr(&mut body, Instr::Binop(BinaryOp::I32GtU));
    push_instr(&mut body, Instr::IfElse(Some(ValType::I32), then_, else_));
    let r = FunctionBody {
        name: String::from_str(RuntimeFunction::CheckOverflowU8U16.name()),
        params: vec![ValType::I32, ValType::I32],
        results: vec![ValType::I32],
        locals: Vec::new(),
        body,
    };
    proof {
        assert(r@.params =~= check_overflow_u8_u16_code().params);
        assert(r@.results =~= check_overflow_u8_u16_code().results);
        assert(r@.locals =~= check_overflow_u8_u16_code().locals);
        assert(r@.name == check_overflow_u8_u16_code().name);
        assert(r@.body =~= check_overflow_u8_u16_code().body);
        assert forall|env: Seq<FunctionView>, fuel: nat, mem: Seq<u8>, n: u32, max: u32| #[trigger] invoke(env, fuel, r@, args2(Value::I32(n), Value::I32(max)), mem)
            == if n > max { Completion::Trapped } else { Completion::Returned(args1(Value::I32(n)), mem) } by {
            law_check_overflow_u8_u16(env, fuel, mem, n, max);
        }
    }
    r
}

} // verus!

verus! {

/// An `if` that traps when the condition on the stack is nonzero, and otherwise runs
/// `otherwise`, which leaves a value of type `t`.
pub(crate) fn trap_if(t: ValType, otherwise: Vec<Instr>) -> (r: Instr)
    ensures
        r@ == InstrView::IfElse(Some(t), seq![InstrView::Unreachable], instrs_view(otherwise@)),
{
    let mut then_: Vec<Instr> = Vec::new();
    push_instr(&mut then_, Instr::Unreachable);
    Instr::IfElse(Some(t), then_, otherwise)
}

} // verus!

verus! {

/// The instructions of the function `downcast_u64_to_u32`.
pub open spec fn downcast_u64_to_u32_code() -> FunctionView {
    FunctionView {
        name: runtime_function_name(RuntimeFunction::DowncastU64ToU32),
        params: seq![ValType::I64],
        results: seq![ValType::I32],
        locals: seq![],
        body: seq![
            InstrView::LocalGet(0),
            InstrView::I64Const(0xFFFF_FFFF),
            InstrView::Binop(BinaryOp::I64GtU),
            InstrView::IfElse(
                Some(ValType::I32),
                seq![InstrView::Unreachable],
                seq![InstrView::LocalGet(0), InstrView::Unop(UnaryOp::I32WrapI64)],
            ),
        ],
    }
}

/// `downcast_u64_to_u32` returns a `u64` as a `u32` when it fits, and traps otherwise.
#[verifier::rlimit(30)]
pub proof fn law_downcast_u64_to_u32(env: Seq<FunctionView>, fuel: nat, mem: Seq<u8>, n: u64)
    ensures
        invoke(env, fuel, downcast_u64_to_u32_code(), args1(Value::I64(n)), mem)
            == if n > u32::MAX { Completion::Trapped } else { Completion::Returned(args1(Value::I32(n as u32)), mem) },
{
    let f = downcast_u64_to_u32_code();
    let e = Seq::<Value>::empty();
    let vn = Value::I64(n);
    let max = Value::I64(0xFFFF_FFFF);
    let locals = e.push(vn);
    assert(args1(vn) + zeros(f.locals) =~= locals);
    let c = Value::I32(if n > u32::MAX { 1 } else { 0 });
    assert(run(env, fuel, f.body, 0, e, locals, mem) == run(env, fuel, f.body, 1, e.push(vn), locals, mem));
    assert(run(env, fuel, f.body, 1, e.push(vn), locals, mem) == run(env, fuel, f.body, 2, e.push(vn).push(max), locals, mem));
    assert(e.push(vn).push(max).drop_last().drop_last() =~= e);
    assert(run(env, fuel, f.body, 2, e.push(vn).push(max), locals, mem) == run(env, fuel, f.body, 3, e.push(c), locals, mem));
    if n > u32::MAX {
        assert(run(env, fuel, seq![InstrView::Unreachable], 0, e, locals, mem) == Outcome::Trap);
    } else {
        lemma_wrap32_small(n);
        let w = Value::I32(n as u32);
        let else_ = seq![InstrView::LocalGet(0), InstrView::Unop(UnaryOp::I32WrapI64)];
        assert(run(env, fuel, else_, 0, e, locals, mem) == run(env, fuel, else_, 1, e.push(vn), locals, mem));
        assert(e.push(vn).drop_last() =~= e);
        assert(run(env, fuel, else_, 1, e.push(vn), locals, mem) == run(env, fuel, else_, 2, e.push(w), locals, mem));
        assert(e.push(c).drop_last() + e.push(w) =~= e.push(w));
        assert(run(env, fuel, f.body, 3, e.push(c), locals, mem) == run(env, fuel, f.body, 4, e.push(w), locals, mem));
    }
}

/// Builds the function that downcasts a `u64` to a `u32`, trapping when it does not fit.
#[verifier::rlimit(30)]
pub fn downcast_u64_to_u32() -> (r: FunctionBody)
    ensures
        r@ == downcast_u64_to_u32_code(),
        forall|env: Seq<FunctionView>, fuel: nat, mem: Seq<u8>, n: u64| #[trigger] invoke(env, fuel, r@, args1(Value::I64(n)), mem)
            == if n > u32::MAX { Completion::Trapped } else { Completion::Returned(args1(Value::I32(n as u32)), mem) },
{
    let mut else_: Vec<Instr> = Vec::new();
    push_instr(&mut else_, Instr::LocalGet(0));
    push_instr(&mut else_, Instr::Unop(UnaryOp::I32WrapI64));
    assert(instrs_view(else_@) =~= seq![InstrView::LocalGet(0), InstrView::Unop(UnaryOp::I32WrapI64)]);
    let mut body: Vec<Instr> = Vec::new();
    push_instr(&mut body, Instr::LocalGet(0));
    push_instr(&mut body, Instr::I64Const(0xFFFF_FFFF));
    push_instr(&mut body, Instr::Binop(BinaryOp::I64GtU));
    push_instr(&mut body, trap_if(ValType::I32, else_));
    let r = FunctionBody {
        name: String::from_str(RuntimeFunction::DowncastU64ToU32.name()),
        params: vec![ValType::I64],
        results: vec![ValType::I32],
        locals: Vec::new(),
        body,
    };
    proof {
        assert(r@.params =~= downcast_u64_to_u32_code().params);
        assert(r@.results =~= downcast_u64_to_u32_code().results);
        assert(r@.locals =~= downcast_u64_to_u32_code().locals);
        assert(r@.name == downcast_u64_to_u32_code().name);
        assert(r@.body =~= downcast_u64_to_u32_code().body);
        assert forall|env: Seq<FunctionView>, fuel: nat, mem: Seq<u8>, n: u64| #[trigger] invoke(env, fuel, r@, args1(Value::I64(n)), mem)
            == if n > u32::MAX { Completion::Trapped } else { Completion::Returned(args1(Value::I32(n as u32)), mem) } by {
            law_downcast_u64_to_u32(env, fuel, mem, n);
        }
    }
    r
}

} // verus!

verus! {

/// Whether the bytes of `mem` from `from` (included) to `to` (excluded) are all zero.
pub open spec fn zero_between(mem: Seq<u8>, from: int, to: int) -> bool {
    forall|j: int| from <= j < to ==> mem[j] == 0
}

/// The locals of the downcast of a number in memory: its address, its size and the offset of
/// the part being checked.
pub open spec fn downcast_locals(ptr: u32, size: u32, offset: u32) -> Seq<Value> {
    Seq::empty().push(Value::I32(ptr)).push(Value::I32(size)).push(Value::I32(offset))
}

/// The constant zero of type `t`.
pub open spec fn zero_const(t: ValType) -> InstrView {
    match t {
        ValType::I32 => InstrView::I32Const(0),
        ValType::I64 => InstrView::I64Const(0),
    }
}

/// The equality of type `t`.
pub open spec fn eq_op(t: ValType) -> BinaryOp {
    match t {
        ValType::I32 => BinaryOp::I32Eq,
        ValType::I64 => BinaryOp::I64Eq,
    }
}

/// After a zero part: leave the block when it was the last part, else go to the next part.
pub open spec fn heap_downcast_then(t: ValType) -> Seq<InstrView> {
    let w = byte_width(t) as u32;
    seq![
        InstrView::LocalGet(1),
        InstrView::I32Const(w),
        InstrView::Binop(BinaryOp::I32Sub),
        InstrView::LocalGet(2),
        InstrView::Binop(BinaryOp::I32Eq),
        InstrView::BrIf(2),
        InstrView::I32Const(w),
        InstrView::LocalGet(2),
        InstrView::Binop(BinaryOp::I32Add),
        InstrView::LocalSet(2),
        InstrView::Br(1),
    ]
}

/// Checks the part at the current offset: trap unless it is zero.
pub open spec fn heap_downcast_loop(t: ValType) -> Seq<InstrView> {
    seq![
        InstrView::LocalGet(0),
        InstrView::LocalGet(2),
        InstrView::Binop(BinaryOp::I32Add),
        InstrView::Load(t, 0),
        zero_const(t),
        InstrView::Binop(eq_op(t)),
        InstrView::IfElse(None, heap_downcast_then(t), seq![InstrView::Unreachable]),
    ]
}

/// Checks that every part of the number after the first is zero.
pub open spec fn heap_downcast_block(t: ValType) -> Seq<InstrView> {
    seq![
        InstrView::I32Const(byte_width(t) as u32),
        InstrView::LocalSet(2),
        InstrView::Loop(heap_downcast_loop(t)),
    ]
}

/// The function that downcasts a `u128` or `u256` in memory to a value of type `t`.
pub open spec fn heap_downcast_code(f: RuntimeFunction, t: ValType) -> FunctionView {
    FunctionView {
        name: runtime_function_name(f),
        params: seq![ValType::I32, ValType::I32],
        results: seq![t],
        locals: seq![ValType::I32],
        body: seq![InstrView::LocalGet(0), InstrView::Load(t, 0), InstrView::Block(heap_downcast_block(t))],
    }
}

/// A sum of addresses that does not pass 2^32 does not wrap.
proof fn lemma_wrap32_no_overflow(a: u32, b: u32)
    requires
        a + b <= u32::MAX,
    ensures
        wrap32(a + b) == a + b,
{
}

/// The bytes `[a, a + w)` of `mem` are zero exactly when the value of type `t` stored there is.
proof fn lemma_part_is_zero(t: ValType, mem: Seq<u8>, a: int)
    requires
        0 <= a,
        a + byte_width(t) <= mem.len(),
    ensures
        (decode(t, mem.subrange(a, a + byte_width(t))) == zero(t)) == zero_between(mem, a, a + byte_width(t)),
{
    let bytes = mem.subrange(a, a + byte_width(t));
    lemma_le_value_zero(bytes);
    lemma_le_value_fits(bytes);
    assert forall|j: int| 0 <= j < bytes.len() implies bytes[j] == mem[a + j] by {}
    if zero_between(mem, a, a + byte_width(t)) {
        assert forall|j: int| 0 <= j < bytes.len() implies bytes[j] == 0 by {
            assert(mem[a + j] == 0);
        }
    }
    if forall|j: int| 0 <= j < bytes.len() ==> bytes[j] == 0 {
        assert forall|j: int| a <= j < a + byte_width(t) implies mem[j] == 0 by {
            assert(bytes[j - a] == 0);
        }
    }
}

/// After a zero part at `offset`: the block is left when it is the last part, and otherwise the
/// loop goes on with the next part.
#[verifier::rlimit(80)]
proof fn lemma_heap_downcast_then(env: Seq<FunctionView>, fuel: nat, mem: Seq<u8>, t: ValType, ptr: u32, size: u32, offset: u32)
    requires
        offset + byte_width(t) <= size,
    ensures
        run(env, fuel, heap_downcast_then(t), 0, Seq::empty(), downcast_locals(ptr, size, offset), mem)
            == if offset + byte_width(t) == size {
                Outcome::Break(2, downcast_locals(ptr, size, offset), mem)
            } else {
                Outcome::Break(1, downcast_locals(ptr, size, (offset + byte_width(t)) as u32), mem)
            },
{
    let w = byte_width(t) as u32;
    let e = Seq::<Value>::empty();
    let l = downcast_locals(ptr, size, offset);
    let tb = heap_downcast_then(t);
    let d = Value::I32((size - w) as u32);
    let last = offset == size - w;
    let c2 = Value::I32(if last { 1 } else { 0 });
    assert(run(env, fuel, tb, 0, e, l, mem) == run(env, fuel, tb, 1, e.push(Value::I32(size)), l, mem));
    assert(run(env, fuel, tb, 1, e.push(Value::I32(size)), l, mem)
        == run(env, fuel, tb, 2, e.push(Value::I32(size)).push(Value::I32(w)), l, mem));
    assert(e.push(Value::I32(size)).push(Value::I32(w)).drop_last().drop_last() =~= e);
    assert(run(env, fuel, tb, 2, e.push(Value::I32(size)).push(Value::I32(w)), l, mem)
        == run(env, fuel, tb, 3, e.push(d), l, mem));
    assert(run(env, fuel, tb, 3, e.push(d), l, mem) == run(env, fuel, tb, 4, e.push(d).push(Value::I32(offset)), l, mem));
    assert(e.push(d).push(Value::I32(offset)).drop_last().drop_last() =~= e);
    assert(run(env, fuel, tb, 4, e.push(d).push(Value::I32(offset)), l, mem) == run(env, fuel, tb, 5, e.push(c2), l, mem));
    if !last {
        let next = (offset + w) as u32;
        let l2 = downcast_locals(ptr, size, next);
        assert(e.push(c2).drop_last() =~= e);
        assert(run(env, fuel, tb, 5, e.push(c2), l, mem) == run(env, fuel, tb, 6, e, l, mem));
        assert(run(env, fuel, tb, 6, e, l, mem) == run(env, fuel, tb, 7, e.push(Value::I32(w)), l, mem));
        assert(run(env, fuel, tb, 7, e.push(Value::I32(w)), l, mem)
            == run(env, fuel, tb, 8, e.push(Value::I32(w)).push(Value::I32(offset)), l, mem));
        assert(e.push(Value::I32(w)).push(Value::I32(offset)).drop_last().drop_last() =~= e);
        assert(run(env, fuel, tb, 8, e.push(Value::I32(w)).push(Value::I32(offset)), l, mem)
            == run(env, fuel, tb, 9, e.push(Value::I32(next)), l, mem));
        assert(e.push(Value::I32(next)).drop_last() =~= e);
        assert(l.update(2, Value::I32(next)) =~= l2);
        assert(run(env, fuel, tb, 9, e.push(Value::I32(next)), l, mem) == run(env, fuel, tb, 10, e, l2, mem));
    }
}

/// One pass of the loop, at the part at `offset`: trap unless the part is zero, and otherwise
/// leave the block after the last part or go on to the next.
#[verifier::rlimit(30)]
proof fn lemma_heap_downcast_pass(env: Seq<FunctionView>, fuel: nat, mem: Seq<u8>, t: ValType, ptr: u32, size: u32, offset: u32)
    requires
        offset + byte_width(t) <= size,
        ptr + size <= mem.len(),
        ptr + size <= u32::MAX,
    ensures
        run(env, fuel, heap_downcast_loop(t), 0, Seq::empty(), downcast_locals(ptr, size, offset), mem)
            == if !zero_between(mem, ptr + offset, ptr + offset + byte_width(t)) {
                Outcome::Trap
            } else if offset + byte_width(t) == size {
                Outcome::Break(1, downcast_locals(ptr, size, offset), mem)
            } else {
                Outcome::Break(0, downcast_locals(ptr, size, (offset + byte_width(t)) as u32), mem)
            },
{
    let e = Seq::<Value>::empty();
    let l = downcast_locals(ptr, size, offset);
    let lb = heap_downcast_loop(t);
    let a = (ptr + offset) as u32;
    lemma_wrap32_no_overflow(ptr, offset);
    let v = decode(t, mem.subrange(a as int, a + byte_width(t)));
    lemma_part_is_zero(t, mem, a as int);
    let part_zero = zero_between(mem, a as int, a + byte_width(t));
    let c = Value::I32(if part_zero { 1 } else { 0 });
    assert(run(env, fuel, lb, 0, e, l, mem) == run(env, fuel, lb, 1, e.push(Value::I32(ptr)), l, mem));
    assert(run(env, fuel, lb, 1, e.push(Value::I32(ptr)), l, mem)
        == run(env, fuel, lb, 2, e.push(Value::I32(ptr)).push(Value::I32(offset)), l, mem));
    assert(e.push(Value::I32(ptr)).push(Value::I32(offset)).drop_last().drop_last() =~= e);
    assert(run(env, fuel, lb, 2, e.push(Value::I32(ptr)).push(Value::I32(offset)), l, mem)
        == run(env, fuel, lb, 3, e.push(Value::I32(a)), l, mem));
    assert(e.push(Value::I32(a)).drop_last() =~= e);
    assert(run(env, fuel, lb, 3, e.push(Value::I32(a)), l, mem) == run(env, fuel, lb, 4, e.push(v), l, mem));
    assert(run(env, fuel, lb, 4, e.push(v), l, mem) == run(env, fuel, lb, 5, e.push(v).push(zero(t)), l, mem)) by {
        if t == ValType::I32 {} else {}
    }
    assert(e.push(v).push(zero(t)).drop_last().drop_last() =~= e);
    assert(run(env, fuel, lb, 5, e.push(v).push(zero(t)), l, mem) == run(env, fuel, lb, 6, e.push(c), l, mem)) by {
        if t == ValType::I32 {} else {}
    }
    assert(e.push(c).drop_last() =~= e);
    if part_zero {
        lemma_heap_downcast_then(env, fuel, mem, t, ptr, size, offset);
    } else {
        assert(run(env, fuel, seq![InstrView::Unreachable], 0, e, l, mem) == Outcome::Trap);
    }
}

/// The next multiple of `w` after `o`, when `o` and `s` are multiples and `o + w` is below `s`,
/// is a multiple, and the one after it is still at most `s`.
proof fn lemma_next_multiple(o: int, s: int, w: int)
    requires
        w > 0,
        o >= 0,
        o % w == 0,
        s % w == 0,
        o + w < s,
    ensures
        (o + w) % w == 0,
        o + 2 * w <= s,
{
    let q = o / w;
    let p = s / w;
    assert(o == w * q) by (nonlinear_arith)
        requires
            o % w == 0,
            w > 0,
            q == o / w,
    ;
    assert(s == w * p) by (nonlinear_arith)
        requires
            s % w == 0,
            w > 0,
            p == s / w,
    ;
    assert((o + w) % w == 0) by (nonlinear_arith)
        requires
            o == w * q,
            w > 0,
    ;
    assert(q + 1 < p) by (nonlinear_arith)
        requires
            o == w * q,
            s == w * p,
            o + w < s,
            w > 0,
    ;
    assert(o + 2 * w <= s) by (nonlinear_arith)
        requires
            o == w * q,
            s == w * p,
            q + 2 <= p,
            w > 0,
    ;
}

/// Running the checks from the part at `offset` on: the block is left once every remaining
/// part is zero, and the function traps at the first part that is not.
proof fn lemma_heap_downcast_loop(env: Seq<FunctionView>, fuel: nat, mem: Seq<u8>, t: ValType, ptr: u32, size: u32, offset: u32)
    requires
        size % (byte_width(t) as u32) == 0,
        offset % (byte_width(t) as u32) == 0,
        offset + byte_width(t) <= size,
        ptr + size <= mem.len(),
        ptr + size <= u32::MAX,
        fuel * byte_width(t) + offset >= size,
    ensures
        run(env, fuel, heap_downcast_block(t), 2, Seq::empty(), downcast_locals(ptr, size, offset), mem)
            == if zero_between(mem, ptr + offset, ptr + size) {
                Outcome::Break(0, downcast_locals(ptr, size, (size - byte_width(t)) as u32), mem)
            } else {
                Outcome::Trap
            },
    decreases size - offset,
{
    let w = byte_width(t) as u32;
    lemma_heap_downcast_pass(env, fuel, mem, t, ptr, size, offset);
    let part_zero = zero_between(mem, ptr + offset, ptr + offset + byte_width(t));
    if part_zero && offset + byte_width(t) != size {
        let next = (offset + w) as u32;
        assert(fuel > 0) by {
            if t == ValType::I32 {} else {}
        }
        assert((fuel - 1) * byte_width(t) + next >= size) by (nonlinear_arith)
            requires
                fuel * byte_width(t) + offset >= size,
                next == offset + byte_width(t),
                fuel > 0,
        ;
        lemma_next_multiple(offset as int, size as int, w as int);
        lemma_heap_downcast_loop(env, (fuel - 1) as nat, mem, t, ptr, size, next);
    }
}

/// The downcast of a number in memory returns its low part when every other part is zero, and
/// traps otherwise.
#[verifier::rlimit(30)]
proof fn lemma_heap_downcast(env: Seq<FunctionView>, fuel: nat, mem: Seq<u8>, f: RuntimeFunction, t: ValType, ptr: u32, size: u32)
    requires
        size % (byte_width(t) as u32) == 0,
        size >= 2 * byte_width(t),
        ptr + size <= mem.len(),
        ptr + size <= u32::MAX,
        fuel * byte_width(t) >= size,
    ensures
        invoke(env, fuel, heap_downcast_code(f, t), args2(Value::I32(ptr), Value::I32(size)), mem)
            == if zero_between(mem, ptr + byte_width(t), ptr + size) {
                Completion::Returned(Seq::empty().push(decode(t, mem.subrange(ptr as int, ptr + byte_width(t)))), mem)
            } else {
                Completion::Trapped
            },
{
    let code = heap_downcast_code(f, t);
    let w = byte_width(t) as u32;
    let e = Seq::<Value>::empty();
    let l0 = downcast_locals(ptr, size, 0);
    let l1 = downcast_locals(ptr, size, w);
    assert(args2(Value::I32(ptr), Value::I32(size)) + zeros(code.locals) =~= l0);
    let low = decode(t, mem.subrange(ptr as int, ptr + byte_width(t)));
    let block = heap_downcast_block(t);
    assert(run(env, fuel, code.body, 0, e, l0, mem) == run(env, fuel, code.body, 1, e.push(Value::I32(ptr)), l0, mem));
    assert(e.push(Value::I32(ptr)).drop_last() =~= e);
    assert(run(env, fuel, code.body, 1, e.push(Value::I32(ptr)), l0, mem) == run(env, fuel, code.body, 2, e.push(low), l0, mem));
    assert(run(env, fuel, block, 0, e, l0, mem) == run(env, fuel, block, 1, e.push(Value::I32(w)), l0, mem));
    assert(e.push(Value::I32(w)).drop_last() =~= e);
    assert(l0.update(2, Value::I32(w)) =~= l1);
    assert(run(env, fuel, block, 1, e.push(Value::I32(w)), l0, mem) == run(env, fuel, block, 2, e, l1, mem));
    assert(w % w == 0 && size % w == 0) by {
        if t == ValType::I32 {} else {}
    }
    assert(fuel * byte_width(t) + w >= size) by (nonlinear_arith)
        requires
            fuel * byte_width(t) >= size,
    ;
    lemma_heap_downcast_loop(env, fuel, mem, t, ptr, size, w);
    if zero_between(mem, ptr + w, ptr + size) {
        let lf = downcast_locals(ptr, size, (size - w) as u32);
        assert(e.push(low) + e =~= e.push(low));
        assert(run(env, fuel, code.body, 2, e.push(low), l0, mem) == run(env, fuel, code.body, 3, e.push(low), lf, mem));
    }
}

} // verus!

verus! {

/// `downcast_u128_u256_to_u32` returns the low 32 bits of the number of `size` bytes at `ptr`
/// when every other byte of it is zero, and traps otherwise.
pub proof fn law_downcast_u128_u256_to_u32(env: Seq<FunctionView>, fuel: nat, mem: Seq<u8>, ptr: u32, size: u32)
    requires
        size % 4 == 0,
        size >= 8,
        ptr + size <= mem.len(),
        ptr + size <= u32::MAX,
        fuel * 4 >= size,
    ensures
        invoke(env, fuel, heap_downcast_code(RuntimeFunction::DowncastU128U256ToU32, ValType::I32), args2(Value::I32(ptr), Value::I32(size)), mem)
            == if zero_between(mem, ptr + 4, ptr + size) {
                Completion::Returned(args1(Value::I32(le_value(mem.subrange(ptr as int, ptr + 4)) as u32)), mem)
            } else {
                Completion::Trapped
            },
{
    lemma_heap_downcast(env, fuel, mem, RuntimeFunction::DowncastU128U256ToU32, ValType::I32, ptr, size);
}

/// `downcast_u128_u256_to_u64` returns the low 64 bits of the number of `size` bytes at `ptr`
/// when every other byte of it is zero, and traps otherwise.
pub proof fn law_downcast_u128_u256_to_u64(env: Seq<FunctionView>, fuel: nat, mem: Seq<u8>, ptr: u32, size: u32)
    requires
        size % 8 == 0,
        size >= 16,
        ptr + size <= mem.len(),
        ptr + size <= u32::MAX,
        fuel * 8 >= size,
    ensures
        invoke(env, fuel, heap_downcast_code(RuntimeFunction::DowncastU128U256ToU64, ValType::I64), args2(Value::I32(ptr), Value::I32(size)), mem)
            == if zero_between(mem, ptr + 8, ptr + size) {
                Completion::Returned(args1(Value::I64(le_value(mem.subrange(ptr as int, ptr + 8)) as u64)), mem)
            } else {
                Completion::Trapped
            },
{
    lemma_heap_downcast(env, fuel, mem, RuntimeFunction::DowncastU128U256ToU64, ValType::I64, ptr, size);
}

/// Builds the function that downcasts a `u128` or `u256` in memory to a value of type `t`: it
/// loads the low part, and traps unless every other part is zero.
#[verifier::rlimit(30)]
fn heap_downcast_function(f: RuntimeFunction, t: ValType) -> (r: FunctionBody)
    ensures
        r@ == heap_downcast_code(f, t),
{
    let w: u32 = match t {
        ValType::I32 => 4,
        ValType::I64 => 8,
    };
    let zero_instr = match t {
        ValType::I32 => Instr::I32Const(0),
        ValType::I64 => Instr::I64Const(0),
    };
    let eq = match t {
        ValType::I32 => BinaryOp::I32Eq,
        ValType::I64 => BinaryOp::I64Eq,
    };
    assert(zero_instr@ == zero_const(t) && eq == eq_op(t) && w == byte_width(t));

    // After a zero part: leave when it was the last one, else go on with the next one
    let mut then_: Vec<Instr> = Vec::new();
    push_instr(&mut then_, Instr::LocalGet(1));
    push_instr(&mut then_, Instr::I32Const(w));
    push_instr(&mut then_, Instr::Binop(BinaryOp::I32Sub));
    push_instr(&mut then_, Instr::LocalGet(2));
    push_instr(&mut then_, Instr::Binop(BinaryOp::I32Eq));
    push_instr(&mut then_, Instr::BrIf(2));
    push_instr(&mut then_, Instr::I32Const(w));
    push_instr(&mut then_, Instr::LocalGet(2));
    push_instr(&mut then_, Instr::Binop(BinaryOp::I32Add));
    push_instr(&mut then_, Instr::LocalSet(2));
    push_instr(&mut then_, Instr::Br(1));
    assert(instrs_view(then_@) =~= heap_downcast_then(t));
    let mut else_: Vec<Instr> = Vec::new();
    push_instr(&mut else_, Instr::Unreachable);

    // Check the part at the current offset
    let mut loop_body: Vec<Instr> = Vec::new();
    push_instr(&mut loop_body, Instr::LocalGet(0));
    push_instr(&mut loop_body, Instr::LocalGet(2));
    push_instr(&mut loop_body, Instr::Binop(BinaryOp::I32Add));
    push_instr(&mut loop_body, Instr::Load(t, 0));
    push_instr(&mut loop_body, zero_instr);
    push_instr(&mut loop_body, Instr::Binop(eq));
    push_instr(&mut loop_body, Instr::IfElse(None, then_, else_));
    assert(instrs_view(loop_body@) =~= heap_downcast_loop(t));

    let mut block: Vec<Instr> = Vec::new();
    push_instr(&mut block, Instr::I32Const(w));
    push_instr(&mut block, Instr::LocalSet(2));
    push_instr(&mut block, Instr::Loop(loop_body));
    assert(instrs_view(block@) =~= heap_downcast_block(t));

    let mut body: Vec<Instr> = Vec::new();
    push_instr(&mut body, Instr::LocalGet(0));
    push_instr(&mut body, Instr::Load(t, 0));
    push_instr(&mut body, Instr::Block(block));
    let r = FunctionBody {
        name: String::from_str(f.name()),
        params: vec![ValType::I32, ValType::I32],
        results: vec![t],
        locals: vec![ValType::I32],
        body,
    };
    proof {
        assert(r@.params =~= heap_downcast_code(f, t).params);
        assert(r@.results =~= heap_downcast_code(f, t).results);
        assert(r@.locals =~= heap_downcast_code(f, t).locals);
        assert(r@.body =~= heap_downcast_code(f, t).body);
    }
    r
}

/// Builds the function that downcasts a `u128` or `u256` in memory to a `u32`: it takes the
/// number's address and size in bytes, and traps unless the number fits.
pub fn downcast_u128_u256_to_u32() -> (r: FunctionBody)
    ensures
        r@ == heap_downcast_code(RuntimeFunction::DowncastU128U256ToU32, ValType::I32),
        forall|env: Seq<FunctionView>, fuel: nat, mem: Seq<u8>, ptr: u32, size: u32|
            size % 4 == 0 && size >= 8 && ptr + size <= mem.len() && ptr + size <= u32::MAX && fuel * 4 >= size
            ==> #[trigger] invoke(env, fuel, r@, args2(Value::I32(ptr), Value::I32(size)), mem)
            == if zero_between(mem, ptr + 4, ptr + size) {
                Completion::Returned(args1(Value::I32(le_value(mem.subrange(ptr as int, ptr + 4)) as u32)), mem)
            } else {
                Completion::Trapped
            },
{
    let r = heap_downcast_function(RuntimeFunction::DowncastU128U256ToU32, ValType::I32);
    proof {
        assert forall|env: Seq<FunctionView>, fuel: nat, mem: Seq<u8>, ptr: u32, size: u32|
            size % 4 == 0 && size >= 8 && ptr + size <= mem.len() && ptr + size <= u32::MAX && fuel * 4 >= size
            implies #[trigger] invoke(env, fuel, r@, args2(Value::I32(ptr), Value::I32(size)), mem)
            == if zero_between(mem, ptr + 4, ptr + size) {
                Completion::Returned(args1(Value::I32(le_value(mem.subrange(ptr as int, ptr + 4)) as u32)), mem)
            } else {
                Completion::Trapped
            } by {
            law_downcast_u128_u256_to_u32(env, fuel, mem, ptr, size);
        }
    }
    r
}

/// Builds the function that downcasts a `u128` or `u256` in memory to a `u64`: it takes the
/// number's address and size in bytes, and traps unless the number fits.
pub fn downcast_u128_u256_to_u64() -> (r: FunctionBody)
    ensures
        r@ == heap_downcast_code(RuntimeFunction::DowncastU128U256ToU64, ValType::I64),
        forall|env: Seq<FunctionView>, fuel: nat, mem: Seq<u8>, ptr: u32, size: u32|
            size % 8 == 0 && size >= 16 && ptr + size <= mem.len() && ptr + size <= u32::MAX && fuel * 8 >= size
            ==> #[trigger] invoke(env, fuel, r@, args2(Value::I32(ptr), Value::I32(size)), mem)
            == if zero_between(mem, ptr + 8, ptr + size) {
                Completion::Returned(args1(Value::I64(le_value(mem.subrange(ptr as int, ptr + 8)) as u64)), mem)
            } else {
                Completion::Trapped
            },
{
    let r = heap_downcast_function(RuntimeFunction::DowncastU128U256ToU64, ValType::I64);
    proof {
        assert forall|env: Seq<FunctionView>, fuel: nat, mem: Seq<u8>, ptr: u32, size: u32|
            size % 8 == 0 && size >= 16 && ptr + size <= mem.len() && ptr + size <= u32::MAX && fuel * 8 >= size
            implies #[trigger] invoke(env, fuel, r@, args2(Value::I32(ptr), Value::I32(size)), mem)
            == if zero_between(mem, ptr + 8, ptr + size) {
                Completion::Returned(args1(Value::I64(le_value(mem.subrange(ptr as int, ptr + 8)) as u64)), mem)
            } else {
                Completion::Trapped
            } by {
            law_downcast_u128_u256_to_u64(env, fuel, mem, ptr, size);
        }
    }
    r
}

} // verus!

verus! {

/// The locals of the comparison of two numbers in memory: their addresses, their size, the
/// parts last loaded, the result, and the offset of the parts being compared.
pub open spec fn compare_locals(a_ptr: u32, b_ptr: u32, size: u32, x: Value, y: Value, res: Value, offset: u32) -> Seq<Value> {
    seq![Value::I32(a_ptr), Value::I32(b_ptr), Value::I32(size), x, y, res, Value::I32(offset)]
}

/// When every part is equal: the result is false and the block is left.
pub open spec fn less_than_done() -> Seq<InstrView> {
    seq![InstrView::I32Const(0), InstrView::LocalSet(5), InstrView::Br(2)]
}

/// When the parts are equal: go on with the next lower part.
pub open spec fn less_than_next() -> Seq<InstrView> {
    seq![
        InstrView::LocalGet(6),
        InstrView::I32Const(8),
        InstrView::Binop(BinaryOp::I32Sub),
        InstrView::LocalSet(6),
        InstrView::Br(1),
    ]
}

/// When the part of the first number is larger: return false.
pub open spec fn less_than_larger() -> Seq<InstrView> {
    seq![InstrView::I32Const(0), InstrView::Return]
}

/// Compares the parts at the current offset, from the most significant one down.
pub open spec fn less_than_loop() -> Seq<InstrView> {
    seq![
        InstrView::LocalGet(6),
        InstrView::I32Const(0),
        InstrView::Binop(BinaryOp::I32LtS),
        InstrView::IfElse(None, less_than_done(), seq![]),
        InstrView::LocalGet(0),
        InstrView::LocalGet(6),
        InstrView::Binop(BinaryOp::I32Add),
        InstrView::Load(ValType::I64, 0),
        InstrView::LocalTee(3),
        InstrView::LocalGet(1),
        InstrView::LocalGet(6),
        InstrView::Binop(BinaryOp::I32Add),
        InstrView::Load(ValType::I64, 0),
        InstrView::LocalTee(4),
        InstrView::Binop(BinaryOp::I64LtU),
        InstrView::LocalTee(5),
        InstrView::BrIf(1),
        InstrView::LocalGet(3),
        InstrView::LocalGet(4),
        InstrView::Binop(BinaryOp::I64Eq),
        InstrView::IfElse(None, less_than_next(), less_than_larger()),
    ]
}

/// The function that tells whether a number in memory is less than another of the same size.
pub open spec fn check_if_a_less_than_b_code() -> FunctionView {
    FunctionView {
        name: runtime_function_name(RuntimeFunction::LessThan),
        params: seq![ValType::I32, ValType::I32, ValType::I32],
        results: seq![ValType::I32],
        locals: seq![ValType::I64, ValType::I64, ValType::I32, ValType::I32],
        body: seq![
            InstrView::LocalGet(2),
            InstrView::I32Const(8),
            InstrView::Binop(BinaryOp::I32Sub),
            InstrView::LocalSet(6),
            InstrView::Block(seq![InstrView::Loop(less_than_loop())]),
            InstrView::LocalGet(5),
        ],
    }
}

/// The value of the `n` bytes of `mem` at `ptr`.
pub open spec fn number_at(mem: Seq<u8>, ptr: int, n: int) -> nat {
    le_value(mem.subrange(ptr, ptr + n))
}

/// The offset of the highest of `k` parts of 8 bytes; below the first part it is -8.
pub open spec fn part_offset(k: nat) -> u32 {
    if k == 0 { 0xFFFF_FFF8 } else { (8 * (k - 1)) as u32 }
}

/// Where the comparison loop ends: leaving the block with the result in its local, or returning
/// false.
pub open spec fn compare_outcome(o: Outcome, mem: Seq<u8>, x: nat, y: nat) -> bool {
    match o {
        Outcome::Break(d, l, m) => d == 0 && m == mem && l.len() == 7 && x <= y
            && l[5] == Value::I32(if x < y { 1 } else { 0 }),
        Outcome::Return(s, m) => m == mem && s == seq![Value::I32(0)] && x > y,
        _ => false,
    }
}

/// The signed comparison with zero of an offset.
proof fn lemma_offset_sign(o: u32)
    by (bit_vector)
    ensures
        o < 0x8000_0000 ==> !((o as i32) < (0u32 as i32)),
        o == 0xFFFF_FFF8u32 ==> (o as i32) < (0u32 as i32),
{
}

/// The number of the low `k + 1` parts is that of the low `k` parts followed by part `k`.
proof fn lemma_number_split(mem: Seq<u8>, ptr: int, k: nat)
    requires
        0 <= ptr,
        ptr + 8 * (k + 1) <= mem.len(),
    ensures
        mem.subrange(ptr, ptr + 8 * (k + 1)) =~= mem.subrange(ptr, ptr + 8 * k) + mem.subrange(ptr + 8 * k, ptr + 8 * (k + 1)),
{
}

/// The first part of a pass of the comparison loop at part `k - 1`: the parts are loaded, kept,
/// and compared.
#[verifier::rlimit(100)]
proof fn lemma_less_than_load(
    env: Seq<FunctionView>,
    fuel: nat,
    mem: Seq<u8>,
    a_ptr: u32,
    b_ptr: u32,
    size: u32,
    x: Value,
    y: Value,
    res: Value,
    k: nat,
)
    requires
        k >= 1,
        8 * k <= 0x8000_0000,
        a_ptr + 8 * k <= mem.len(),
        b_ptr + 8 * k <= mem.len(),
        a_ptr + 8 * k <= u32::MAX,
        b_ptr + 8 * k <= u32::MAX,
    ensures
        ({
            let o = part_offset(k);
            let ca = number_at(mem, a_ptr + o, 8);
            let cb = number_at(mem, b_ptr + o, 8);
            let va = Value::I64(ca as u64);
            let vb = Value::I64(cb as u64);
            let lt = Value::I32(if ca < cb { 1 } else { 0 });
            &&& ca <= u64::MAX && cb <= u64::MAX
            &&& run(env, fuel, less_than_loop(), 0, Seq::empty(), compare_locals(a_ptr, b_ptr, size, x, y, res, o), mem)
                == run(env, fuel, less_than_loop(), 16, Seq::empty().push(lt), compare_locals(a_ptr, b_ptr, size, va, vb, lt, o), mem)
        }),
{
    let o = part_offset(k);
    let e = Seq::<Value>::empty();
    let l = compare_locals(a_ptr, b_ptr, size, x, y, res, o);
    let lb = less_than_loop();
    let ca = number_at(mem, a_ptr + o, 8);
    let cb = number_at(mem, b_ptr + o, 8);
    lemma_le_value_fits(mem.subrange(a_ptr + o, a_ptr + o + 8));
    lemma_le_value_fits(mem.subrange(b_ptr + o, b_ptr + o + 8));
    let va = Value::I64(ca as u64);
    let vb = Value::I64(cb as u64);
    lemma_offset_sign(o);
    lemma_wrap32_no_overflow(a_ptr, o);
    lemma_wrap32_no_overflow(b_ptr, o);
    let aa = (a_ptr + o) as u32;
    let ba = (b_ptr + o) as u32;
    let z = Value::I32(0);
    // offset < 0 is false: the empty branch
    assert(run(env, fuel, lb, 0, e, l, mem) == run(env, fuel, lb, 1, e.push(Value::I32(o)), l, mem));
    assert(run(env, fuel, lb, 1, e.push(Value::I32(o)), l, mem) == run(env, fuel, lb, 2, e.push(Value::I32(o)).push(z), l, mem));
    assert(e.push(Value::I32(o)).push(z).drop_last().drop_last() =~= e);
    assert(run(env, fuel, lb, 2, e.push(Value::I32(o)).push(z), l, mem) == run(env, fuel, lb, 3, e.push(z), l, mem));
    assert(run(env, fuel, seq![], 0, e, l, mem) == Outcome::Done(e, l, mem));
    assert(e.push(z).drop_last() + e =~= e);
    assert(run(env, fuel, lb, 3, e.push(z), l, mem) == run(env, fuel, lb, 4, e, l, mem));
    // load the parts
    assert(run(env, fuel, lb, 4, e, l, mem) == run(env, fuel, lb, 5, e.push(Value::I32(a_ptr)), l, mem));
    assert(run(env, fuel, lb, 5, e.push(Value::I32(a_ptr)), l, mem)
        == run(env, fuel, lb, 6, e.push(Value::I32(a_ptr)).push(Value::I32(o)), l, mem));
    assert(e.push(Value::I32(a_ptr)).push(Value::I32(o)).drop_last().drop_last() =~= e);
    assert(run(env, fuel, lb, 6, e.push(Value::I32(a_ptr)).push(Value::I32(o)), l, mem)
        == run(env, fuel, lb, 7, e.push(Value::I32(aa)), l, mem));
    assert(e.push(Value::I32(aa)).drop_last() =~= e);
    assert(run(env, fuel, lb, 7, e.push(Value::I32(aa)), l, mem) == run(env, fuel, lb, 8, e.push(va), l, mem));
    let l1 = l.update(3, va);
    assert(run(env, fuel, lb, 8, e.push(va), l, mem) == run(env, fuel, lb, 9, e.push(va), l1, mem));
    assert(run(env, fuel, lb, 9, e.push(va), l1, mem) == run(env, fuel, lb, 10, e.push(va).push(Value::I32(b_ptr)), l1, mem));
    assert(run(env, fuel, lb, 10, e.push(va).push(Value::I32(b_ptr)), l1, mem)
        == run(env, fuel, lb, 11, e.push(va).push(Value::I32(b_ptr)).push(Value::I32(o)), l1, mem));
    assert(e.push(va).push(Value::I32(b_ptr)).push(Value::I32(o)).drop_last().drop_last() =~= e.push(va));
    assert(run(env, fuel, lb, 11, e.push(va).push(Value::I32(b_ptr)).push(Value::I32(o)), l1, mem)
        == run(env, fuel, lb, 12, e.push(va).push(Value::I32(ba)), l1, mem));
    assert(e.push(va).push(Value::I32(ba)).drop_last() =~= e.push(va));
    assert(run(env, fuel, lb, 12, e.push(va).push(Value::I32(ba)), l1, mem) == run(env, fuel, lb, 13, e.push(va).push(vb), l1, mem));
    let l2 = l1.update(4, vb);
    assert(run(env, fuel, lb, 13, e.push(va).push(vb), l1, mem) == run(env, fuel, lb, 14, e.push(va).push(vb), l2, mem));
    let lt = Value::I32(if ca < cb { 1 } else { 0 });
    assert(e.push(va).push(vb).drop_last().drop_last() =~= e);
    assert(run(env, fuel, lb, 14, e.push(va).push(vb), l2, mem) == run(env, fuel, lb, 15, e.push(lt), l2, mem));
    let l3 = l2.update(5, lt);
    assert(l3 =~= compare_locals(a_ptr, b_ptr, size, va, vb, lt, o));
    assert(run(env, fuel, lb, 15, e.push(lt), l2, mem) == run(env, fuel, lb, 16, e.push(lt), l3, mem));
}

/// One pass of the comparison loop at part `k - 1`, when it is not below the first part.
#[verifier::rlimit(100)]
proof fn lemma_less_than_pass(
    env: Seq<FunctionView>,
    fuel: nat,
    mem: Seq<u8>,
    a_ptr: u32,
    b_ptr: u32,
    size: u32,
    x: Value,
    y: Value,
    res: Value,
    k: nat,
)
    requires
        k >= 1,
        8 * k <= 0x8000_0000,
        a_ptr + 8 * k <= mem.len(),
        b_ptr + 8 * k <= mem.len(),
        a_ptr + 8 * k <= u32::MAX,
        b_ptr + 8 * k <= u32::MAX,
    ensures
        ({
            let o = part_offset(k);
            let l = compare_locals(a_ptr, b_ptr, size, x, y, res, o);
            let ca = number_at(mem, a_ptr + o, 8);
            let cb = number_at(mem, b_ptr + o, 8);
            let va = Value::I64(ca as u64);
            let vb = Value::I64(cb as u64);
            let out = run(env, fuel, less_than_loop(), 0, Seq::empty(), l, mem);
            &&& ca < cb ==> out == Outcome::Break(1, compare_locals(a_ptr, b_ptr, size, va, vb, Value::I32(1), o), mem)
            &&& ca > cb ==> out == Outcome::Return(seq![Value::I32(0)], mem)
            &&& ca == cb ==> out == Outcome::Break(0, compare_locals(a_ptr, b_ptr, size, va, vb, Value::I32(0), part_offset((k - 1) as nat)), mem)
        }),
{
    lemma_less_than_load(env, fuel, mem, a_ptr, b_ptr, size, x, y, res, k);
    let o = part_offset(k);
    let e = Seq::<Value>::empty();
    let lb = less_than_loop();
    let ca = number_at(mem, a_ptr + o, 8);
    let cb = number_at(mem, b_ptr + o, 8);
    let va = Value::I64(ca as u64);
    let vb = Value::I64(cb as u64);
    let lt = Value::I32(if ca < cb { 1 } else { 0 });
    let l3 = compare_locals(a_ptr, b_ptr, size, va, vb, lt, o);
    let z = Value::I32(0);
    if ca < cb {
        assert(run(env, fuel, lb, 16, e.push(lt), l3, mem) == Outcome::Break(1, l3, mem));
    } else {
        assert(e.push(lt).drop_last() =~= e);
        assert(run(env, fuel, lb, 16, e.push(lt), l3, mem) == run(env, fuel, lb, 17, e, l3, mem));
        assert(run(env, fuel, lb, 17, e, l3, mem) == run(env, fuel, lb, 18, e.push(va), l3, mem));
        assert(run(env, fuel, lb, 18, e.push(va), l3, mem) == run(env, fuel, lb, 19, e.push(va).push(vb), l3, mem));
        let eq = Value::I32(if ca == cb { 1 } else { 0 });
        assert(e.push(va).push(vb).drop_last().drop_last() =~= e);
        assert(run(env, fuel, lb, 19, e.push(va).push(vb), l3, mem) == run(env, fuel, lb, 20, e.push(eq), l3, mem));
        assert(e.push(eq).drop_last() =~= e);
        if ca == cb {
            let nb = less_than_next();
            let o2 = part_offset((k - 1) as nat);
            assert(wrap32(o - 8) == o2);
            assert(run(env, fuel, nb, 0, e, l3, mem) == run(env, fuel, nb, 1, e.push(Value::I32(o)), l3, mem));
            assert(run(env, fuel, nb, 1, e.push(Value::I32(o)), l3, mem)
                == run(env, fuel, nb, 2, e.push(Value::I32(o)).push(Value::I32(8)), l3, mem));
            assert(e.push(Value::I32(o)).push(Value::I32(8)).drop_last().drop_last() =~= e);
            assert(run(env, fuel, nb, 2, e.push(Value::I32(o)).push(Value::I32(8)), l3, mem)
                == run(env, fuel, nb, 3, e.push(Value::I32(o2)), l3, mem));
            let l4 = l3.update(6, Value::I32(o2));
            assert(e.push(Value::I32(o2)).drop_last() =~= e);
            assert(run(env, fuel, nb, 3, e.push(Value::I32(o2)), l3, mem) == run(env, fuel, nb, 4, e, l4, mem));
            assert(run(env, fuel, nb, 4, e, l4, mem) == Outcome::Break(1, l4, mem));
            assert(l4 =~= compare_locals(a_ptr, b_ptr, size, va, vb, Value::I32(0), o2));
        } else {
            let gb = less_than_larger();
            assert(run(env, fuel, gb, 0, e, l3, mem) == run(env, fuel, gb, 1, e.push(z), l3, mem));
            assert(run(env, fuel, gb, 1, e.push(z), l3, mem) == Outcome::Return(e.push(z), mem));
            assert(e.push(z) =~= seq![Value::I32(0)]);
        }
    }
}

/// The comparison loop over the low `k` parts: it leaves the block with whether the first
/// number's low parts are less than the second's, or returns false when they are larger.
#[verifier::rlimit(30)]
proof fn lemma_less_than_loop(
    env: Seq<FunctionView>,
    fuel: nat,
    mem: Seq<u8>,
    a_ptr: u32,
    b_ptr: u32,
    size: u32,
    x: Value,
    y: Value,
    res: Value,
    k: nat,
)
    requires
        8 * k <= 0x8000_0000,
        a_ptr + 8 * k <= mem.len(),
        b_ptr + 8 * k <= mem.len(),
        a_ptr + 8 * k <= u32::MAX,
        b_ptr + 8 * k <= u32::MAX,
        fuel >= k,
    ensures
        compare_outcome(
            run(env, fuel, seq![InstrView::Loop(less_than_loop())], 0, Seq::empty(),
                compare_locals(a_ptr, b_ptr, size, x, y, res, part_offset(k)), mem),
            mem,
            number_at(mem, a_ptr as int, (8 * k) as int),
            number_at(mem, b_ptr as int, (8 * k) as int),
        ),
    decreases k,
{
    let e = Seq::<Value>::empty();
    let o = part_offset(k);
    let l = compare_locals(a_ptr, b_ptr, size, x, y, res, o);
    let lb = less_than_loop();
    if k == 0 {
        lemma_offset_sign(o);
        let db = less_than_done();
        let one = Value::I32(1);
        let z = Value::I32(0);
        assert(run(env, fuel, lb, 0, e, l, mem) == run(env, fuel, lb, 1, e.push(Value::I32(o)), l, mem));
        assert(run(env, fuel, lb, 1, e.push(Value::I32(o)), l, mem) == run(env, fuel, lb, 2, e.push(Value::I32(o)).push(z), l, mem));
        assert(e.push(Value::I32(o)).push(z).drop_last().drop_last() =~= e);
        assert(run(env, fuel, lb, 2, e.push(Value::I32(o)).push(z), l, mem) == run(env, fuel, lb, 3, e.push(one), l, mem));
        assert(run(env, fuel, db, 0, e, l, mem) == run(env, fuel, db, 1, e.push(z), l, mem));
        let l2 = l.update(5, z);
        assert(e.push(z).drop_last() =~= e);
        assert(run(env, fuel, db, 1, e.push(z), l, mem) == run(env, fuel, db, 2, e, l2, mem));
        assert(run(env, fuel, db, 2, e, l2, mem) == Outcome::Break(2, l2, mem));
        assert(run(env, fuel, lb, 3, e.push(one), l, mem) == Outcome::Break(1, l2, mem));
        assert(mem.subrange(a_ptr as int, a_ptr as int) =~= Seq::<u8>::empty());
        assert(mem.subrange(b_ptr as int, b_ptr as int) =~= Seq::<u8>::empty());
    } else {
        lemma_less_than_pass(env, fuel, mem, a_ptr, b_ptr, size, x, y, res, k);
        let ca = number_at(mem, a_ptr + o, 8);
        let cb = number_at(mem, b_ptr + o, 8);
        let km = (k - 1) as nat;
        lemma_number_split(mem, a_ptr as int, km);
        lemma_number_split(mem, b_ptr as int, km);
        lemma_le_value_compare(
            mem.subrange(a_ptr as int, a_ptr + 8 * km),
            mem.subrange(a_ptr + 8 * km, a_ptr + 8 * k),
            mem.subrange(b_ptr as int, b_ptr + 8 * km),
            mem.subrange(b_ptr + 8 * km, b_ptr + 8 * k),
        );
        if ca == cb {
            lemma_le_value_fits(mem.subrange(a_ptr + o, a_ptr + o + 8));
            lemma_le_value_fits(mem.subrange(b_ptr + o, b_ptr + o + 8));
            let va = Value::I64(ca as u64);
            let vb = Value::I64(cb as u64);
            lemma_less_than_loop(env, (fuel - 1) as nat, mem, a_ptr, b_ptr, size, va, vb, Value::I32(0), km);
        }
    }
}

/// `check_if_a_less_than_b` returns 1 when the number of `size` bytes at `a_ptr` is less than
/// the one at `b_ptr`, and 0 otherwise.
#[verifier::rlimit(30)]
pub proof fn law_check_if_a_less_than_b(env: Seq<FunctionView>, fuel: nat, mem: Seq<u8>, a_ptr: u32, b_ptr: u32, size: u32)
    requires
        size % 8 == 0,
        size <= 0x8000_0000,
        a_ptr + size <= mem.len(),
        b_ptr + size <= mem.len(),
        a_ptr + size <= u32::MAX,
        b_ptr + size <= u32::MAX,
        fuel * 8 >= size,
    ensures
        invoke(env, fuel, check_if_a_less_than_b_code(), args3(Value::I32(a_ptr), Value::I32(b_ptr), Value::I32(size)), mem)
            == Completion::Returned(
                args1(Value::I32(if number_at(mem, a_ptr as int, size as int) < number_at(mem, b_ptr as int, size as int) { 1 } else { 0 })),
                mem,
            ),
{
    let code = check_if_a_less_than_b_code();
    let e = Seq::<Value>::empty();
    let k = (size / 8) as nat;
    assert(size == 8 * k);
    let z32 = Value::I32(0);
    let z64 = Value::I64(0);
    let o = part_offset(k);
    let l0 = compare_locals(a_ptr, b_ptr, size, z64, z64, z32, 0);
    assert(args3(Value::I32(a_ptr), Value::I32(b_ptr), Value::I32(size)) + zeros(code.locals) =~= l0);
    let l1 = compare_locals(a_ptr, b_ptr, size, z64, z64, z32, o);
    assert(wrap32(size - 8) == o);
    let b = code.body;
    assert(run(env, fuel, b, 0, e, l0, mem) == run(env, fuel, b, 1, e.push(Value::I32(size)), l0, mem));
    assert(run(env, fuel, b, 1, e.push(Value::I32(size)), l0, mem) == run(env, fuel, b, 2, e.push(Value::I32(size)).push(Value::I32(8)), l0, mem));
    assert(e.push(Value::I32(size)).push(Value::I32(8)).drop_last().drop_last() =~= e);
    assert(run(env, fuel, b, 2, e.push(Value::I32(size)).push(Value::I32(8)), l0, mem) == run(env, fuel, b, 3, e.push(Value::I32(o)), l0, mem));
    assert(e.push(Value::I32(o)).drop_last() =~= e);
    assert(l0.update(6, Value::I32(o)) =~= l1);
    assert(run(env, fuel, b, 3, e.push(Value::I32(o)), l0, mem) == run(env, fuel, b, 4, e, l1, mem));
    assert(fuel >= k) by (nonlinear_arith)
        requires
            fuel * 8 >= size,
            size == 8 * k,
    ;
    lemma_less_than_loop(env, fuel, mem, a_ptr, b_ptr, size, z64, z64, z32, k);
    let out = run(env, fuel, seq![InstrView::Loop(less_than_loop())], 0, e, l1, mem);
    assert(number_at(mem, a_ptr as int, size as int) == number_at(mem, a_ptr as int, (8 * k) as int));
    assert(number_at(mem, b_ptr as int, size as int) == number_at(mem, b_ptr as int, (8 * k) as int));
    let inv = invoke(env, fuel, code, args3(Value::I32(a_ptr), Value::I32(b_ptr), Value::I32(size)), mem);
    match out {
        Outcome::Break(_, l, m) => {
            assert(e + e =~= e);
            assert(run(env, fuel, b, 4, e, l1, mem) == run(env, fuel, b, 5, e, l, mem));
            assert(run(env, fuel, b, 5, e, l, mem) == run(env, fuel, b, 6, e.push(l[5]), l, mem));
            assert(run(env, fuel, b, 6, e.push(l[5]), l, mem) == Outcome::Done(e.push(l[5]), l, mem));
            assert(e.push(l[5]) =~= args1(l[5]));
        },
        Outcome::Return(s, m) => {
            assert(run(env, fuel, b, 4, e, l1, mem) == out);
            assert(s.subrange(s.len() - 1, s.len() as int) =~= args1(Value::I32(0)));
        },
        _ => {},
    }
}

} // verus!

verus! {

/// Builds the function that tells whether a number in memory is less than another: it takes
/// the two numbers' addresses and their size in bytes, compares their 8-byte parts from the
/// most significant one down, and returns 1 when the first is less, else 0.
#[verifier::rlimit(30)]
pub fn check_if_a_less_than_b() -> (r: FunctionBody)
    ensures
        r@ == check_if_a_less_than_b_code(),
        forall|env: Seq<FunctionView>, fuel: nat, mem: Seq<u8>, a_ptr: u32, b_ptr: u32, size: u32|
            size % 8 == 0 && size <= 0x8000_0000 && a_ptr + size <= mem.len() && b_ptr + size <= mem.len()
                && a_ptr + size <= u32::MAX && b_ptr + size <= u32::MAX && fuel * 8 >= size
            ==> #[trigger] invoke(env, fuel, r@, args3(Value::I32(a_ptr), Value::I32(b_ptr), Value::I32(size)), mem)
            == Completion::Returned(
                args1(Value::I32(if number_at(mem, a_ptr as int, size as int) < number_at(mem, b_ptr as int, size as int) { 1 } else { 0 })),
                mem,
            ),
{
    // All parts are equal: the result is false
    let mut done: Vec<Instr> = Vec::new();
    push_instr(&mut done, Instr::I32Const(0));
    push_instr(&mut done, Instr::LocalSet(5));
    push_instr(&mut done, Instr::Br(2));
    assert(instrs_view(done@) =~= less_than_done());
    // Equal parts: go on with the next lower part
    let mut next: Vec<Instr> = Vec::new();
    push_instr(&mut next, Instr::LocalGet(6));
    push_instr(&mut next, Instr::I32Const(8));
    push_instr(&mut next, Instr::Binop(BinaryOp::I32Sub));
    push_instr(&mut next, Instr::LocalSet(6));
    push_instr(&mut next, Instr::Br(1));
    assert(instrs_view(next@) =~= less_than_next());
    // The part of the first number is larger: return false
    let mut larger: Vec<Instr> = Vec::new();
    push_instr(&mut larger, Instr::I32Const(0));
    push_instr(&mut larger, Instr::Return);
    assert(instrs_view(larger@) =~= less_than_larger());

    let mut loop_body: Vec<Instr> = Vec::new();
    push_instr(&mut loop_body, Instr::LocalGet(6));
    push_instr(&mut loop_body, Instr::I32Const(0));
    push_instr(&mut loop_body, Instr::Binop(BinaryOp::I32LtS));
    push_instr(&mut loop_body, Instr::IfElse(None, done, Vec::new()));
    // Load the part of a
    push_instr(&mut loop_body, Instr::LocalGet(0));
    push_instr(&mut loop_body, Instr::LocalGet(6));
    push_instr(&mut loop_body, Instr::Binop(BinaryOp::I32Add));
    push_instr(&mut loop_body, Instr::Load(ValType::I64, 0));
    push_instr(&mut loop_body, Instr::LocalTee(3));
    // Load the part of b
    push_instr(&mut loop_body, Instr::LocalGet(1));
    push_instr(&mut loop_body, Instr::LocalGet(6));
    push_instr(&mut loop_body, Instr::Binop(BinaryOp::I32Add));
    push_instr(&mut loop_body, Instr::Load(ValType::I64, 0));
    push_instr(&mut loop_body, Instr::LocalTee(4));
    // a < b: leave with true
    push_instr(&mut loop_body, Instr::Binop(BinaryOp::I64LtU));
    push_instr(&mut loop_body, Instr::LocalTee(5));
    push_instr(&mut loop_body, Instr::BrIf(1));
    // Otherwise compare for equality
    push_instr(&mut loop_body, Instr::LocalGet(3));
    push_instr(&mut loop_body, Instr::LocalGet(4));
    push_instr(&mut loop_body, Instr::Binop(BinaryOp::I64Eq));
    push_instr(&mut loop_body, Instr::IfElse(None, next, larger));
    assert(instrs_view(loop_body@) =~= less_than_loop());

    let mut block: Vec<Instr> = Vec::new();
    push_instr(&mut block, Instr::Loop(loop_body));
    assert(instrs_view(block@) =~= seq![InstrView::Loop(less_than_loop())]);

    let mut body: Vec<Instr> = Vec::new();
    push_instr(&mut body, Instr::LocalGet(2));
    push_instr(&mut body, Instr::I32Const(8));
    push_instr(&mut body, Instr::Binop(BinaryOp::I32Sub));
    push_instr(&mut body, Instr::LocalSet(6));
    push_instr(&mut body, Instr::Block(block));
    push_instr(&mut body, Instr::LocalGet(5));
    let r = FunctionBody {
        name: String::from_str(RuntimeFunction::LessThan.name()),
        params: vec![ValType::I32, ValType::I32, ValType::I32],
        results: vec![ValType::I32],
        locals: vec![ValType::I64, ValType::I64, ValType::I32, ValType::I32],
        body,
    };
    proof {
        let code = check_if_a_less_than_b_code();
        assert(r@.params =~= code.params);
        assert(r@.results =~= code.results);
        assert(r@.locals =~= code.locals);
        assert(r@.name == code.name);
        assert(r@.body =~= code.body);
        assert forall|env: Seq<FunctionView>, fuel: nat, mem: Seq<u8>, a_ptr: u32, b_ptr: u32, size: u32|
            size % 8 == 0 && size <= 0x8000_0000 && a_ptr + size <= mem.len() && b_ptr + size <= mem.len()
                && a_ptr + size <= u32::MAX && b_ptr + size <= u32::MAX && fuel * 8 >= size
            implies #[trigger] invoke(env, fuel, r@, args3(Value::I32(a_ptr), Value::I32(b_ptr), Value::I32(size)), mem)
            == Completion::Returned(
                args1(Value::I32(if number_at(mem, a_ptr as int, size as int) < number_at(mem, b_ptr as int, size as int) { 1 } else { 0 })),
                mem,
            ) by {
            law_check_if_a_less_than_b(env, fuel, mem, a_ptr, b_ptr, size);
        }
    }
    r
}

} // verus!
