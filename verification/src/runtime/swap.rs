//! Runtime functions that swap the bytes of integers, to convert between big-endian and
//! little-endian.
use vstd::prelude::*;

use crate::runtime::{RuntimeFunction, runtime_function_name};
use crate::wasm::{
    BinaryOp, Completion, FunctionBody, FunctionView, Instr, InstrView, Outcome, UnaryOp, ValType,
    Value, args1, invoke, le_bytes, push_instr, run, wrap32, zeros,
};

verus! {

/// Byte `k` of `x`, 0 being the least significant.
pub open spec fn byte32(x: u32, k: u32) -> u32 {
    (x >> (8 * k)) & 0xff
}

/// Byte `k` of `x`, 0 being the least significant.
pub open spec fn byte64(x: u64, k: u64) -> u64 {
    (x >> (8 * k)) & 0xff
}

/// `x` with its four bytes in reverse order.
pub open spec fn bswap32(x: u32) -> u32 {
    (byte32(x, 0) << 24) | (byte32(x, 1) << 16) | (byte32(x, 2) << 8) | byte32(x, 3)
}

/// `x` with its eight bytes in reverse order.
pub open spec fn bswap64(x: u64) -> u64 {
    (byte64(x, 0) << 56) | (byte64(x, 1) << 48) | (byte64(x, 2) << 40) | (byte64(x, 3) << 32)
        | (byte64(x, 4) << 24) | (byte64(x, 5) << 16) | (byte64(x, 6) << 8) | byte64(x, 7)
}

/// Byte `k` of `bswap32(x)` is byte `3 - k` of `x`.
pub proof fn law_bswap32_reverses_bytes(x: u32)
    by (bit_vector)
    ensures
        byte32(bswap32(x), 0) == byte32(x, 3),
        byte32(bswap32(x), 1) == byte32(x, 2),
        byte32(bswap32(x), 2) == byte32(x, 1),
        byte32(bswap32(x), 3) == byte32(x, 0),
{
}

/// Byte `k` of `bswap64(x)` is byte `7 - k` of `x`.
pub proof fn law_bswap64_reverses_bytes(x: u64)
    by (bit_vector)
    ensures
        byte64(bswap64(x), 0) == byte64(x, 7),
        byte64(bswap64(x), 1) == byte64(x, 6),
        byte64(bswap64(x), 2) == byte64(x, 5),
        byte64(bswap64(x), 3) == byte64(x, 4),
        byte64(bswap64(x), 4) == byte64(x, 3),
        byte64(bswap64(x), 5) == byte64(x, 2),
        byte64(bswap64(x), 6) == byte64(x, 1),
        byte64(bswap64(x), 7) == byte64(x, 0),
{
}

/// Swapping the bytes twice gives the number back.
pub proof fn law_bswap_involutive(x: u32, y: u64)
    by (bit_vector)
    ensures
        bswap32(bswap32(x)) == x,
        bswap64(bswap64(y)) == y,
{
}

/// The masks and shifts that `swap_i32_bytes` computes give the bytes in reverse order.
proof fn lemma_swap32_masks(x: u32)
    by (bit_vector)
    ensures
        ((((x >> 24u32) & 0xffu32) | ((x >> 8u32) & 0xff00u32)) | ((x << 8u32) & 0xff0000u32)) | ((x << 24u32) & 0xff000000u32)
            == bswap32(x),
{
}

/// Joining the swapped halves of `x`, the swap of the low half on top, gives `x` swapped.
proof fn lemma_swap64_halves(x: u64)
    by (bit_vector)
    ensures
        (((bswap32(x as u32) as u64) << 32u64) | (bswap32((x >> 32u64) as u32) as u64)) == bswap64(x),
{
}

/// Taking `x` modulo 2^32 keeps its low half.
proof fn lemma_wrap32_low_half(x: u64)
    ensures
        wrap32(x as int) == x as u32,
{
    assert(((x % 0x1_0000_0000) as u32) == x as u32) by (bit_vector);
}

/// The function that swaps the bytes of an `i32`.
pub open spec fn swap_i32_bytes_code() -> FunctionView {
    FunctionView {
        name: runtime_function_name(RuntimeFunction::SwapI32Bytes),
        params: seq![ValType::I32],
        results: seq![ValType::I32],
        locals: seq![],
        body: seq![
            InstrView::LocalGet(0),
            InstrView::I32Const(24),
            InstrView::Binop(BinaryOp::I32ShrU),
            InstrView::I32Const(0x0000_00FF),
            InstrView::Binop(BinaryOp::I32And),
            InstrView::LocalGet(0),
            InstrView::I32Const(8),
            InstrView::Binop(BinaryOp::I32ShrU),
            InstrView::I32Const(0x0000_FF00),
            InstrView::Binop(BinaryOp::I32And),
            InstrView::Binop(BinaryOp::I32Or),
            InstrView::LocalGet(0),
            InstrView::I32Const(8),
            InstrView::Binop(BinaryOp::I32Shl),
            InstrView::I32Const(0x00FF_0000),
            InstrView::Binop(BinaryOp::I32And),
            InstrView::Binop(BinaryOp::I32Or),
            InstrView::LocalGet(0),
            InstrView::I32Const(24),
            InstrView::Binop(BinaryOp::I32Shl),
            InstrView::I32Const(0xFF00_0000),
            InstrView::Binop(BinaryOp::I32And),
            InstrView::Binop(BinaryOp::I32Or),
        ],
    }
}

/// Running the instructions of `swap_i32_bytes` on `x` leaves `x` with its bytes swapped.
#[verifier::rlimit(30)]
proof fn lemma_swap_i32_run(env: Seq<FunctionView>, fuel: nat, mem: Seq<u8>, x: u32)
    ensures
        run(env, fuel, swap_i32_bytes_code().body, 0, Seq::empty(), Seq::empty().push(Value::I32(x)), mem)
            == Outcome::Done(Seq::empty().push(Value::I32(bswap32(x))), Seq::empty().push(Value::I32(x)), mem),
{
    let b = swap_i32_bytes_code().body;
    let e = Seq::<Value>::empty();
    let l = e.push(Value::I32(x));
    let v = |n: u32| Value::I32(n);
    let t0 = (x >> 24u32) & 0xffu32;
    let t1 = t0 | ((x >> 8u32) & 0xff00u32);
    let t2 = t1 | ((x << 8u32) & 0xff0000u32);
    let t3 = t2 | ((x << 24u32) & 0xff000000u32);
    assert(run(env, fuel, b, 0, e, l, mem) == run(env, fuel, b, 1, e.push(v(x)), l, mem));
    assert(run(env, fuel, b, 1, e.push(v(x)), l, mem) == run(env, fuel, b, 2, e.push(v(x)).push(v(24)), l, mem));
    assert(e.push(v(x)).push(v(24)).drop_last().drop_last() =~= e);
    assert(run(env, fuel, b, 2, e.push(v(x)).push(v(24)), l, mem) == run(env, fuel, b, 3, e.push(v(x >> 24u32)), l, mem));
    assert(run(env, fuel, b, 3, e.push(v(x >> 24u32)), l, mem) == run(env, fuel, b, 4, e.push(v(x >> 24u32)).push(v(0xff)), l, mem));
    assert(e.push(v(x >> 24u32)).push(v(0xff)).drop_last().drop_last() =~= e);
    assert(run(env, fuel, b, 4, e.push(v(x >> 24u32)).push(v(0xff)), l, mem) == run(env, fuel, b, 5, e.push(v(t0)), l, mem));
    assert(run(env, fuel, b, 5, e.push(v(t0)), l, mem) == run(env, fuel, b, 6, e.push(v(t0)).push(v(x)), l, mem));
    assert(run(env, fuel, b, 6, e.push(v(t0)).push(v(x)), l, mem) == run(env, fuel, b, 7, e.push(v(t0)).push(v(x)).push(v(8)), l, mem));
    assert(e.push(v(t0)).push(v(x)).push(v(8)).drop_last().drop_last() =~= e.push(v(t0)));
    assert(run(env, fuel, b, 7, e.push(v(t0)).push(v(x)).push(v(8)), l, mem) == run(env, fuel, b, 8, e.push(v(t0)).push(v(x >> 8u32)), l, mem));
    assert(run(env, fuel, b, 8, e.push(v(t0)).push(v(x >> 8u32)), l, mem)
        == run(env, fuel, b, 9, e.push(v(t0)).push(v(x >> 8u32)).push(v(0xff00)), l, mem));
    assert(e.push(v(t0)).push(v(x >> 8u32)).push(v(0xff00)).drop_last().drop_last() =~= e.push(v(t0)));
    assert(run(env, fuel, b, 9, e.push(v(t0)).push(v(x >> 8u32)).push(v(0xff00)), l, mem)
        == run(env, fuel, b, 10, e.push(v(t0)).push(v((x >> 8u32) & 0xff00u32)), l, mem));
    assert(e.push(v(t0)).push(v((x >> 8u32) & 0xff00u32)).drop_last().drop_last() =~= e);
    assert(run(env, fuel, b, 10, e.push(v(t0)).push(v((x >> 8u32) & 0xff00u32)), l, mem) == run(env, fuel, b, 11, e.push(v(t1)), l, mem));
    assert(run(env, fuel, b, 11, e.push(v(t1)), l, mem) == run(env, fuel, b, 12, e.push(v(t1)).push(v(x)), l, mem));
    assert(run(env, fuel, b, 12, e.push(v(t1)).push(v(x)), l, mem) == run(env, fuel, b, 13, e.push(v(t1)).push(v(x)).push(v(8)), l, mem));
    assert(e.push(v(t1)).push(v(x)).push(v(8)).drop_last().drop_last() =~= e.push(v(t1)));
    assert(run(env, fuel, b, 13, e.push(v(t1)).push(v(x)).push(v(8)), l, mem) == run(env, fuel, b, 14, e.push(v(t1)).push(v(x << 8u32)), l, mem));
    assert(run(env, fuel, b, 14, e.push(v(t1)).push(v(x << 8u32)), l, mem)
        == run(env, fuel, b, 15, e.push(v(t1)).push(v(x << 8u32)).push(v(0xff0000)), l, mem));
    assert(e.push(v(t1)).push(v(x << 8u32)).push(v(0xff0000)).drop_last().drop_last() =~= e.push(v(t1)));
    assert(run(env, fuel, b, 15, e.push(v(t1)).push(v(x << 8u32)).push(v(0xff0000)), l, mem)
        == run(env, fuel, b, 16, e.push(v(t1)).push(v((x << 8u32) & 0xff0000u32)), l, mem));
    assert(e.push(v(t1)).push(v((x << 8u32) & 0xff0000u32)).drop_last().drop_last() =~= e);
    assert(run(env, fuel, b, 16, e.push(v(t1)).push(v((x << 8u32) & 0xff0000u32)), l, mem) == run(env, fuel, b, 17, e.push(v(t2)), l, mem));
    assert(run(env, fuel, b, 17, e.push(v(t2)), l, mem) == run(env, fuel, b, 18, e.push(v(t2)).push(v(x)), l, mem));
    assert(run(env, fuel, b, 18, e.push(v(t2)).push(v(x)), l, mem) == run(env, fuel, b, 19, e.push(v(t2)).push(v(x)).push(v(24)), l, mem));
    assert(e.push(v(t2)).push(v(x)).push(v(24)).drop_last().drop_last() =~= e.push(v(t2)));
    assert(run(env, fuel, b, 19, e.push(v(t2)).push(v(x)).push(v(24)), l, mem) == run(env, fuel, b, 20, e.push(v(t2)).push(v(x << 24u32)), l, mem));
    assert(run(env, fuel, b, 20, e.push(v(t2)).push(v(x << 24u32)), l, mem)
        == run(env, fuel, b, 21, e.push(v(t2)).push(v(x << 24u32)).push(v(0xff000000)), l, mem));
    assert(e.push(v(t2)).push(v(x << 24u32)).push(v(0xff000000)).drop_last().drop_last() =~= e.push(v(t2)));
    assert(run(env, fuel, b, 21, e.push(v(t2)).push(v(x << 24u32)).push(v(0xff000000)), l, mem)
        == run(env, fuel, b, 22, e.push(v(t2)).push(v((x << 24u32) & 0xff000000u32)), l, mem));
    assert(e.push(v(t2)).push(v((x << 24u32) & 0xff000000u32)).drop_last().drop_last() =~= e);
    assert(run(env, fuel, b, 22, e.push(v(t2)).push(v((x << 24u32) & 0xff000000u32)), l, mem) == run(env, fuel, b, 23, e.push(v(t3)), l, mem));
    lemma_swap32_masks(x);
}

/// `swap_i32_bytes` returns its argument with its bytes in reverse order.
pub proof fn law_swap_i32_bytes(env: Seq<FunctionView>, fuel: nat, mem: Seq<u8>, x: u32)
    ensures
        invoke(env, fuel, swap_i32_bytes_code(), args1(Value::I32(x)), mem) == Completion::Returned(args1(Value::I32(bswap32(x))), mem),
{
    assert(args1(Value::I32(x)) + zeros(swap_i32_bytes_code().locals) =~= Seq::empty().push(Value::I32(x)));
    lemma_swap_i32_run(env, fuel, mem, x);
}

/// Builds the function that swaps the bytes of an `i32`, to convert between big-endian and
/// little-endian.
#[verifier::rlimit(30)]
pub fn swap_i32_bytes_function() -> (r: FunctionBody)
    ensures
        r@ == swap_i32_bytes_code(),
        forall|env: Seq<FunctionView>, fuel: nat, mem: Seq<u8>, x: u32| #[trigger] invoke(env, fuel, r@, args1(Value::I32(x)), mem)
            == Completion::Returned(args1(Value::I32(bswap32(x))), mem),
{
    let mut body: Vec<Instr> = Vec::new();
    // Move byte 3 to byte 0
    push_instr(&mut body, Instr::LocalGet(0));
    push_instr(&mut body, Instr::I32Const(24));
    push_instr(&mut body, Instr::Binop(BinaryOp::I32ShrU));
    push_instr(&mut body, Instr::I32Const(0x0000_00FF));
    push_instr(&mut body, Instr::Binop(BinaryOp::I32And));
    // Move byte 2 to byte 1
    push_instr(&mut body, Instr::LocalGet(0));
    push_instr(&mut body, Instr::I32Const(8));
    push_instr(&mut body, Instr::Binop(BinaryOp::I32ShrU));
    push_instr(&mut body, Instr::I32Const(0x0000_FF00));
    push_instr(&mut body, Instr::Binop(BinaryOp::I32And));
    push_instr(&mut body, Instr::Binop(BinaryOp::I32Or));
    // Move byte 1 to byte 2
    push_instr(&mut body, Instr::LocalGet(0));
    push_instr(&mut body, Instr::I32Const(8));
    push_instr(&mut body, Instr::Binop(BinaryOp::I32Shl));
    push_instr(&mut body, Instr::I32Const(0x00FF_0000));
    push_instr(&mut body, Instr::Binop(BinaryOp::I32And));
    push_instr(&mut body, Instr::Binop(BinaryOp::I32Or));
    // Move byte 0 to byte 3
    push_instr(&mut body, Instr::LocalGet(0));
    push_instr(&mut body, Instr::I32Const(24));
    push_instr(&mut body, Instr::Binop(BinaryOp::I32Shl));
    push_instr(&mut body, Instr::I32Const(0xFF00_0000));
    push_instr(&mut body, Instr::Binop(BinaryOp::I32And));
    push_instr(&mut body, Instr::Binop(BinaryOp::I32Or));
    let r = FunctionBody {
        name: String::from_str(RuntimeFunction::SwapI32Bytes.name()),
        params: vec![ValType::I32],
        results: vec![ValType::I32],
        locals: Vec::new(),
        body,
    };
    proof {
        assert(r@.params =~= swap_i32_bytes_code().params);
        assert(r@.results =~= swap_i32_bytes_code().results);
        assert(r@.locals =~= swap_i32_bytes_code().locals);
        assert(r@.name == swap_i32_bytes_code().name);
        assert(r@.body =~= swap_i32_bytes_code().body);
        assert forall|env: Seq<FunctionView>, fuel: nat, mem: Seq<u8>, x: u32| #[trigger] invoke(env, fuel, r@, args1(Value::I32(x)), mem)
            == Completion::Returned(args1(Value::I32(bswap32(x))), mem) by {
            law_swap_i32_bytes(env, fuel, mem, x);
        }
    }
    r
}

/// The function that swaps the bytes of an `i64`; the function it calls, callee 0, is the one
/// that swaps the bytes of an `i32`.
pub open spec fn swap_i64_bytes_code() -> FunctionView {
    FunctionView {
        name: runtime_function_name(RuntimeFunction::SwapI64Bytes),
        params: seq![ValType::I64],
        results: seq![ValType::I64],
        locals: seq![ValType::I32],
        body: seq![
            InstrView::LocalGet(0),
            InstrView::I64Const(32),
            InstrView::Binop(BinaryOp::I64ShrU),
            InstrView::Unop(UnaryOp::I32WrapI64),
            InstrView::Call(0),
            InstrView::LocalSet(1),
            InstrView::LocalGet(0),
            InstrView::Unop(UnaryOp::I32WrapI64),
            InstrView::Call(0),
            InstrView::Unop(UnaryOp::I64ExtendUI32),
            InstrView::I64Const(32),
            InstrView::Binop(BinaryOp::I64Shl),
            InstrView::LocalGet(1),
            InstrView::Unop(UnaryOp::I64ExtendUI32),
            InstrView::Binop(BinaryOp::I64Or),
        ],
    }
}

/// A call of `swap_i32_bytes` from the instructions `b`, at position `i`, with `y` on top of the
/// stack, leaves `y` swapped in its place.
proof fn lemma_call_swap_i32(env: Seq<FunctionView>, fuel: nat, mem: Seq<u8>, b: Seq<InstrView>, i: int, below: Seq<Value>, y: u32, l: Seq<Value>)
    requires
        env.len() >= 1,
        env[0] == swap_i32_bytes_code(),
        0 <= i < b.len(),
        b[i] == InstrView::Call(0),
    ensures
        run(env, fuel, b, i, below.push(Value::I32(y)), l, mem) == run(env, fuel, b, i + 1, below.push(Value::I32(bswap32(y))), l, mem),
{
    let stack = below.push(Value::I32(y));
    let e = Seq::<Value>::empty();
    assert(stack.subrange(below.len() as int, stack.len() as int) + zeros(swap_i32_bytes_code().locals) =~= e.push(Value::I32(y)));
    lemma_swap_i32_run(env.take(0), fuel, mem, y);
    assert(stack.subrange(0, below.len() as int) + e.push(Value::I32(bswap32(y))) =~= below.push(Value::I32(bswap32(y))));
}

/// `swap_i64_bytes` returns its argument with its bytes in reverse order, when the function it
/// calls is `swap_i32_bytes`.
#[verifier::rlimit(30)]
pub proof fn law_swap_i64_bytes(env: Seq<FunctionView>, fuel: nat, mem: Seq<u8>, x: u64)
    requires
        env.len() >= 1,
        env[0] == swap_i32_bytes_code(),
    ensures
        invoke(env, fuel, swap_i64_bytes_code(), args1(Value::I64(x)), mem) == Completion::Returned(args1(Value::I64(bswap64(x))), mem),
{
    let b = swap_i64_bytes_code().body;
    let e = Seq::<Value>::empty();
    let l = e.push(Value::I64(x)).push(Value::I32(0));
    assert(args1(Value::I64(x)) + zeros(swap_i64_bytes_code().locals) =~= l);
    let hi = #[verifier::truncate] ((x >> 32u64) as u32);
    let lo = #[verifier::truncate] (x as u32);
    lemma_wrap32_low_half(x >> 32u64);
    lemma_wrap32_low_half(x);
    let w = |n: u64| Value::I64(n);
    let h = Value::I32(bswap32(hi));
    let l2 = l.update(1, h);
    let low_swapped = bswap32(lo) as u64;
    let shifted = low_swapped << 32u64;
    assert(run(env, fuel, b, 0, e, l, mem) == run(env, fuel, b, 1, e.push(w(x)), l, mem));
    assert(run(env, fuel, b, 1, e.push(w(x)), l, mem) == run(env, fuel, b, 2, e.push(w(x)).push(w(32)), l, mem));
    assert(e.push(w(x)).push(w(32)).drop_last().drop_last() =~= e);
    assert(run(env, fuel, b, 2, e.push(w(x)).push(w(32)), l, mem) == run(env, fuel, b, 3, e.push(w(x >> 32u64)), l, mem));
    assert(e.push(w(x >> 32u64)).drop_last() =~= e);
    assert(run(env, fuel, b, 3, e.push(w(x >> 32u64)), l, mem) == run(env, fuel, b, 4, e.push(Value::I32(hi)), l, mem));
    lemma_call_swap_i32(env, fuel, mem, b, 4, e, hi, l);
    assert(e.push(h).drop_last() =~= e);
    assert(run(env, fuel, b, 5, e.push(h), l, mem) == run(env, fuel, b, 6, e, l2, mem));
    assert(l2[0] == w(x) && l2[1] == h);
    assert(run(env, fuel, b, 6, e, l2, mem) == run(env, fuel, b, 7, e.push(w(x)), l2, mem));
    assert(e.push(w(x)).drop_last() =~= e);
    assert(run(env, fuel, b, 7, e.push(w(x)), l2, mem) == run(env, fuel, b, 8, e.push(Value::I32(lo)), l2, mem));
    lemma_call_swap_i32(env, fuel, mem, b, 8, e, lo, l2);
    assert(e.push(Value::I32(bswap32(lo))).drop_last() =~= e);
    assert(run(env, fuel, b, 9, e.push(Value::I32(bswap32(lo))), l2, mem) == run(env, fuel, b, 10, e.push(w(low_swapped)), l2, mem));
    assert(run(env, fuel, b, 10, e.push(w(low_swapped)), l2, mem) == run(env, fuel, b, 11, e.push(w(low_swapped)).push(w(32)), l2, mem));
    assert(e.push(w(low_swapped)).push(w(32)).drop_last().drop_last() =~= e);
    assert(run(env, fuel, b, 11, e.push(w(low_swapped)).push(w(32)), l2, mem) == run(env, fuel, b, 12, e.push(w(shifted)), l2, mem));
    assert(run(env, fuel, b, 12, e.push(w(shifted)), l2, mem) == run(env, fuel, b, 13, e.push(w(shifted)).push(h), l2, mem));
    assert(e.push(w(shifted)).push(h).drop_last() =~= e.push(w(shifted)));
    assert(run(env, fuel, b, 13, e.push(w(shifted)).push(h), l2, mem)
        == run(env, fuel, b, 14, e.push(w(shifted)).push(w(bswap32(hi) as u64)), l2, mem));
    assert(e.push(w(shifted)).push(w(bswap32(hi) as u64)).drop_last().drop_last() =~= e);
    assert(run(env, fuel, b, 14, e.push(w(shifted)).push(w(bswap32(hi) as u64)), l2, mem)
        == run(env, fuel, b, 15, e.push(w(shifted | (bswap32(hi) as u64))), l2, mem));
    lemma_swap64_halves(x);
}

/// Builds the function that swaps the bytes of an `i64`: it swaps each half with the function
/// that swaps the bytes of an `i32` (callee 0) and exchanges the halves.
#[verifier::rlimit(30)]
pub fn swap_i64_bytes_function() -> (r: FunctionBody)
    ensures
        r@ == swap_i64_bytes_code(),
        forall|env: Seq<FunctionView>, fuel: nat, mem: Seq<u8>, x: u64| env.len() >= 1 && env[0] == swap_i32_bytes_code()
            ==> #[trigger] invoke(env, fuel, r@, args1(Value::I64(x)), mem) == Completion::Returned(args1(Value::I64(bswap64(x))), mem),
{
    let mut body: Vec<Instr> = Vec::new();
    // Swap the upper half and keep it
    push_instr(&mut body, Instr::LocalGet(0));
    push_instr(&mut body, Instr::I64Const(32));
    push_instr(&mut body, Instr::Binop(BinaryOp::I64ShrU));
    push_instr(&mut body, Instr::Unop(UnaryOp::I32WrapI64));
    push_instr(&mut body, Instr::Call(0));
    push_instr(&mut body, Instr::LocalSet(1));
    // Swap the lower half and move it up
    push_instr(&mut body, Instr::LocalGet(0));
    push_instr(&mut body, Instr::Unop(UnaryOp::I32WrapI64));
    push_instr(&mut body, Instr::Call(0));
    push_instr(&mut body, Instr::Unop(UnaryOp::I64ExtendUI32));
    push_instr(&mut body, Instr::I64Const(32));
    push_instr(&mut body, Instr::Binop(BinaryOp::I64Shl));
    // Join the halves
    push_instr(&mut body, Instr::LocalGet(1));
    push_instr(&mut body, Instr::Unop(UnaryOp::I64ExtendUI32));
    push_instr(&mut body, Instr::Binop(BinaryOp::I64Or));
    let r = FunctionBody {
        name: String::from_str(RuntimeFunction::SwapI64Bytes.name()),
        params: vec![ValType::I64],
        results: vec![ValType::I64],
        locals: vec![ValType::I32],
        body,
    };
    proof {
        assert(r@.params =~= swap_i64_bytes_code().params);
        assert(r@.results =~= swap_i64_bytes_code().results);
        assert(r@.locals =~= swap_i64_bytes_code().locals);
        assert(r@.name == swap_i64_bytes_code().name);
        assert(r@.body =~= swap_i64_bytes_code().body);
        assert forall|env: Seq<FunctionView>, fuel: nat, mem: Seq<u8>, x: u64| env.len() >= 1 && env[0] == swap_i32_bytes_code()
            implies #[trigger] invoke(env, fuel, r@, args1(Value::I64(x)), mem) == Completion::Returned(args1(Value::I64(bswap64(x))), mem) by {
            law_swap_i64_bytes(env, fuel, mem, x);
        }
    }
    r
}

} // verus!

verus! {

/// The four bytes of a `u32`, least significant first, are its bytes by `byte32`.
proof fn lemma_le_bytes4(x: u32)
    ensures
        le_bytes(x as nat, 4) == seq![byte32(x, 0) as u8, byte32(x, 1) as u8, byte32(x, 2) as u8, byte32(x, 3) as u8],
{
    reveal_with_fuel(le_bytes, 5);
    assert((x % 256) == byte32(x, 0)) by (bit_vector);
    assert(((x / 256) % 256) == byte32(x, 1)) by (bit_vector);
    assert((((x / 256) / 256) % 256) == byte32(x, 2)) by (bit_vector);
    assert(((((x / 256) / 256) / 256) % 256) == byte32(x, 3)) by (bit_vector);
    assert(le_bytes(x as nat, 4) =~= seq![byte32(x, 0) as u8, byte32(x, 1) as u8, byte32(x, 2) as u8, byte32(x, 3) as u8]);
}

/// The bytes of `bswap32(x)`, least significant first, are those of `x` in reverse order: the
/// swap turns a little-endian number into a big-endian one and back.
pub proof fn law_bswap32_le_bytes(x: u32)
    ensures
        le_bytes(bswap32(x) as nat, 4) == le_bytes(x as nat, 4).reverse(),
{
    lemma_le_bytes4(x);
    lemma_le_bytes4(bswap32(x));
    law_bswap32_reverses_bytes(x);
    assert(le_bytes(bswap32(x) as nat, 4) =~= le_bytes(x as nat, 4).reverse());
}

/// The eight bytes of a `u64`, least significant first, are its bytes by `byte64`.
proof fn lemma_le_bytes8(x: u64)
    ensures
        le_bytes(x as nat, 8) == seq![
            byte64(x, 0) as u8, byte64(x, 1) as u8, byte64(x, 2) as u8, byte64(x, 3) as u8,
            byte64(x, 4) as u8, byte64(x, 5) as u8, byte64(x, 6) as u8, byte64(x, 7) as u8,
        ],
{
    reveal_with_fuel(le_bytes, 9);
    assert((x % 256) == byte64(x, 0)) by (bit_vector);
    assert(((x / 256) % 256) == byte64(x, 1)) by (bit_vector);
    assert((((x / 256) / 256) % 256) == byte64(x, 2)) by (bit_vector);
    assert(((((x / 256) / 256) / 256) % 256) == byte64(x, 3)) by (bit_vector);
    assert((((((x / 256) / 256) / 256) / 256) % 256) == byte64(x, 4)) by (bit_vector);
    assert(((((((x / 256) / 256) / 256) / 256) / 256) % 256) == byte64(x, 5)) by (bit_vector);
    assert((((((((x / 256) / 256) / 256) / 256) / 256) / 256) % 256) == byte64(x, 6)) by (bit_vector);
    assert(((((((((x / 256) / 256) / 256) / 256) / 256) / 256) / 256) % 256) == byte64(x, 7)) by (bit_vector);
    assert(le_bytes(x as nat, 8) =~= seq![
        byte64(x, 0) as u8, byte64(x, 1) as u8, byte64(x, 2) as u8, byte64(x, 3) as u8,
        byte64(x, 4) as u8, byte64(x, 5) as u8, byte64(x, 6) as u8, byte64(x, 7) as u8,
    ]);
}

/// The bytes of `bswap64(x)`, least significant first, are those of `x` in reverse order.
pub proof fn law_bswap64_le_bytes(x: u64)
    ensures
        le_bytes(bswap64(x) as nat, 8) == le_bytes(x as nat, 8).reverse(),
{
    lemma_le_bytes8(x);
    lemma_le_bytes8(bswap64(x));
    law_bswap64_reverses_bytes(x);
    assert(le_bytes(bswap64(x) as nat, 8) =~= le_bytes(x as nat, 8).reverse());
}

} // verus!
