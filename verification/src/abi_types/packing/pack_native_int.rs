//! Writing `u8`, `u16`, `u32`, `u64` and `bool` values as ABI words: a native integer is
//! written big-endian in the last bytes of its 32-byte word, which is left-padded.
use vstd::prelude::*;

use crate::runtime::swap::{
    bswap32, bswap64, law_bswap32_le_bytes, law_bswap64_le_bytes, law_swap_i32_bytes,
    law_swap_i64_bytes, swap_i32_bytes_code, swap_i64_bytes_code,
};
use crate::wasm::{
    FunctionView, Instr, InstrView, ValType, Value, encode, instrs_view, le_bytes,
    lemma_call_returning, lemma_le_bytes_len, lemma_snippet, push_instr, run, write_bytes,
};

verus! {

/// The instructions that write the `i32` in local `local` big-endian in the last four bytes of
/// the word at the address in local `writer`; `swap` is the callee that swaps the bytes of an
/// `i32`.
pub open spec fn pack_i32_code(local: u32, writer: u32, swap: u32) -> Seq<InstrView> {
    seq![InstrView::LocalGet(writer), InstrView::LocalGet(local), InstrView::Call(swap), InstrView::Store(ValType::I32, 28)]
}

/// The instructions that write the `i64` in local `local` big-endian in the last eight bytes of
/// the word at the address in local `writer`; `swap` is the callee that swaps the bytes of an
/// `i64`.
pub open spec fn pack_i64_code(local: u32, writer: u32, swap: u32) -> Seq<InstrView> {
    seq![InstrView::LocalGet(writer), InstrView::LocalGet(local), InstrView::Call(swap), InstrView::Store(ValType::I64, 24)]
}

/// Appends the instructions that pack the `i32` in local `local` as an ABI word at the address
/// in local `writer_pointer`, calling callee `swap_i32_bytes` to make it big-endian.
#[verifier::rlimit(30)]
pub fn pack_i32_type_instructions(block: &mut Vec<Instr>, local: u32, writer_pointer: u32, swap_i32_bytes: u32)
    ensures
        instrs_view(final(block)@) == instrs_view(old(block)@) + pack_i32_code(local, writer_pointer, swap_i32_bytes),
{
    let ghost before = instrs_view(block@);
    push_instr(block, Instr::LocalGet(writer_pointer));
    // Load the local value to the stack
    push_instr(block, Instr::LocalGet(local));
    // Little-endian to big-endian
    push_instr(block, Instr::Call(swap_i32_bytes));
    // The ABI word is left-padded to 32 bytes
    push_instr(block, Instr::Store(ValType::I32, 28));
    assert(instrs_view(block@) =~= before + pack_i32_code(local, writer_pointer, swap_i32_bytes));
}

/// Appends the instructions that pack the `i64` in local `local` as an ABI word at the address
/// in local `writer_pointer`, calling callee `swap_i64_bytes` to make it big-endian.
#[verifier::rlimit(30)]
pub fn pack_i64_type_instructions(block: &mut Vec<Instr>, local: u32, writer_pointer: u32, swap_i64_bytes: u32)
    ensures
        instrs_view(final(block)@) == instrs_view(old(block)@) + pack_i64_code(local, writer_pointer, swap_i64_bytes),
{
    let ghost before = instrs_view(block@);
    push_instr(block, Instr::LocalGet(writer_pointer));
    // Load the local value to the stack
    push_instr(block, Instr::LocalGet(local));
    // Little-endian to big-endian
    push_instr(block, Instr::Call(swap_i64_bytes));
    // The ABI word is left-padded to 32 bytes
    push_instr(block, Instr::Store(ValType::I64, 24));
    assert(instrs_view(block@) =~= before + pack_i64_code(local, writer_pointer, swap_i64_bytes));
}

/// Running the packing of an `i32` `x` at address `w`: its four bytes are written in reverse
/// order, that is big-endian, in the last four bytes of the word at `w`.
#[verifier::rlimit(30)]
pub proof fn law_pack_i32(env: Seq<FunctionView>, fuel: nat, b: Seq<InstrView>, i: int, s: Seq<Value>, l: Seq<Value>, mem: Seq<u8>, local: u32, writer: u32, swap: u32, x: u32, w: u32)
    requires
        0 <= i,
        i + 4 <= b.len(),
        b.subrange(i, i + 4) == pack_i32_code(local, writer, swap),
        swap < env.len(),
        env[swap as int] == swap_i32_bytes_code(),
        local < l.len(),
        writer < l.len(),
        l[local as int] == Value::I32(x),
        l[writer as int] == Value::I32(w),
        w + 32 <= mem.len(),
    ensures
        run(env, fuel, b, i, s, l, mem) == run(env, fuel, b, i + 4, s, l, write_bytes(mem, w + 28, le_bytes(x as nat, 4).reverse())),
{
    lemma_snippet(b, i, pack_i32_code(local, writer, swap));
    assert(b[i + 2] == InstrView::Call(swap));
    let sw = s.push(Value::I32(w));
    assert(run(env, fuel, b, i, s, l, mem) == run(env, fuel, b, i + 1, sw, l, mem));
    assert(run(env, fuel, b, i + 1, sw, l, mem) == run(env, fuel, b, i + 2, sw.push(Value::I32(x)), l, mem));
    law_swap_i32_bytes(env.take(swap as int), fuel, mem, x);
    assert(sw + seq![Value::I32(x)] =~= sw.push(Value::I32(x)));
    assert(sw + seq![Value::I32(bswap32(x))] =~= sw.push(Value::I32(bswap32(x))));
    lemma_call_returning(env, fuel, mem, b, i + 2, sw, l, swap, seq![Value::I32(x)], seq![Value::I32(bswap32(x))], mem);
    law_bswap32_le_bytes(x);
    lemma_le_bytes_len(bswap32(x) as nat, 4);
    assert(sw.push(Value::I32(bswap32(x))).drop_last().drop_last() =~= s);
    assert(encode(ValType::I32, Value::I32(bswap32(x))) == Some(le_bytes(x as nat, 4).reverse()));
}

/// Running the packing of an `i64` `x` at address `w`: its eight bytes are written in reverse
/// order, that is big-endian, in the last eight bytes of the word at `w`.
#[verifier::rlimit(30)]
pub proof fn law_pack_i64(env: Seq<FunctionView>, fuel: nat, b: Seq<InstrView>, i: int, s: Seq<Value>, l: Seq<Value>, mem: Seq<u8>, local: u32, writer: u32, swap: u32, x: u64, w: u32)
    requires
        0 <= i,
        i + 4 <= b.len(),
        b.subrange(i, i + 4) == pack_i64_code(local, writer, swap),
        1 <= swap < env.len(),
        env[swap as int] == swap_i64_bytes_code(),
        env[0] == swap_i32_bytes_code(),
        local < l.len(),
        writer < l.len(),
        l[local as int] == Value::I64(x),
        l[writer as int] == Value::I32(w),
        w + 32 <= mem.len(),
    ensures
        run(env, fuel, b, i, s, l, mem) == run(env, fuel, b, i + 4, s, l, write_bytes(mem, w + 24, le_bytes(x as nat, 8).reverse())),
{
    lemma_snippet(b, i, pack_i64_code(local, writer, swap));
    assert(b[i + 2] == InstrView::Call(swap));
    let sw = s.push(Value::I32(w));
    assert(run(env, fuel, b, i, s, l, mem) == run(env, fuel, b, i + 1, sw, l, mem));
    assert(run(env, fuel, b, i + 1, sw, l, mem) == run(env, fuel, b, i + 2, sw.push(Value::I64(x)), l, mem));
    law_swap_i64_bytes(env.take(swap as int), fuel, mem, x);
    assert(sw + seq![Value::I64(x)] =~= sw.push(Value::I64(x)));
    assert(sw + seq![Value::I64(bswap64(x))] =~= sw.push(Value::I64(bswap64(x))));
    lemma_call_returning(env, fuel, mem, b, i + 2, sw, l, swap, seq![Value::I64(x)], seq![Value::I64(bswap64(x))], mem);
    law_bswap64_le_bytes(x);
    lemma_le_bytes_len(bswap64(x) as nat, 8);
    assert(sw.push(Value::I64(bswap64(x))).drop_last().drop_last() =~= s);
    assert(encode(ValType::I64, Value::I64(bswap64(x))) == Some(le_bytes(x as nat, 8).reverse()));
}

} // verus!
