//! Reading `u8`, `u16`, `u32`, `u64` and `bool` arguments from ABI words: the value is the
//! big-endian number in the last bytes of the word at the reader pointer, which then moves past
//! the word.
use vstd::prelude::*;

use crate::abi_types::packing::{
    encoded_size_bool, encoded_size_uint16, encoded_size_uint32, encoded_size_uint64, encoded_size_uint8,
};
use crate::intermediate_types::{IBool, IU16, IU32, IU64, IU8};
use crate::runtime::swap::{
    bswap32, bswap64, law_bswap32_le_bytes, law_bswap64_le_bytes, law_swap_i32_bytes,
    law_swap_i64_bytes, swap_i32_bytes_code, swap_i64_bytes_code,
};
use crate::wasm::{
    BinaryOp, FunctionView, Instr, InstrView, ValType, Value, be_value, instrs_view, le_bytes,
    le_value, lemma_call_returning, lemma_le_bytes_of_value, lemma_le_value_fits,
    lemma_le_value_of_bytes, lemma_snippet, pow256, push_instr, run, wrap32, write_bytes,
    lemma_le_bytes_len, lemma_write_bytes,
};
use crate::abi_types::packing::pack_native_int::{law_pack_i32, law_pack_i64, pack_i32_code, pack_i64_code};

verus! {

/// The instructions that push the `i32` read big-endian from the last four bytes of the word at
/// the address in local `reader` and move the reader `size` bytes on; `swap` is the callee that
/// swaps the bytes of an `i32`.
pub open spec fn unpack_i32_code(reader: u32, size: u32, swap: u32) -> Seq<InstrView> {
    seq![
        InstrView::LocalGet(reader),
        InstrView::Load(ValType::I32, 28),
        InstrView::Call(swap),
        InstrView::LocalGet(reader),
        InstrView::I32Const(size),
        InstrView::Binop(BinaryOp::I32Add),
        InstrView::LocalSet(reader),
    ]
}

/// The instructions that push the `i64` read big-endian from the last eight bytes of the word
/// at the address in local `reader` and move the reader `size` bytes on; `swap` is the callee
/// that swaps the bytes of an `i64`.
pub open spec fn unpack_i64_code(reader: u32, size: u32, swap: u32) -> Seq<InstrView> {
    seq![
        InstrView::LocalGet(reader),
        InstrView::Load(ValType::I64, 24),
        InstrView::Call(swap),
        InstrView::LocalGet(reader),
        InstrView::I32Const(size),
        InstrView::Binop(BinaryOp::I32Add),
        InstrView::LocalSet(reader),
    ]
}

/// Appends the instructions that read an `i32` argument at the reader pointer in local
/// `reader_pointer` and move it `encoded_size` bytes on, calling callee `swap_i32_bytes` to
/// make the value little-endian.
#[verifier::rlimit(30)]
pub fn unpack_i32_type_instructions(block: &mut Vec<Instr>, reader_pointer: u32, encoded_size: usize, swap_i32_bytes: u32)
    ensures
        instrs_view(final(block)@) == instrs_view(old(block)@) + unpack_i32_code(reader_pointer, encoded_size as u32, swap_i32_bytes),
{
    let ghost before = instrs_view(block@);
    // Load the value; the ABI word is left-padded to 32 bytes
    push_instr(block, Instr::LocalGet(reader_pointer));
    push_instr(block, Instr::Load(ValType::I32, 28));
    // Big-endian to little-endian
    push_instr(block, Instr::Call(swap_i32_bytes));
    // Move the reader pointer on
    push_instr(block, Instr::LocalGet(reader_pointer));
    push_instr(block, Instr::I32Const(encoded_size as u32));
    push_instr(block, Instr::Binop(BinaryOp::I32Add));
    push_instr(block, Instr::LocalSet(reader_pointer));
    assert(instrs_view(block@) =~= before + unpack_i32_code(reader_pointer, encoded_size as u32, swap_i32_bytes));
}

/// Appends the instructions that read an `i64` argument at the reader pointer in local
/// `reader_pointer` and move it `encoded_size` bytes on, calling callee `swap_i64_bytes` to
/// make the value little-endian.
#[verifier::rlimit(30)]
pub fn unpack_i64_type_instructions(block: &mut Vec<Instr>, reader_pointer: u32, encoded_size: usize, swap_i64_bytes: u32)
    ensures
        instrs_view(final(block)@) == instrs_view(old(block)@) + unpack_i64_code(reader_pointer, encoded_size as u32, swap_i64_bytes),
{
    let ghost before = instrs_view(block@);
    // Load the value; the ABI word is left-padded to 32 bytes
    push_instr(block, Instr::LocalGet(reader_pointer));
    push_instr(block, Instr::Load(ValType::I64, 24));
    // Big-endian to little-endian
    push_instr(block, Instr::Call(swap_i64_bytes));
    // Move the reader pointer on
    push_instr(block, Instr::LocalGet(reader_pointer));
    push_instr(block, Instr::I32Const(encoded_size as u32));
    push_instr(block, Instr::Binop(BinaryOp::I32Add));
    push_instr(block, Instr::LocalSet(reader_pointer));
    assert(instrs_view(block@) =~= before + unpack_i64_code(reader_pointer, encoded_size as u32, swap_i64_bytes));
}

/// Swapping the bytes of the `u32` stored little-endian in four bytes gives the number that
/// they encode big-endian.
pub(crate) proof fn lemma_bswap32_be(bytes: Seq<u8>)
    requires
        bytes.len() == 4,
    ensures
        bswap32(le_value(bytes) as u32) == be_value(bytes),
{
    lemma_le_value_fits(bytes);
    let y = le_value(bytes) as u32;
    lemma_le_bytes_of_value(bytes);
    law_bswap32_le_bytes(y);
    lemma_le_value_of_bytes(bswap32(y) as nat, 4);
    assert(pow256(4) == 0x1_0000_0000) by {
        reveal_with_fuel(pow256, 5);
    }
}

/// Swapping the bytes of the `u64` stored little-endian in eight bytes gives the number that
/// they encode big-endian.
proof fn lemma_bswap64_be(bytes: Seq<u8>)
    requires
        bytes.len() == 8,
    ensures
        bswap64(le_value(bytes) as u64) == be_value(bytes),
{
    lemma_le_value_fits(bytes);
    let y = le_value(bytes) as u64;
    lemma_le_bytes_of_value(bytes);
    law_bswap64_le_bytes(y);
    lemma_le_value_of_bytes(bswap64(y) as nat, 8);
    assert(pow256(8) == 0x1_0000_0000_0000_0000) by {
        reveal_with_fuel(pow256, 9);
    }
}

/// Running the reading of an `i32` argument at address `r`: the value pushed is the number in
/// the last four bytes of the word, read big-endian, and the reader moves `size` bytes on.
#[verifier::rlimit(30)]
pub proof fn law_unpack_i32(env: Seq<FunctionView>, fuel: nat, b: Seq<InstrView>, i: int, s: Seq<Value>, l: Seq<Value>, mem: Seq<u8>, reader: u32, size: u32, swap: u32, r: u32)
    requires
        0 <= i,
        i + 7 <= b.len(),
        b.subrange(i, i + 7) == unpack_i32_code(reader, size, swap),
        swap < env.len(),
        env[swap as int] == swap_i32_bytes_code(),
        reader < l.len(),
        l[reader as int] == Value::I32(r),
        r + 32 <= mem.len(),
    ensures
        run(env, fuel, b, i, s, l, mem) == run(env, fuel, b, i + 7,
            s.push(Value::I32(be_value(mem.subrange(r + 28, r + 32)) as u32)), l.update(reader as int, Value::I32(wrap32(r + size))), mem),
{
    lemma_snippet(b, i, unpack_i32_code(reader, size, swap));
    assert(b[i + 2] == InstrView::Call(swap));
    let bytes = mem.subrange(r + 28, r + 32);
    let y = le_value(bytes) as u32;
    lemma_bswap32_be(bytes);
    let v = Value::I32(bswap32(y));
    assert(run(env, fuel, b, i, s, l, mem) == run(env, fuel, b, i + 1, s.push(Value::I32(r)), l, mem));
    assert(s.push(Value::I32(r)).drop_last() =~= s);
    assert(run(env, fuel, b, i + 1, s.push(Value::I32(r)), l, mem) == run(env, fuel, b, i + 2, s.push(Value::I32(y)), l, mem));
    law_swap_i32_bytes(env.take(swap as int), fuel, mem, y);
    assert(s + seq![Value::I32(y)] =~= s.push(Value::I32(y)));
    assert(s + seq![v] =~= s.push(v));
    lemma_call_returning(env, fuel, mem, b, i + 2, s, l, swap, seq![Value::I32(y)], seq![v], mem);
    let sv = s.push(v);
    assert(run(env, fuel, b, i + 3, sv, l, mem) == run(env, fuel, b, i + 4, sv.push(Value::I32(r)), l, mem));
    assert(run(env, fuel, b, i + 4, sv.push(Value::I32(r)), l, mem)
        == run(env, fuel, b, i + 5, sv.push(Value::I32(r)).push(Value::I32(size)), l, mem));
    assert(sv.push(Value::I32(r)).push(Value::I32(size)).drop_last().drop_last() =~= sv);
    let n = Value::I32(wrap32(r + size));
    assert(run(env, fuel, b, i + 5, sv.push(Value::I32(r)).push(Value::I32(size)), l, mem)
        == run(env, fuel, b, i + 6, sv.push(n), l, mem));
    assert(sv.push(n).drop_last() =~= sv);
}

/// Running the reading of an `i64` argument at address `r`: the value pushed is the number in
/// the last eight bytes of the word, read big-endian, and the reader moves `size` bytes on.
#[verifier::rlimit(30)]
pub proof fn law_unpack_i64(env: Seq<FunctionView>, fuel: nat, b: Seq<InstrView>, i: int, s: Seq<Value>, l: Seq<Value>, mem: Seq<u8>, reader: u32, size: u32, swap: u32, r: u32)
    requires
        0 <= i,
        i + 7 <= b.len(),
        b.subrange(i, i + 7) == unpack_i64_code(reader, size, swap),
        1 <= swap < env.len(),
        env[swap as int] == swap_i64_bytes_code(),
        env[0] == swap_i32_bytes_code(),
        reader < l.len(),
        l[reader as int] == Value::I32(r),
        r + 32 <= mem.len(),
    ensures
        run(env, fuel, b, i, s, l, mem) == run(env, fuel, b, i + 7,
            s.push(Value::I64(be_value(mem.subrange(r + 24, r + 32)) as u64)), l.update(reader as int, Value::I32(wrap32(r + size))), mem),
{
    lemma_snippet(b, i, unpack_i64_code(reader, size, swap));
    assert(b[i + 2] == InstrView::Call(swap));
    let bytes = mem.subrange(r + 24, r + 32);
    let y = le_value(bytes) as u64;
    lemma_bswap64_be(bytes);
    let v = Value::I64(bswap64(y));
    assert(run(env, fuel, b, i, s, l, mem) == run(env, fuel, b, i + 1, s.push(Value::I32(r)), l, mem));
    assert(s.push(Value::I32(r)).drop_last() =~= s);
    assert(run(env, fuel, b, i + 1, s.push(Value::I32(r)), l, mem) == run(env, fuel, b, i + 2, s.push(Value::I64(y)), l, mem));
    law_swap_i64_bytes(env.take(swap as int), fuel, mem, y);
    assert(s + seq![Value::I64(y)] =~= s.push(Value::I64(y)));
    assert(s + seq![v] =~= s.push(v));
    lemma_call_returning(env, fuel, mem, b, i + 2, s, l, swap, seq![Value::I64(y)], seq![v], mem);
    let sv = s.push(v);
    assert(run(env, fuel, b, i + 3, sv, l, mem) == run(env, fuel, b, i + 4, sv.push(Value::I32(r)), l, mem));
    assert(run(env, fuel, b, i + 4, sv.push(Value::I32(r)), l, mem)
        == run(env, fuel, b, i + 5, sv.push(Value::I32(r)).push(Value::I32(size)), l, mem));
    assert(sv.push(Value::I32(r)).push(Value::I32(size)).drop_last().drop_last() =~= sv);
    let n = Value::I32(wrap32(r + size));
    assert(run(env, fuel, b, i + 5, sv.push(Value::I32(r)).push(Value::I32(size)), l, mem)
        == run(env, fuel, b, i + 6, sv.push(n), l, mem));
    assert(sv.push(n).drop_last() =~= sv);
}

impl IBool {
    /// Appends the instructions that read a `bool` argument at the reader pointer in local
    /// `reader_pointer`, calling callee `swap_i32_bytes`; the calldata reader pointer is not used.
    pub fn add_unpack_instructions(block: &mut Vec<Instr>, reader_pointer: u32, calldata_reader_pointer: u32, swap_i32_bytes: u32)
        ensures
            instrs_view(final(block)@) == instrs_view(old(block)@) + unpack_i32_code(reader_pointer, 32, swap_i32_bytes),
    {
        let encoded_size = encoded_size_bool();
        unpack_i32_type_instructions(block, reader_pointer, encoded_size, swap_i32_bytes);
    }
}

impl IU8 {
    /// Appends the instructions that read a `u8` argument at the reader pointer in local
    /// `reader_pointer`, calling callee `swap_i32_bytes`; the calldata reader pointer is not used.
    pub fn add_unpack_instructions(block: &mut Vec<Instr>, reader_pointer: u32, calldata_reader_pointer: u32, swap_i32_bytes: u32)
        ensures
            instrs_view(final(block)@) == instrs_view(old(block)@) + unpack_i32_code(reader_pointer, 32, swap_i32_bytes),
    {
        let encoded_size = encoded_size_uint8();
        unpack_i32_type_instructions(block, reader_pointer, encoded_size, swap_i32_bytes);
    }
}

impl IU16 {
    /// Appends the instructions that read a `u16` argument at the reader pointer in local
    /// `reader_pointer`, calling callee `swap_i32_bytes`; the calldata reader pointer is not used.
    pub fn add_unpack_instructions(block: &mut Vec<Instr>, reader_pointer: u32, calldata_reader_pointer: u32, swap_i32_bytes: u32)
        ensures
            instrs_view(final(block)@) == instrs_view(old(block)@) + unpack_i32_code(reader_pointer, 32, swap_i32_bytes),
    {
        let encoded_size = encoded_size_uint16();
        unpack_i32_type_instructions(block, reader_pointer, encoded_size, swap_i32_bytes);
    }
}

impl IU32 {
    /// Appends the instructions that read a `u32` argument at the reader pointer in local
    /// `reader_pointer`, calling callee `swap_i32_bytes`; the calldata reader pointer is not used.
    pub fn add_unpack_instructions(block: &mut Vec<Instr>, reader_pointer: u32, calldata_reader_pointer: u32, swap_i32_bytes: u32)
        ensures
            instrs_view(final(block)@) == instrs_view(old(block)@) + unpack_i32_code(reader_pointer, 32, swap_i32_bytes),
    {
        let encoded_size = encoded_size_uint32();
        unpack_i32_type_instructions(block, reader_pointer, encoded_size, swap_i32_bytes);
    }
}

impl IU64 {
    /// Appends the instructions that read a `u64` argument at the reader pointer in local
    /// `reader_pointer`, calling callee `swap_i64_bytes`; the calldata reader pointer is not used.
    pub fn add_unpack_instructions(block: &mut Vec<Instr>, reader_pointer: u32, calldata_reader_pointer: u32, swap_i64_bytes: u32)
        ensures
            instrs_view(final(block)@) == instrs_view(old(block)@) + unpack_i64_code(reader_pointer, 32, swap_i64_bytes),
    {
        let encoded_size = encoded_size_uint64();
        unpack_i64_type_instructions(block, reader_pointer, encoded_size, swap_i64_bytes);
    }
}

/// Reading back an `i32` packed into the word at `w`, with the reader at `w`, gives the value
/// that was packed, and moves the reader past the word.
pub proof fn law_pack_then_unpack_i32(env: Seq<FunctionView>, fuel: nat, b: Seq<InstrView>, i: int, s: Seq<Value>, l: Seq<Value>, mem: Seq<u8>, local: u32, writer: u32, reader: u32, swap: u32, x: u32, w: u32)
    requires
        0 <= i,
        i + 11 <= b.len(),
        b.subrange(i, i + 4) == pack_i32_code(local, writer, swap),
        b.subrange(i + 4, i + 11) == unpack_i32_code(reader, 32, swap),
        swap < env.len(),
        env[swap as int] == swap_i32_bytes_code(),
        local < l.len(),
        writer < l.len(),
        reader < l.len(),
        l[local as int] == Value::I32(x),
        l[writer as int] == Value::I32(w),
        l[reader as int] == Value::I32(w),
        w + 32 <= mem.len(),
        w + 32 <= u32::MAX,
    ensures
        run(env, fuel, b, i, s, l, mem) == run(env, fuel, b, i + 11, s.push(Value::I32(x)),
            l.update(reader as int, Value::I32((w + 32) as u32)), write_bytes(mem, w + 28, le_bytes(x as nat, 4).reverse())),
{
    law_pack_i32(env, fuel, b, i, s, l, mem, local, writer, swap, x, w);
    let bytes = le_bytes(x as nat, 4);
    lemma_le_bytes_len(x as nat, 4);
    let m = write_bytes(mem, w + 28, bytes.reverse());
    lemma_write_bytes(mem, w + 28, bytes.reverse());
    law_unpack_i32(env, fuel, b, i + 4, s, l, m, reader, 32, swap, w);
    assert(m.subrange(w + 28, w + 32).reverse() =~= bytes);
    lemma_le_value_of_bytes(x as nat, 4);
    assert(pow256(4) == 0x1_0000_0000) by {
        reveal_with_fuel(pow256, 5);
    }
}

/// Reading back an `i64` packed into the word at `w`, with the reader at `w`, gives the value
/// that was packed, and moves the reader past the word.
pub proof fn law_pack_then_unpack_i64(env: Seq<FunctionView>, fuel: nat, b: Seq<InstrView>, i: int, s: Seq<Value>, l: Seq<Value>, mem: Seq<u8>, local: u32, writer: u32, reader: u32, swap: u32, x: u64, w: u32)
    requires
        0 <= i,
        i + 11 <= b.len(),
        b.subrange(i, i + 4) == pack_i64_code(local, writer, swap),
        b.subrange(i + 4, i + 11) == unpack_i64_code(reader, 32, swap),
        1 <= swap < env.len(),
        env[swap as int] == swap_i64_bytes_code(),
        env[0] == swap_i32_bytes_code(),
        local < l.len(),
        writer < l.len(),
        reader < l.len(),
        l[local as int] == Value::I64(x),
        l[writer as int] == Value::I32(w),
        l[reader as int] == Value::I32(w),
        w + 32 <= mem.len(),
        w + 32 <= u32::MAX,
    ensures
        run(env, fuel, b, i, s, l, mem) == run(env, fuel, b, i + 11, s.push(Value::I64(x)),
            l.update(reader as int, Value::I32((w + 32) as u32)), write_bytes(mem, w + 24, le_bytes(x as nat, 8).reverse())),
{
    law_pack_i64(env, fuel, b, i, s, l, mem, local, writer, swap, x, w);
    let bytes = le_bytes(x as nat, 8);
    lemma_le_bytes_len(x as nat, 8);
    let m = write_bytes(mem, w + 24, bytes.reverse());
    lemma_write_bytes(mem, w + 24, bytes.reverse());
    law_unpack_i64(env, fuel, b, i + 4, s, l, m, reader, 32, swap, w);
    assert(m.subrange(w + 24, w + 32).reverse() =~= bytes);
    lemma_le_value_of_bytes(x as nat, 8);
    assert(pow256(8) == 0x1_0000_0000_0000_0000) by {
        reveal_with_fuel(pow256, 9);
    }
}

} // verus!
