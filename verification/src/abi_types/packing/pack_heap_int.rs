//! Writing `u128`, `u256`, `address` and `signer` values, kept in memory, as ABI words: a
//! number is written big-endian at the end of its word, an address as it is kept.
use vstd::prelude::*;

use crate::intermediate_types::{IAddress, ISigner, IU128, IU256};
use crate::runtime::swap::{bswap64, law_bswap64_le_bytes, law_swap_i64_bytes, swap_i32_bytes_code, swap_i64_bytes_code};
use crate::wasm::{
    FunctionView, Instr, InstrView, ValType, Value, decode, encode, instrs_view, le_value,
    lemma_call_returning, lemma_encode_decode, lemma_le_bytes_of_value,
    lemma_le_value_fits, lemma_snippet, lemma_write_bytes, lemma_write_bytes_elsewhere, push_instr, run,
    write_bytes,
};

verus! {

/// The instructions that load the eight bytes at offset `lo` of the number whose address is in
/// local `local`, swap them with callee `swap`, and store them at offset `so` of the word whose
/// address is in local `writer`.
pub open spec fn pack_part_code(local: u32, writer: u32, lo: u32, so: u32, swap: u32) -> Seq<InstrView> {
    seq![
        InstrView::LocalGet(writer),
        InstrView::LocalGet(local),
        InstrView::Load(ValType::I64, lo),
        InstrView::Call(swap),
        InstrView::Store(ValType::I64, so),
    ]
}

/// The instructions that copy the eight bytes at offset `o` of the value whose address is in
/// local `local` to offset `o` of the word whose address is in local `writer`.
pub open spec fn copy_part_code(local: u32, writer: u32, o: u32) -> Seq<InstrView> {
    seq![
        InstrView::LocalGet(writer),
        InstrView::LocalGet(local),
        InstrView::Load(ValType::I64, o),
        InstrView::Store(ValType::I64, o),
    ]
}

/// The instructions that pack a `u128`.
pub open spec fn pack_u128_code(local: u32, writer: u32, swap: u32) -> Seq<InstrView> {
    pack_part_code(local, writer, 8, 16, swap) + pack_part_code(local, writer, 0, 24, swap)
}

/// The instructions that pack a `u256`.
pub open spec fn pack_u256_code(local: u32, writer: u32, swap: u32) -> Seq<InstrView> {
    pack_part_code(local, writer, 24, 0, swap) + pack_part_code(local, writer, 16, 8, swap)
        + pack_part_code(local, writer, 8, 16, swap) + pack_part_code(local, writer, 0, 24, swap)
}

/// The instructions that pack an address.
pub open spec fn pack_address_code(local: u32, writer: u32) -> Seq<InstrView> {
    copy_part_code(local, writer, 0) + copy_part_code(local, writer, 8) + copy_part_code(local, writer, 16)
        + copy_part_code(local, writer, 24)
}

/// Appends the instructions of `pack_part_code`.
#[verifier::rlimit(30)]
fn pack_part(block: &mut Vec<Instr>, local: u32, writer: u32, lo: u32, so: u32, swap: u32)
    ensures
        instrs_view(final(block)@) == instrs_view(old(block)@) + pack_part_code(local, writer, lo, so, swap),
{
    let ghost before = instrs_view(block@);
    push_instr(block, Instr::LocalGet(writer));
    push_instr(block, Instr::LocalGet(local));
    push_instr(block, Instr::Load(ValType::I64, lo));
    push_instr(block, Instr::Call(swap));
    push_instr(block, Instr::Store(ValType::I64, so));
    assert(instrs_view(block@) =~= before + pack_part_code(local, writer, lo, so, swap));
}

/// Appends the instructions of `copy_part_code`.
#[verifier::rlimit(30)]
fn copy_part(block: &mut Vec<Instr>, local: u32, writer: u32, o: u32)
    ensures
        instrs_view(final(block)@) == instrs_view(old(block)@) + copy_part_code(local, writer, o),
{
    let ghost before = instrs_view(block@);
    push_instr(block, Instr::LocalGet(writer));
    push_instr(block, Instr::LocalGet(local));
    push_instr(block, Instr::Load(ValType::I64, o));
    push_instr(block, Instr::Store(ValType::I64, o));
    assert(instrs_view(block@) =~= before + copy_part_code(local, writer, o));
}

impl IU128 {
    /// Appends the instructions that pack the `u128` at the address in local `local` into the
    /// word at the address in local `writer_pointer`: its two halves, swapped with callee
    /// `swap_i64_bytes`, are written big-endian in the last 16 bytes of the word.
    #[verifier::rlimit(30)]
    pub fn add_pack_instructions(block: &mut Vec<Instr>, local: u32, writer_pointer: u32, swap_i64_bytes: u32)
        ensures
            instrs_view(final(block)@) == instrs_view(old(block)@) + pack_u128_code(local, writer_pointer, swap_i64_bytes),
    {
        let ghost before = instrs_view(block@);
        // Load from right to left, store from left to right
        pack_part(block, local, writer_pointer, 8, 16, swap_i64_bytes);
        pack_part(block, local, writer_pointer, 0, 24, swap_i64_bytes);
        assert(instrs_view(block@) =~= before + pack_u128_code(local, writer_pointer, swap_i64_bytes));
    }
}

impl IU256 {
    /// Appends the instructions that pack the `u256` at the address in local `local` into the
    /// word at the address in local `writer_pointer`: its four parts, swapped with callee
    /// `swap_i64_bytes`, are written big-endian.
    #[verifier::rlimit(30)]
    pub fn add_pack_instructions(block: &mut Vec<Instr>, local: u32, writer_pointer: u32, swap_i64_bytes: u32)
        ensures
            instrs_view(final(block)@) == instrs_view(old(block)@) + pack_u256_code(local, writer_pointer, swap_i64_bytes),
    {
        let ghost before = instrs_view(block@);
        // Load from right to left, store from left to right
        pack_part(block, local, writer_pointer, 24, 0, swap_i64_bytes);
        pack_part(block, local, writer_pointer, 16, 8, swap_i64_bytes);
        pack_part(block, local, writer_pointer, 8, 16, swap_i64_bytes);
        pack_part(block, local, writer_pointer, 0, 24, swap_i64_bytes);
        assert(instrs_view(block@) =~= before + pack_u256_code(local, writer_pointer, swap_i64_bytes));
    }
}

impl IAddress {
    /// Appends the instructions that pack the address at the address in local `local` into the
    /// word at the address in local `writer_pointer`: an address is kept as its ABI word, so its
    /// 32 bytes are copied as they are.
    #[verifier::rlimit(30)]
    pub fn add_pack_instructions(block: &mut Vec<Instr>, local: u32, writer_pointer: u32)
        ensures
            instrs_view(final(block)@) == instrs_view(old(block)@) + pack_address_code(local, writer_pointer),
    {
        let ghost before = instrs_view(block@);
        copy_part(block, local, writer_pointer, 0);
        copy_part(block, local, writer_pointer, 8);
        copy_part(block, local, writer_pointer, 16);
        copy_part(block, local, writer_pointer, 24);
        assert(instrs_view(block@) =~= before + pack_address_code(local, writer_pointer));
    }
}

impl ISigner {
    /// Appends the instructions that pack a signer, which is packed as its address.
    pub fn add_pack_instructions(block: &mut Vec<Instr>, local: u32, writer_pointer: u32)
        ensures
            instrs_view(final(block)@) == instrs_view(old(block)@) + pack_address_code(local, writer_pointer),
    {
        IAddress::add_pack_instructions(block, local, writer_pointer)
    }
}

/// Swapping the `u64` loaded from eight bytes gives the value whose bytes are those in reverse
/// order.
pub proof fn lemma_swap_part(bytes: Seq<u8>)
    requires
        bytes.len() == 8,
    ensures
        encode(ValType::I64, Value::I64(bswap64(le_value(bytes) as u64))) == Some(bytes.reverse()),
        decode(ValType::I64, bytes) == Value::I64(le_value(bytes) as u64),
{
    lemma_le_value_fits(bytes);
    lemma_le_bytes_of_value(bytes);
    law_bswap64_le_bytes(le_value(bytes) as u64);
}

/// Running `pack_part_code`: the eight bytes at `p + lo` are written in reverse order at
/// `w + so`.
#[verifier::rlimit(30)]
pub proof fn lemma_pack_part(env: Seq<FunctionView>, fuel: nat, b: Seq<InstrView>, i: int, s: Seq<Value>, l: Seq<Value>, mem: Seq<u8>, local: u32, writer: u32, lo: u32, so: u32, swap: u32, p: u32, w: u32)
    requires
        0 <= i,
        i + 5 <= b.len(),
        b.subrange(i, i + 5) == pack_part_code(local, writer, lo, so, swap),
        1 <= swap < env.len(),
        env[swap as int] == swap_i64_bytes_code(),
        env[0] == swap_i32_bytes_code(),
        local < l.len(),
        writer < l.len(),
        l[local as int] == Value::I32(p),
        l[writer as int] == Value::I32(w),
        p + lo + 8 <= mem.len(),
        w + so + 8 <= mem.len(),
    ensures
        run(env, fuel, b, i, s, l, mem) == run(env, fuel, b, i + 5, s, l, write_bytes(mem, w + so, mem.subrange(p + lo, p + lo + 8).reverse())),
{
    lemma_snippet(b, i, pack_part_code(local, writer, lo, so, swap));
    assert(b[i + 3] == InstrView::Call(swap));
    let bytes = mem.subrange(p + lo, p + lo + 8);
    lemma_swap_part(bytes);
    let x = le_value(bytes) as u64;
    let sw = s.push(Value::I32(w));
    assert(run(env, fuel, b, i, s, l, mem) == run(env, fuel, b, i + 1, sw, l, mem));
    assert(run(env, fuel, b, i + 1, sw, l, mem) == run(env, fuel, b, i + 2, sw.push(Value::I32(p)), l, mem));
    assert(sw.push(Value::I32(p)).drop_last() =~= sw);
    assert(run(env, fuel, b, i + 2, sw.push(Value::I32(p)), l, mem) == run(env, fuel, b, i + 3, sw.push(Value::I64(x)), l, mem));
    law_swap_i64_bytes(env.take(swap as int), fuel, mem, x);
    assert(sw + seq![Value::I64(x)] =~= sw.push(Value::I64(x)));
    assert(sw + seq![Value::I64(bswap64(x))] =~= sw.push(Value::I64(bswap64(x))));
    lemma_call_returning(env, fuel, mem, b, i + 3, sw, l, swap, seq![Value::I64(x)], seq![Value::I64(bswap64(x))], mem);
    assert(sw.push(Value::I64(bswap64(x))).drop_last().drop_last() =~= s);
}

/// Running `copy_part_code`: the eight bytes at `p + o` are written at `w + o`.
#[verifier::rlimit(30)]
pub proof fn lemma_copy_part(env: Seq<FunctionView>, fuel: nat, b: Seq<InstrView>, i: int, s: Seq<Value>, l: Seq<Value>, mem: Seq<u8>, local: u32, writer: u32, o: u32, p: u32, w: u32)
    requires
        0 <= i,
        i + 4 <= b.len(),
        b.subrange(i, i + 4) == copy_part_code(local, writer, o),
        local < l.len(),
        writer < l.len(),
        l[local as int] == Value::I32(p),
        l[writer as int] == Value::I32(w),
        p + o + 8 <= mem.len(),
        w + o + 8 <= mem.len(),
    ensures
        run(env, fuel, b, i, s, l, mem) == run(env, fuel, b, i + 4, s, l, write_bytes(mem, w + o, mem.subrange(p + o, p + o + 8))),
{
    lemma_snippet(b, i, copy_part_code(local, writer, o));
    let bytes = mem.subrange(p + o, p + o + 8);
    lemma_encode_decode(ValType::I64, bytes);
    let x = decode(ValType::I64, bytes);
    let sw = s.push(Value::I32(w));
    assert(run(env, fuel, b, i, s, l, mem) == run(env, fuel, b, i + 1, sw, l, mem));
    assert(run(env, fuel, b, i + 1, sw, l, mem) == run(env, fuel, b, i + 2, sw.push(Value::I32(p)), l, mem));
    assert(sw.push(Value::I32(p)).drop_last() =~= sw);
    assert(run(env, fuel, b, i + 2, sw.push(Value::I32(p)), l, mem) == run(env, fuel, b, i + 3, sw.push(x), l, mem));
    assert(sw.push(x).drop_last().drop_last() =~= s);
}

/// Running the packing of the `u128` at `p` into the word at `w`: the last 16 bytes of the word
/// are the number's bytes in reverse order, that is the number big-endian.
#[verifier::rlimit(40)]
pub proof fn law_pack_u128(env: Seq<FunctionView>, fuel: nat, b: Seq<InstrView>, i: int, s: Seq<Value>, l: Seq<Value>, mem: Seq<u8>, local: u32, writer: u32, swap: u32, p: u32, w: u32)
    requires
        0 <= i,
        i + 10 <= b.len(),
        b.subrange(i, i + 10) == pack_u128_code(local, writer, swap),
        1 <= swap < env.len(),
        env[swap as int] == swap_i64_bytes_code(),
        env[0] == swap_i32_bytes_code(),
        local < l.len(),
        writer < l.len(),
        l[local as int] == Value::I32(p),
        l[writer as int] == Value::I32(w),
        p + 16 <= mem.len(),
        w + 32 <= mem.len(),
        p + 16 <= w + 16 || w + 32 <= p,
    ensures
        run(env, fuel, b, i, s, l, mem) == run(env, fuel, b, i + 10, s, l, write_bytes(mem, w + 16, mem.subrange(p as int, p + 16).reverse())),
{
    let code = pack_u128_code(local, writer, swap);
    lemma_snippet(b, i, code);
    assert(code.subrange(0, 5) =~= pack_part_code(local, writer, 8, 16, swap));
    assert(b.subrange(i, i + 5) =~= code.subrange(0, 5));
    assert(code.subrange(5, 10) =~= pack_part_code(local, writer, 0, 24, swap));
    assert(b.subrange(i + 5, i + 10) =~= code.subrange(5, 10));
    lemma_pack_part(env, fuel, b, i, s, l, mem, local, writer, 8, 16, swap, p, w);
    let hi = mem.subrange(p + 8, p + 16).reverse();
    let m1 = write_bytes(mem, w + 16, hi);
    lemma_write_bytes(mem, w + 16, hi);
    lemma_write_bytes_elsewhere(mem, w + 16, hi, p as int, 8);
    lemma_pack_part(env, fuel, b, i + 5, s, l, m1, local, writer, 0, 24, swap, p, w);
    let lo = m1.subrange(p as int, p + 8).reverse();
    let m2 = write_bytes(m1, w + 24, lo);
    lemma_write_bytes(m1, w + 24, lo);
    let all = mem.subrange(p as int, p + 16).reverse();
    let target = write_bytes(mem, w + 16, all);
    lemma_write_bytes(mem, w + 16, all);
    assert(m2 =~= target);
}

/// Running the packing of the `u256` at `p` into the word at `w`: the word is the number's bytes
/// in reverse order, that is the number big-endian.
#[verifier::rlimit(60)]
pub proof fn law_pack_u256(env: Seq<FunctionView>, fuel: nat, b: Seq<InstrView>, i: int, s: Seq<Value>, l: Seq<Value>, mem: Seq<u8>, local: u32, writer: u32, swap: u32, p: u32, w: u32)
    requires
        0 <= i,
        i + 20 <= b.len(),
        b.subrange(i, i + 20) == pack_u256_code(local, writer, swap),
        1 <= swap < env.len(),
        env[swap as int] == swap_i64_bytes_code(),
        env[0] == swap_i32_bytes_code(),
        local < l.len(),
        writer < l.len(),
        l[local as int] == Value::I32(p),
        l[writer as int] == Value::I32(w),
        p + 32 <= mem.len(),
        w + 32 <= mem.len(),
        p + 32 <= w || w + 32 <= p,
    ensures
        run(env, fuel, b, i, s, l, mem) == run(env, fuel, b, i + 20, s, l, write_bytes(mem, w as int, mem.subrange(p as int, p + 32).reverse())),
{
    let code = pack_u256_code(local, writer, swap);
    lemma_snippet(b, i, code);
    assert(code.subrange(0, 5) =~= pack_part_code(local, writer, 24, 0, swap));
    assert(b.subrange(i, i + 5) =~= code.subrange(0, 5));
    assert(code.subrange(5, 10) =~= pack_part_code(local, writer, 16, 8, swap));
    assert(b.subrange(i + 5, i + 10) =~= code.subrange(5, 10));
    assert(code.subrange(10, 15) =~= pack_part_code(local, writer, 8, 16, swap));
    assert(b.subrange(i + 10, i + 15) =~= code.subrange(10, 15));
    assert(code.subrange(15, 20) =~= pack_part_code(local, writer, 0, 24, swap));
    assert(b.subrange(i + 15, i + 20) =~= code.subrange(15, 20));
    lemma_pack_part(env, fuel, b, i, s, l, mem, local, writer, 24, 0, swap, p, w);
    let r0 = mem.subrange(p + 24, p + 32).reverse();
    let m1 = write_bytes(mem, w as int, r0);
    lemma_write_bytes(mem, w as int, r0);
    lemma_write_bytes_elsewhere(mem, w as int, r0, p as int, 24);
    assert(m1.subrange(p + 16, p + 24) =~= mem.subrange(p + 16, p + 24));
    lemma_pack_part(env, fuel, b, i + 5, s, l, m1, local, writer, 16, 8, swap, p, w);
    let r1 = m1.subrange(p + 16, p + 24).reverse();
    let m2 = write_bytes(m1, w + 8, r1);
    lemma_write_bytes(m1, w + 8, r1);
    lemma_write_bytes_elsewhere(m1, w + 8, r1, p as int, 16);
    assert(m2.subrange(p + 8, p + 16) =~= mem.subrange(p + 8, p + 16));
    lemma_pack_part(env, fuel, b, i + 10, s, l, m2, local, writer, 8, 16, swap, p, w);
    let r2 = m2.subrange(p + 8, p + 16).reverse();
    let m3 = write_bytes(m2, w + 16, r2);
    lemma_write_bytes(m2, w + 16, r2);
    lemma_write_bytes_elsewhere(m2, w + 16, r2, p as int, 8);
    assert(m3.subrange(p as int, p + 8) =~= mem.subrange(p as int, p + 8));
    lemma_pack_part(env, fuel, b, i + 15, s, l, m3, local, writer, 0, 24, swap, p, w);
    let r3 = m3.subrange(p as int, p + 8).reverse();
    let m4 = write_bytes(m3, w + 24, r3);
    lemma_write_bytes(m3, w + 24, r3);
    let all = mem.subrange(p as int, p + 32).reverse();
    let target = write_bytes(mem, w as int, all);
    lemma_write_bytes(mem, w as int, all);
    assert(m4 =~= target);
}

/// Running the packing of the address at `p` into the word at `w`: the word is the address's 32
/// bytes as they are.
#[verifier::rlimit(40)]
pub proof fn law_pack_address(env: Seq<FunctionView>, fuel: nat, b: Seq<InstrView>, i: int, s: Seq<Value>, l: Seq<Value>, mem: Seq<u8>, local: u32, writer: u32, p: u32, w: u32)
    requires
        0 <= i,
        i + 16 <= b.len(),
        b.subrange(i, i + 16) == pack_address_code(local, writer),
        local < l.len(),
        writer < l.len(),
        l[local as int] == Value::I32(p),
        l[writer as int] == Value::I32(w),
        p + 32 <= mem.len(),
        w + 32 <= mem.len(),
        p + 32 <= w || w + 32 <= p,
    ensures
        run(env, fuel, b, i, s, l, mem) == run(env, fuel, b, i + 16, s, l, write_bytes(mem, w as int, mem.subrange(p as int, p + 32))),
{
    let code = pack_address_code(local, writer);
    lemma_snippet(b, i, code);
    assert(code.subrange(0, 4) =~= copy_part_code(local, writer, 0));
    assert(b.subrange(i, i + 4) =~= code.subrange(0, 4));
    assert(code.subrange(4, 8) =~= copy_part_code(local, writer, 8));
    assert(b.subrange(i + 4, i + 8) =~= code.subrange(4, 8));
    assert(code.subrange(8, 12) =~= copy_part_code(local, writer, 16));
    assert(b.subrange(i + 8, i + 12) =~= code.subrange(8, 12));
    assert(code.subrange(12, 16) =~= copy_part_code(local, writer, 24));
    assert(b.subrange(i + 12, i + 16) =~= code.subrange(12, 16));
    lemma_copy_part(env, fuel, b, i, s, l, mem, local, writer, 0, p, w);
    let c0 = mem.subrange(p as int, p + 8);
    let m1 = write_bytes(mem, w as int, c0);
    lemma_write_bytes(mem, w as int, c0);
    lemma_write_bytes_elsewhere(mem, w as int, c0, p + 8, 24);
    assert(m1.subrange(p + 8, p + 16) =~= mem.subrange(p + 8, p + 16));
    lemma_copy_part(env, fuel, b, i + 4, s, l, m1, local, writer, 8, p, w);
    let c1 = m1.subrange(p + 8, p + 16);
    let m2 = write_bytes(m1, w + 8, c1);
    lemma_write_bytes(m1, w + 8, c1);
    lemma_write_bytes_elsewhere(m1, w + 8, c1, p + 16, 16);
    assert(m2.subrange(p + 16, p + 24) =~= mem.subrange(p + 16, p + 24));
    lemma_copy_part(env, fuel, b, i + 8, s, l, m2, local, writer, 16, p, w);
    let c2 = m2.subrange(p + 16, p + 24);
    let m3 = write_bytes(m2, w + 16, c2);
    lemma_write_bytes(m2, w + 16, c2);
    lemma_write_bytes_elsewhere(m2, w + 16, c2, p + 24, 8);
    assert(m3.subrange(p + 24, p + 32) =~= mem.subrange(p + 24, p + 32));
    lemma_copy_part(env, fuel, b, i + 12, s, l, m3, local, writer, 24, p, w);
    let c3 = m3.subrange(p + 24, p + 32);
    let m4 = write_bytes(m3, w + 24, c3);
    lemma_write_bytes(m3, w + 24, c3);
    let all = mem.subrange(p as int, p + 32);
    let target = write_bytes(mem, w as int, all);
    lemma_write_bytes(mem, w as int, all);
    assert(m4 =~= target);
}

} // verus!
