//! Reading `u128`, `u256` and `address` arguments from ABI words into newly allocated memory:
//! a number is read big-endian from the end of its word and kept little-endian, an address is
//! kept as its word.
use vstd::prelude::*;

use crate::abi_types::packing::{encoded_size_address, encoded_size_uint128, encoded_size_uint256};
use crate::abi_types::packing::pack_heap_int::{
    copy_part_code, law_pack_address, law_pack_u128, law_pack_u256, lemma_copy_part, lemma_swap_part,
    pack_address_code, pack_u128_code, pack_u256_code,
};
use crate::intermediate_types::{IAddress, IU128, IU256};
use crate::runtime::swap::{bswap64, law_swap_i64_bytes, swap_i32_bytes_code, swap_i64_bytes_code};
use crate::wasm::{
    BinaryOp, Completion, FunctionView, Instr, InstrView, ValType, Value, instrs_view, invoke,
    le_value, lemma_call_returning, lemma_snippet, lemma_write_bytes, push_instr,
    run, wrap32, write_bytes, lemma_write_bytes_elsewhere,
};

verus! {

/// The instructions that allocate `n` bytes with callee `alloc` and keep the address in local
/// `u`.
pub open spec fn alloc_code(n: u32, alloc: u32, u: u32) -> Seq<InstrView> {
    seq![InstrView::I32Const(n), InstrView::Call(alloc), InstrView::LocalSet(u)]
}

/// The instructions that push the address in local `u` and the eight bytes at offset `o` of
/// the word at the reader pointer, swapped with callee `swap`.
pub open spec fn load_part_code(reader: u32, u: u32, o: u32, swap: u32) -> Seq<InstrView> {
    seq![InstrView::LocalGet(u), InstrView::LocalGet(reader), InstrView::Load(ValType::I64, o), InstrView::Call(swap)]
}

/// The instructions that copy the eight bytes at offset `o` of the word at the reader pointer
/// to offset `o` of the address in local `u`.
pub open spec fn copy_in_code(reader: u32, u: u32, o: u32) -> Seq<InstrView> {
    seq![InstrView::LocalGet(u), InstrView::LocalGet(reader), InstrView::Load(ValType::I64, o), InstrView::Store(ValType::I64, o)]
}

/// The instructions that move the reader pointer `size` bytes on and push the address in local
/// `u`.
pub open spec fn advance_code(reader: u32, size: u32, u: u32) -> Seq<InstrView> {
    seq![
        InstrView::LocalGet(reader),
        InstrView::I32Const(size),
        InstrView::Binop(BinaryOp::I32Add),
        InstrView::LocalSet(reader),
        InstrView::LocalGet(u),
    ]
}

/// The instructions that read a `u128` argument.
pub open spec fn unpack_u128_code(reader: u32, u: u32, alloc: u32, swap: u32) -> Seq<InstrView> {
    alloc_code(16, alloc, u) + load_part_code(reader, u, 16, swap) + load_part_code(reader, u, 24, swap)
        + seq![InstrView::Store(ValType::I64, 0), InstrView::Store(ValType::I64, 8)] + advance_code(reader, 32, u)
}

/// The instructions that read a `u256` argument.
pub open spec fn unpack_u256_code(reader: u32, u: u32, alloc: u32, swap: u32) -> Seq<InstrView> {
    alloc_code(32, alloc, u) + load_part_code(reader, u, 0, swap) + load_part_code(reader, u, 8, swap)
        + load_part_code(reader, u, 16, swap) + load_part_code(reader, u, 24, swap)
        + seq![
        InstrView::Store(ValType::I64, 0),
        InstrView::Store(ValType::I64, 8),
        InstrView::Store(ValType::I64, 16),
        InstrView::Store(ValType::I64, 24),
    ] + advance_code(reader, 32, u)
}

/// The instructions that read an address argument.
pub open spec fn unpack_address_code(reader: u32, u: u32, alloc: u32) -> Seq<InstrView> {
    alloc_code(32, alloc, u) + copy_in_code(reader, u, 0) + copy_in_code(reader, u, 8) + copy_in_code(reader, u, 16)
        + copy_in_code(reader, u, 24) + advance_code(reader, 32, u)
}

/// Appends `alloc_code`.
#[verifier::rlimit(30)]
fn allocate(block: &mut Vec<Instr>, n: u32, alloc: u32, u: u32)
    ensures
        instrs_view(final(block)@) == instrs_view(old(block)@) + alloc_code(n, alloc, u),
{
    let ghost before = instrs_view(block@);
    push_instr(block, Instr::I32Const(n));
    push_instr(block, Instr::Call(alloc));
    push_instr(block, Instr::LocalSet(u));
    assert(instrs_view(block@) =~= before + alloc_code(n, alloc, u));
}

/// Appends `load_part_code`.
#[verifier::rlimit(30)]
fn load_part(block: &mut Vec<Instr>, reader: u32, u: u32, o: u32, swap: u32)
    ensures
        instrs_view(final(block)@) == instrs_view(old(block)@) + load_part_code(reader, u, o, swap),
{
    let ghost before = instrs_view(block@);
    push_instr(block, Instr::LocalGet(u));
    push_instr(block, Instr::LocalGet(reader));
    push_instr(block, Instr::Load(ValType::I64, o));
    push_instr(block, Instr::Call(swap));
    assert(instrs_view(block@) =~= before + load_part_code(reader, u, o, swap));
}

/// Appends `copy_in_code`.
#[verifier::rlimit(30)]
fn copy_in(block: &mut Vec<Instr>, reader: u32, u: u32, o: u32)
    ensures
        instrs_view(final(block)@) == instrs_view(old(block)@) + copy_in_code(reader, u, o),
{
    let ghost before = instrs_view(block@);
    push_instr(block, Instr::LocalGet(u));
    push_instr(block, Instr::LocalGet(reader));
    push_instr(block, Instr::Load(ValType::I64, o));
    push_instr(block, Instr::Store(ValType::I64, o));
    assert(instrs_view(block@) =~= before + copy_in_code(reader, u, o));
}

/// Appends `advance_code`.
#[verifier::rlimit(30)]
fn advance(block: &mut Vec<Instr>, reader: u32, size: usize, u: u32)
    ensures
        instrs_view(final(block)@) == instrs_view(old(block)@) + advance_code(reader, size as u32, u),
{
    let ghost before = instrs_view(block@);
    push_instr(block, Instr::LocalGet(reader));
    push_instr(block, Instr::I32Const(size as u32));
    push_instr(block, Instr::Binop(BinaryOp::I32Add));
    push_instr(block, Instr::LocalSet(reader));
    push_instr(block, Instr::LocalGet(u));
    assert(instrs_view(block@) =~= before + advance_code(reader, size as u32, u));
}

impl IU128 {
    /// Appends the instructions that read a `u128` argument at the reader pointer in local
    /// `reader_pointer`: 16 bytes are allocated with callee `allocator` and kept in local
    /// `unpacked_pointer`, the last 16 bytes of the word are swapped with callee
    /// `swap_i64_bytes` into them, the reader moves past the word, and their address is pushed.
    /// The calldata reader pointer is not used.
    #[verifier::rlimit(30)]
    pub fn add_unpack_instructions(block: &mut Vec<Instr>, reader_pointer: u32, calldata_reader_pointer: u32, unpacked_pointer: u32, allocator: u32, swap_i64_bytes: u32)
        ensures
            instrs_view(final(block)@) == instrs_view(old(block)@) + unpack_u128_code(reader_pointer, unpacked_pointer, allocator, swap_i64_bytes),
    {
        let ghost before = instrs_view(block@);
        let encoded_size = encoded_size_uint128();
        allocate(block, 16, allocator, unpacked_pointer);
        // The ABI word is left-padded to 32 bytes
        load_part(block, reader_pointer, unpacked_pointer, 16, swap_i64_bytes);
        load_part(block, reader_pointer, unpacked_pointer, 24, swap_i64_bytes);
        // Store in reverse order
        push_instr(block, Instr::Store(ValType::I64, 0));
        push_instr(block, Instr::Store(ValType::I64, 8));
        advance(block, reader_pointer, encoded_size, unpacked_pointer);
        assert(instrs_view(block@) =~= before + unpack_u128_code(reader_pointer, unpacked_pointer, allocator, swap_i64_bytes));
    }
}

impl IU256 {
    /// Appends the instructions that read a `u256` argument at the reader pointer in local
    /// `reader_pointer`: 32 bytes are allocated with callee `allocator` and kept in local
    /// `unpacked_pointer`, the word is swapped with callee `swap_i64_bytes` into them, the
    /// reader moves past the word, and their address is pushed. The calldata reader pointer is
    /// not used.
    #[verifier::rlimit(30)]
    pub fn add_unpack_instructions(block: &mut Vec<Instr>, reader_pointer: u32, calldata_reader_pointer: u32, unpacked_pointer: u32, allocator: u32, swap_i64_bytes: u32)
        ensures
            instrs_view(final(block)@) == instrs_view(old(block)@) + unpack_u256_code(reader_pointer, unpacked_pointer, allocator, swap_i64_bytes),
    {
        let ghost before = instrs_view(block@);
        let encoded_size = encoded_size_uint256();
        allocate(block, 32, allocator, unpacked_pointer);
        load_part(block, reader_pointer, unpacked_pointer, 0, swap_i64_bytes);
        load_part(block, reader_pointer, unpacked_pointer, 8, swap_i64_bytes);
        load_part(block, reader_pointer, unpacked_pointer, 16, swap_i64_bytes);
        load_part(block, reader_pointer, unpacked_pointer, 24, swap_i64_bytes);
        // Store in reverse order
        push_instr(block, Instr::Store(ValType::I64, 0));
        push_instr(block, Instr::Store(ValType::I64, 8));
        push_instr(block, Instr::Store(ValType::I64, 16));
        push_instr(block, Instr::Store(ValType::I64, 24));
        advance(block, reader_pointer, encoded_size, unpacked_pointer);
        assert(instrs_view(block@) =~= before + unpack_u256_code(reader_pointer, unpacked_pointer, allocator, swap_i64_bytes));
    }
}

impl IAddress {
    /// Appends the instructions that read an address argument at the reader pointer in local
    /// `reader_pointer`: 32 bytes are allocated with callee `allocator` and kept in local
    /// `unpacked_pointer`, the word is copied into them as it is, the reader moves past the
    /// word, and their address is pushed. The calldata reader pointer is not used.
    #[verifier::rlimit(30)]
    pub fn add_unpack_instructions(block: &mut Vec<Instr>, reader_pointer: u32, calldata_reader_pointer: u32, unpacked_pointer: u32, allocator: u32)
        ensures
            instrs_view(final(block)@) == instrs_view(old(block)@) + unpack_address_code(reader_pointer, unpacked_pointer, allocator),
    {
        let ghost before = instrs_view(block@);
        let encoded_size = encoded_size_address();
        allocate(block, 32, allocator, unpacked_pointer);
        copy_in(block, reader_pointer, unpacked_pointer, 0);
        copy_in(block, reader_pointer, unpacked_pointer, 8);
        copy_in(block, reader_pointer, unpacked_pointer, 16);
        copy_in(block, reader_pointer, unpacked_pointer, 24);
        advance(block, reader_pointer, encoded_size, unpacked_pointer);
        assert(instrs_view(block@) =~= before + unpack_address_code(reader_pointer, unpacked_pointer, allocator));
    }
}

/// Running `alloc_code`, when the allocator returns `q` with the memory `m1`.
#[verifier::rlimit(30)]
proof fn lemma_alloc_step(env: Seq<FunctionView>, fuel: nat, b: Seq<InstrView>, i: int, s: Seq<Value>, l: Seq<Value>, mem: Seq<u8>, n: u32, alloc: u32, u: u32, q: u32, m1: Seq<u8>)
    requires
        0 <= i,
        i + 3 <= b.len(),
        b.subrange(i, i + 3) == alloc_code(n, alloc, u),
        alloc < env.len(),
        env[alloc as int].params.len() == 1,
        invoke(env.take(alloc as int), fuel, env[alloc as int], seq![Value::I32(n)], mem) == Completion::Returned(seq![Value::I32(q)], m1),
        u < l.len(),
    ensures
        run(env, fuel, b, i, s, l, mem) == run(env, fuel, b, i + 3, s, l.update(u as int, Value::I32(q)), m1),
{
    lemma_snippet(b, i, alloc_code(n, alloc, u));
    assert(b[i + 1] == InstrView::Call(alloc));
    assert(run(env, fuel, b, i, s, l, mem) == run(env, fuel, b, i + 1, s.push(Value::I32(n)), l, mem));
    assert(s + seq![Value::I32(n)] =~= s.push(Value::I32(n)));
    assert(s + seq![Value::I32(q)] =~= s.push(Value::I32(q)));
    lemma_call_returning(env, fuel, mem, b, i + 1, s, l, alloc, seq![Value::I32(n)], seq![Value::I32(q)], m1);
    assert(s.push(Value::I32(q)).drop_last() =~= s);
}

/// Running `load_part_code`: the address in local `u` and the swapped eight bytes at `r + o`
/// are pushed.
#[verifier::rlimit(30)]
proof fn lemma_load_part(env: Seq<FunctionView>, fuel: nat, b: Seq<InstrView>, i: int, s: Seq<Value>, l: Seq<Value>, m: Seq<u8>, reader: u32, u: u32, o: u32, swap: u32, r: u32, q: u32)
    requires
        0 <= i,
        i + 4 <= b.len(),
        b.subrange(i, i + 4) == load_part_code(reader, u, o, swap),
        1 <= swap < env.len(),
        env[swap as int] == swap_i64_bytes_code(),
        env[0] == swap_i32_bytes_code(),
        u < l.len(),
        reader < l.len(),
        l[u as int] == Value::I32(q),
        l[reader as int] == Value::I32(r),
        r + o + 8 <= m.len(),
    ensures
        run(env, fuel, b, i, s, l, m) == run(env, fuel, b, i + 4,
            s.push(Value::I32(q)).push(Value::I64(bswap64(le_value(m.subrange(r + o, r + o + 8)) as u64))), l, m),
{
    lemma_snippet(b, i, load_part_code(reader, u, o, swap));
    assert(b[i + 3] == InstrView::Call(swap));
    let bytes = m.subrange(r + o, r + o + 8);
    lemma_swap_part(bytes);
    let x = le_value(bytes) as u64;
    let sq = s.push(Value::I32(q));
    assert(run(env, fuel, b, i, s, l, m) == run(env, fuel, b, i + 1, sq, l, m));
    assert(run(env, fuel, b, i + 1, sq, l, m) == run(env, fuel, b, i + 2, sq.push(Value::I32(r)), l, m));
    assert(sq.push(Value::I32(r)).drop_last() =~= sq);
    assert(run(env, fuel, b, i + 2, sq.push(Value::I32(r)), l, m) == run(env, fuel, b, i + 3, sq.push(Value::I64(x)), l, m));
    law_swap_i64_bytes(env.take(swap as int), fuel, m, x);
    assert(sq + seq![Value::I64(x)] =~= sq.push(Value::I64(x)));
    assert(sq + seq![Value::I64(bswap64(x))] =~= sq.push(Value::I64(bswap64(x))));
    lemma_call_returning(env, fuel, m, b, i + 3, sq, l, swap, seq![Value::I64(x)], seq![Value::I64(bswap64(x))], m);
}

/// Storing the swapped part of `bytes` at `q + o` writes them in reverse order.
proof fn lemma_store_swapped(env: Seq<FunctionView>, fuel: nat, b: Seq<InstrView>, i: int, s: Seq<Value>, l: Seq<Value>, m: Seq<u8>, o: u32, q: u32, bytes: Seq<u8>)
    requires
        0 <= i < b.len(),
        b[i] == InstrView::Store(ValType::I64, o),
        bytes.len() == 8,
        q + o + 8 <= m.len(),
    ensures
        run(env, fuel, b, i, s.push(Value::I32(q)).push(Value::I64(bswap64(le_value(bytes) as u64))), l, m)
            == run(env, fuel, b, i + 1, s, l, write_bytes(m, q + o, bytes.reverse())),
{
    lemma_swap_part(bytes);
    assert(s.push(Value::I32(q)).push(Value::I64(bswap64(le_value(bytes) as u64))).drop_last().drop_last() =~= s);
}

/// Running `advance_code`: the reader moves `size` bytes on and the address in local `u` is
/// pushed.
#[verifier::rlimit(30)]
proof fn lemma_advance(env: Seq<FunctionView>, fuel: nat, b: Seq<InstrView>, i: int, s: Seq<Value>, l: Seq<Value>, m: Seq<u8>, reader: u32, size: u32, u: u32, r: u32, q: u32)
    requires
        0 <= i,
        i + 5 <= b.len(),
        b.subrange(i, i + 5) == advance_code(reader, size, u),
        u < l.len(),
        reader < l.len(),
        u != reader,
        l[u as int] == Value::I32(q),
        l[reader as int] == Value::I32(r),
    ensures
        run(env, fuel, b, i, s, l, m)
            == run(env, fuel, b, i + 5, s.push(Value::I32(q)), l.update(reader as int, Value::I32(wrap32(r + size))), m),
{
    lemma_snippet(b, i, advance_code(reader, size, u));
    let l2 = l.update(reader as int, Value::I32(wrap32(r + size)));
    let sr = s.push(Value::I32(r));
    assert(run(env, fuel, b, i, s, l, m) == run(env, fuel, b, i + 1, sr, l, m));
    assert(run(env, fuel, b, i + 1, sr, l, m) == run(env, fuel, b, i + 2, sr.push(Value::I32(size)), l, m));
    assert(sr.push(Value::I32(size)).drop_last().drop_last() =~= s);
    assert(run(env, fuel, b, i + 2, sr.push(Value::I32(size)), l, m) == run(env, fuel, b, i + 3, s.push(Value::I32(wrap32(r + size))), l, m));
    assert(s.push(Value::I32(wrap32(r + size))).drop_last() =~= s);
    assert(run(env, fuel, b, i + 3, s.push(Value::I32(wrap32(r + size))), l, m) == run(env, fuel, b, i + 4, s, l2, m));
    assert(l2[u as int] == Value::I32(q));
}

/// Running the reading of a `u128` argument at `r`, when the allocator returns `q` with the
/// memory `m1`: the 16 bytes at `q` are the last 16 bytes of the word in reverse order, that is
/// the number little-endian; `q` is pushed and the reader moves past the word.
#[verifier::rlimit(60)]
pub proof fn law_unpack_u128(env: Seq<FunctionView>, fuel: nat, b: Seq<InstrView>, i: int, s: Seq<Value>, l: Seq<Value>, mem: Seq<u8>, reader: u32, u: u32, alloc: u32, swap: u32, r: u32, q: u32, m1: Seq<u8>)
    requires
        0 <= i,
        i + 18 <= b.len(),
        b.subrange(i, i + 18) == unpack_u128_code(reader, u, alloc, swap),
        1 <= swap < env.len(),
        env[swap as int] == swap_i64_bytes_code(),
        env[0] == swap_i32_bytes_code(),
        alloc < env.len(),
        env[alloc as int].params.len() == 1,
        invoke(env.take(alloc as int), fuel, env[alloc as int], seq![Value::I32(16)], mem) == Completion::Returned(seq![Value::I32(q)], m1),
        u < l.len(),
        reader < l.len(),
        u != reader,
        l[reader as int] == Value::I32(r),
        r + 32 <= m1.len(),
        q + 16 <= m1.len(),
    ensures
        run(env, fuel, b, i, s, l, mem) == run(env, fuel, b, i + 18, s.push(Value::I32(q)),
            l.update(u as int, Value::I32(q)).update(reader as int, Value::I32(wrap32(r + 32))),
            write_bytes(m1, q as int, m1.subrange(r + 16, r + 32).reverse())),
{
    let code = unpack_u128_code(reader, u, alloc, swap);
    lemma_snippet(b, i, code);
    assert(code.subrange(0, 3) =~= alloc_code(16, alloc, u));
    assert(b.subrange(i, i + 3) =~= code.subrange(0, 3));
    assert(code.subrange(3, 7) =~= load_part_code(reader, u, 16, swap));
    assert(b.subrange(i + 3, i + 7) =~= code.subrange(3, 7));
    assert(code.subrange(7, 11) =~= load_part_code(reader, u, 24, swap));
    assert(b.subrange(i + 7, i + 11) =~= code.subrange(7, 11));
    assert(code.subrange(13, 18) =~= advance_code(reader, 32, u));
    assert(b.subrange(i + 13, i + 18) =~= code.subrange(13, 18));
    assert(b[i + 11] == InstrView::Store(ValType::I64, 0));
    assert(b[i + 12] == InstrView::Store(ValType::I64, 8));
    lemma_alloc_step(env, fuel, b, i, s, l, mem, 16, alloc, u, q, m1);
    let l1 = l.update(u as int, Value::I32(q));
    let hi = m1.subrange(r + 16, r + 24);
    let lo = m1.subrange(r + 24, r + 32);
    lemma_load_part(env, fuel, b, i + 3, s, l1, m1, reader, u, 16, swap, r, q);
    let s1 = s.push(Value::I32(q)).push(Value::I64(bswap64(le_value(hi) as u64)));
    lemma_load_part(env, fuel, b, i + 7, s1, l1, m1, reader, u, 24, swap, r, q);
    lemma_store_swapped(env, fuel, b, i + 11, s1, l1, m1, 0, q, lo);
    let ma = write_bytes(m1, q as int, lo.reverse());
    lemma_write_bytes(m1, q as int, lo.reverse());
    lemma_store_swapped(env, fuel, b, i + 12, s, l1, ma, 8, q, hi);
    let mb = write_bytes(ma, q + 8, hi.reverse());
    lemma_write_bytes(ma, q + 8, hi.reverse());
    lemma_advance(env, fuel, b, i + 13, s, l1, mb, reader, 32, u, r, q);
    let all = m1.subrange(r + 16, r + 32).reverse();
    let target = write_bytes(m1, q as int, all);
    lemma_write_bytes(m1, q as int, all);
    assert(mb =~= target);
}

/// Running the reading of a `u256` argument at `r`, when the allocator returns `q` with the
/// memory `m1`: the 32 bytes at `q` are the word in reverse order, that is the number
/// little-endian; `q` is pushed and the reader moves past the word.
#[verifier::rlimit(80)]
pub proof fn law_unpack_u256(env: Seq<FunctionView>, fuel: nat, b: Seq<InstrView>, i: int, s: Seq<Value>, l: Seq<Value>, mem: Seq<u8>, reader: u32, u: u32, alloc: u32, swap: u32, r: u32, q: u32, m1: Seq<u8>)
    requires
        0 <= i,
        i + 28 <= b.len(),
        b.subrange(i, i + 28) == unpack_u256_code(reader, u, alloc, swap),
        1 <= swap < env.len(),
        env[swap as int] == swap_i64_bytes_code(),
        env[0] == swap_i32_bytes_code(),
        alloc < env.len(),
        env[alloc as int].params.len() == 1,
        invoke(env.take(alloc as int), fuel, env[alloc as int], seq![Value::I32(32)], mem) == Completion::Returned(seq![Value::I32(q)], m1),
        u < l.len(),
        reader < l.len(),
        u != reader,
        l[reader as int] == Value::I32(r),
        r + 32 <= m1.len(),
        q + 32 <= m1.len(),
    ensures
        run(env, fuel, b, i, s, l, mem) == run(env, fuel, b, i + 28, s.push(Value::I32(q)),
            l.update(u as int, Value::I32(q)).update(reader as int, Value::I32(wrap32(r + 32))),
            write_bytes(m1, q as int, m1.subrange(r as int, r + 32).reverse())),
{
    let code = unpack_u256_code(reader, u, alloc, swap);
    lemma_snippet(b, i, code);
    assert(code.subrange(0, 3) =~= alloc_code(32, alloc, u));
    assert(b.subrange(i, i + 3) =~= code.subrange(0, 3));
    assert(code.subrange(3, 7) =~= load_part_code(reader, u, 0, swap));
    assert(b.subrange(i + 3, i + 7) =~= code.subrange(3, 7));
    assert(code.subrange(7, 11) =~= load_part_code(reader, u, 8, swap));
    assert(b.subrange(i + 7, i + 11) =~= code.subrange(7, 11));
    assert(code.subrange(11, 15) =~= load_part_code(reader, u, 16, swap));
    assert(b.subrange(i + 11, i + 15) =~= code.subrange(11, 15));
    assert(code.subrange(15, 19) =~= load_part_code(reader, u, 24, swap));
    assert(b.subrange(i + 15, i + 19) =~= code.subrange(15, 19));
    assert(code.subrange(23, 28) =~= advance_code(reader, 32, u));
    assert(b.subrange(i + 23, i + 28) =~= code.subrange(23, 28));
    assert(b[i + 19] == InstrView::Store(ValType::I64, 0));
    assert(b[i + 20] == InstrView::Store(ValType::I64, 8));
    assert(b[i + 21] == InstrView::Store(ValType::I64, 16));
    assert(b[i + 22] == InstrView::Store(ValType::I64, 24));
    lemma_alloc_step(env, fuel, b, i, s, l, mem, 32, alloc, u, q, m1);
    let l1 = l.update(u as int, Value::I32(q));
    let b0 = m1.subrange(r as int, r + 8);
    let b1 = m1.subrange(r + 8, r + 16);
    let b2 = m1.subrange(r + 16, r + 24);
    let b3 = m1.subrange(r + 24, r + 32);
    let sw = |bytes: Seq<u8>| Value::I64(bswap64(le_value(bytes) as u64));
    let qv = Value::I32(q);
    let s1 = s.push(qv).push(sw(b0));
    let s2 = s1.push(qv).push(sw(b1));
    let s3 = s2.push(qv).push(sw(b2));
    lemma_load_part(env, fuel, b, i + 3, s, l1, m1, reader, u, 0, swap, r, q);
    lemma_load_part(env, fuel, b, i + 7, s1, l1, m1, reader, u, 8, swap, r, q);
    lemma_load_part(env, fuel, b, i + 11, s2, l1, m1, reader, u, 16, swap, r, q);
    lemma_load_part(env, fuel, b, i + 15, s3, l1, m1, reader, u, 24, swap, r, q);
    lemma_store_swapped(env, fuel, b, i + 19, s3, l1, m1, 0, q, b3);
    let ma = write_bytes(m1, q as int, b3.reverse());
    lemma_write_bytes(m1, q as int, b3.reverse());
    lemma_store_swapped(env, fuel, b, i + 20, s2, l1, ma, 8, q, b2);
    let mb = write_bytes(ma, q + 8, b2.reverse());
    lemma_write_bytes(ma, q + 8, b2.reverse());
    lemma_store_swapped(env, fuel, b, i + 21, s1, l1, mb, 16, q, b1);
    let mc = write_bytes(mb, q + 16, b1.reverse());
    lemma_write_bytes(mb, q + 16, b1.reverse());
    lemma_store_swapped(env, fuel, b, i + 22, s, l1, mc, 24, q, b0);
    let md = write_bytes(mc, q + 24, b0.reverse());
    lemma_write_bytes(mc, q + 24, b0.reverse());
    lemma_advance(env, fuel, b, i + 23, s, l1, md, reader, 32, u, r, q);
    let all = m1.subrange(r as int, r + 32).reverse();
    let target = write_bytes(m1, q as int, all);
    lemma_write_bytes(m1, q as int, all);
    assert(md =~= target);
}

/// Running the reading of an address argument at `r`, when the allocator returns `q` with the
/// memory `m1`, apart from the word: the 32 bytes at `q` are the word as it is; `q` is pushed
/// and the reader moves past the word.
#[verifier::rlimit(60)]
pub proof fn law_unpack_address(env: Seq<FunctionView>, fuel: nat, b: Seq<InstrView>, i: int, s: Seq<Value>, l: Seq<Value>, mem: Seq<u8>, reader: u32, u: u32, alloc: u32, r: u32, q: u32, m1: Seq<u8>)
    requires
        0 <= i,
        i + 24 <= b.len(),
        b.subrange(i, i + 24) == unpack_address_code(reader, u, alloc),
        alloc < env.len(),
        env[alloc as int].params.len() == 1,
        invoke(env.take(alloc as int), fuel, env[alloc as int], seq![Value::I32(32)], mem) == Completion::Returned(seq![Value::I32(q)], m1),
        u < l.len(),
        reader < l.len(),
        u != reader,
        l[reader as int] == Value::I32(r),
        r + 32 <= m1.len(),
        q + 32 <= m1.len(),
        q + 32 <= r || r + 32 <= q,
    ensures
        run(env, fuel, b, i, s, l, mem) == run(env, fuel, b, i + 24, s.push(Value::I32(q)),
            l.update(u as int, Value::I32(q)).update(reader as int, Value::I32(wrap32(r + 32))),
            write_bytes(m1, q as int, m1.subrange(r as int, r + 32))),
{
    let code = unpack_address_code(reader, u, alloc);
    lemma_snippet(b, i, code);
    assert(code.subrange(0, 3) =~= alloc_code(32, alloc, u));
    assert(b.subrange(i, i + 3) =~= code.subrange(0, 3));
    assert(code.subrange(3, 7) =~= copy_part_code(reader, u, 0));
    assert(b.subrange(i + 3, i + 7) =~= code.subrange(3, 7));
    assert(code.subrange(7, 11) =~= copy_part_code(reader, u, 8));
    assert(b.subrange(i + 7, i + 11) =~= code.subrange(7, 11));
    assert(code.subrange(11, 15) =~= copy_part_code(reader, u, 16));
    assert(b.subrange(i + 11, i + 15) =~= code.subrange(11, 15));
    assert(code.subrange(15, 19) =~= copy_part_code(reader, u, 24));
    assert(b.subrange(i + 15, i + 19) =~= code.subrange(15, 19));
    assert(code.subrange(19, 24) =~= advance_code(reader, 32, u));
    assert(b.subrange(i + 19, i + 24) =~= code.subrange(19, 24));
    lemma_alloc_step(env, fuel, b, i, s, l, mem, 32, alloc, u, q, m1);
    let l1 = l.update(u as int, Value::I32(q));
    lemma_copy_part(env, fuel, b, i + 3, s, l1, m1, reader, u, 0, r, q);
    let c0 = m1.subrange(r as int, r + 8);
    let ma = write_bytes(m1, q as int, c0);
    lemma_write_bytes(m1, q as int, c0);
    lemma_write_bytes_elsewhere(m1, q as int, c0, r + 8, 24);
    assert(ma.subrange(r + 8, r + 16) =~= m1.subrange(r + 8, r + 16));
    lemma_copy_part(env, fuel, b, i + 7, s, l1, ma, reader, u, 8, r, q);
    let c1 = ma.subrange(r + 8, r + 16);
    let mb = write_bytes(ma, q + 8, c1);
    lemma_write_bytes(ma, q + 8, c1);
    lemma_write_bytes_elsewhere(ma, q + 8, c1, r + 16, 16);
    assert(mb.subrange(r + 16, r + 24) =~= m1.subrange(r + 16, r + 24));
    lemma_copy_part(env, fuel, b, i + 11, s, l1, mb, reader, u, 16, r, q);
    let c2 = mb.subrange(r + 16, r + 24);
    let mc = write_bytes(mb, q + 16, c2);
    lemma_write_bytes(mb, q + 16, c2);
    lemma_write_bytes_elsewhere(mb, q + 16, c2, r + 24, 8);
    assert(mc.subrange(r + 24, r + 32) =~= m1.subrange(r + 24, r + 32));
    lemma_copy_part(env, fuel, b, i + 15, s, l1, mc, reader, u, 24, r, q);
    let c3 = mc.subrange(r + 24, r + 32);
    let md = write_bytes(mc, q + 24, c3);
    lemma_write_bytes(mc, q + 24, c3);
    lemma_advance(env, fuel, b, i + 19, s, l1, md, reader, 32, u, r, q);
    let all = m1.subrange(r as int, r + 32);
    let target = write_bytes(m1, q as int, all);
    lemma_write_bytes(m1, q as int, all);
    assert(md =~= target);
}

/// Reading back a `u128` packed from `p` into the word at `w`, with the reader at `w`, gives a
/// copy of the 16 bytes at `p`, at the address `q` that the allocator returns, when the
/// allocator keeps the word.
pub proof fn law_pack_then_unpack_u128(env: Seq<FunctionView>, fuel: nat, b: Seq<InstrView>, i: int, s: Seq<Value>, l: Seq<Value>, mem: Seq<u8>, local: u32, writer: u32, reader: u32, u: u32, alloc: u32, swap: u32, p: u32, w: u32, q: u32, m1: Seq<u8>)
    requires
        0 <= i,
        i + 28 <= b.len(),
        b.subrange(i, i + 10) == pack_u128_code(local, writer, swap),
        b.subrange(i + 10, i + 28) == unpack_u128_code(reader, u, alloc, swap),
        1 <= swap < env.len(),
        env[swap as int] == swap_i64_bytes_code(),
        env[0] == swap_i32_bytes_code(),
        alloc < env.len(),
        env[alloc as int].params.len() == 1,
        invoke(env.take(alloc as int), fuel, env[alloc as int], seq![Value::I32(16)], write_bytes(mem, w + 16, mem.subrange(p as int, p + 16).reverse())) == Completion::Returned(seq![Value::I32(q)], m1),
        m1.subrange(w + 16, w + 32) == write_bytes(mem, w + 16, mem.subrange(p as int, p + 16).reverse()).subrange(w + 16, w + 32),
        local < l.len(),
        writer < l.len(),
        u < l.len(),
        reader < l.len(),
        u != reader,
        l[local as int] == Value::I32(p),
        l[writer as int] == Value::I32(w),
        l[reader as int] == Value::I32(w),
        p + 16 <= mem.len(),
        w + 32 <= mem.len(),
        p + 16 <= w + 16 || w + 32 <= p,
        w + 32 <= m1.len(),
        q + 16 <= m1.len(),
    ensures
        run(env, fuel, b, i, s, l, mem) == run(env, fuel, b, i + 28, s.push(Value::I32(q)),
            l.update(u as int, Value::I32(q)).update(reader as int, Value::I32(wrap32(w + 32))),
            write_bytes(m1, q as int, mem.subrange(p as int, p + 16))),
{
    law_pack_u128(env, fuel, b, i, s, l, mem, local, writer, swap, p, w);
    let bytes = mem.subrange(p as int, p + 16).reverse();
    lemma_write_bytes(mem, w + 16, bytes);
    law_unpack_u128(env, fuel, b, i + 10, s, l, write_bytes(mem, w + 16, mem.subrange(p as int, p + 16).reverse()), reader, u, alloc, swap, w, q, m1);
    assert(m1.subrange(w + 16, w + 32).reverse() =~= mem.subrange(p as int, p + 16));
}

/// Reading back a `u256` packed from `p` into the word at `w`, with the reader at `w`, gives a
/// copy of the 32 bytes at `p`, at the address `q` that the allocator returns, when the
/// allocator keeps the word.
pub proof fn law_pack_then_unpack_u256(env: Seq<FunctionView>, fuel: nat, b: Seq<InstrView>, i: int, s: Seq<Value>, l: Seq<Value>, mem: Seq<u8>, local: u32, writer: u32, reader: u32, u: u32, alloc: u32, swap: u32, p: u32, w: u32, q: u32, m1: Seq<u8>)
    requires
        0 <= i,
        i + 48 <= b.len(),
        b.subrange(i, i + 20) == pack_u256_code(local, writer, swap),
        b.subrange(i + 20, i + 48) == unpack_u256_code(reader, u, alloc, swap),
        1 <= swap < env.len(),
        env[swap as int] == swap_i64_bytes_code(),
        env[0] == swap_i32_bytes_code(),
        alloc < env.len(),
        env[alloc as int].params.len() == 1,
        invoke(env.take(alloc as int), fuel, env[alloc as int], seq![Value::I32(32)], write_bytes(mem, w as int, mem.subrange(p as int, p + 32).reverse())) == Completion::Returned(seq![Value::I32(q)], m1),
        m1.subrange(w as int, w + 32) == write_bytes(mem, w as int, mem.subrange(p as int, p + 32).reverse()).subrange(w as int, w + 32),
        local < l.len(),
        writer < l.len(),
        u < l.len(),
        reader < l.len(),
        u != reader,
        l[local as int] == Value::I32(p),
        l[writer as int] == Value::I32(w),
        l[reader as int] == Value::I32(w),
        p + 32 <= mem.len(),
        w + 32 <= mem.len(),
        p + 32 <= w || w + 32 <= p,
        w + 32 <= m1.len(),
        q + 32 <= m1.len(),
    ensures
        run(env, fuel, b, i, s, l, mem) == run(env, fuel, b, i + 48, s.push(Value::I32(q)),
            l.update(u as int, Value::I32(q)).update(reader as int, Value::I32(wrap32(w + 32))),
            write_bytes(m1, q as int, mem.subrange(p as int, p + 32))),
{
    law_pack_u256(env, fuel, b, i, s, l, mem, local, writer, swap, p, w);
    let bytes = mem.subrange(p as int, p + 32).reverse();
    lemma_write_bytes(mem, w as int, bytes);
    law_unpack_u256(env, fuel, b, i + 20, s, l, write_bytes(mem, w as int, mem.subrange(p as int, p + 32).reverse()), reader, u, alloc, swap, w, q, m1);
    assert(m1.subrange(w as int, w + 32).reverse() =~= mem.subrange(p as int, p + 32));
}

/// Reading back a address packed from `p` into the word at `w`, with the reader at `w`, gives a
/// copy of the 32 bytes at `p`, at the address `q` that the allocator returns, when the
/// allocator keeps the word, apart from which it returns `q`.
pub proof fn law_pack_then_unpack_address(env: Seq<FunctionView>, fuel: nat, b: Seq<InstrView>, i: int, s: Seq<Value>, l: Seq<Value>, mem: Seq<u8>, local: u32, writer: u32, reader: u32, u: u32, alloc: u32, p: u32, w: u32, q: u32, m1: Seq<u8>)
    requires
        0 <= i,
        i + 40 <= b.len(),
        b.subrange(i, i + 16) == pack_address_code(local, writer),
        b.subrange(i + 16, i + 40) == unpack_address_code(reader, u, alloc),
        alloc < env.len(),
        env[alloc as int].params.len() == 1,
        invoke(env.take(alloc as int), fuel, env[alloc as int], seq![Value::I32(32)], write_bytes(mem, w as int, mem.subrange(p as int, p + 32))) == Completion::Returned(seq![Value::I32(q)], m1),
        m1.subrange(w as int, w + 32) == write_bytes(mem, w as int, mem.subrange(p as int, p + 32)).subrange(w as int, w + 32),
        local < l.len(),
        writer < l.len(),
        u < l.len(),
        reader < l.len(),
        u != reader,
        l[local as int] == Value::I32(p),
        l[writer as int] == Value::I32(w),
        l[reader as int] == Value::I32(w),
        p + 32 <= mem.len(),
        w + 32 <= mem.len(),
        p + 32 <= w || w + 32 <= p,
        w + 32 <= m1.len(),
        q + 32 <= m1.len(),
        q + 32 <= w || w + 32 <= q,
    ensures
        run(env, fuel, b, i, s, l, mem) == run(env, fuel, b, i + 40, s.push(Value::I32(q)),
            l.update(u as int, Value::I32(q)).update(reader as int, Value::I32(wrap32(w + 32))),
            write_bytes(m1, q as int, mem.subrange(p as int, p + 32))),
{
    law_pack_address(env, fuel, b, i, s, l, mem, local, writer, p, w);
    let bytes = mem.subrange(p as int, p + 32);
    lemma_write_bytes(mem, w as int, bytes);
    law_unpack_address(env, fuel, b, i + 16, s, l, write_bytes(mem, w as int, mem.subrange(p as int, p + 32)), reader, u, alloc, w, q, m1);
    assert(m1.subrange(w as int, w + 32) =~= mem.subrange(p as int, p + 32));
}

} // verus!
