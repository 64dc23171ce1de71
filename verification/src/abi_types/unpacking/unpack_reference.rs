//! Reading a reference argument: an immediate value is read into newly allocated memory, whose
//! address is the reference; any other value is read as itself, its pointer being the
//! reference.
use vstd::prelude::*;

use crate::abi_types::packing::{AbiCallees, add_local, is_heap, is_immediate};
use crate::abi_types::packing::pack_reference::{IMutRef, IRef};
use crate::abi_types::unpacking::{unpack_code, unpack_locals, unpackable};
use crate::abi_types::unpacking::unpack_native_int::{law_unpack_i32, unpack_i32_code};
use crate::abi_types::unpacking::unpack_vector::word_u32;
use crate::intermediate_types::IEnum;
use crate::runtime::swap::swap_i32_bytes_code;
use crate::compilation_context::CompilationContext;
use crate::intermediate_types::{IType, IntermediateType};
use crate::wasm::{
    Completion, FunctionView, Instr, InstrView, ValType, Value, encode, instrs_view, invoke, le_bytes, lemma_call_returning,
    lemma_le_bytes_len, push_instr, run, store_u32, wrap32,
};

verus! {

impl IRef {
    /// Appends the instructions that read an argument referred to as `inner` and leave the
    /// reference on the stack (see `unpack_code`): an immediate value is stored in memory
    /// allocated for it, whose address is kept in a fresh local; any other value is read as
    /// itself.
    #[verifier::rlimit(40)]
    pub fn add_unpack_instructions<M, F>(
        inner: &IntermediateType,
        block: &mut Vec<Instr>,
        locals: &mut Vec<ValType>,
        first_local: u32,
        reader_pointer: u32,
        calldata_reader_pointer: u32,
        compilation_ctx: &CompilationContext<M, F>,
        callees: AbiCallees,
    )
        requires
            is_immediate(inner@) || is_heap(inner@),
            unpackable(inner@, compilation_ctx.root_module_data.enums.enums@),
            first_local + old(locals)@.len() + unpack_locals(IType::Ref(Box::new(inner@))).len() <= u32::MAX,
        ensures
            instrs_view(final(block)@) == instrs_view(old(block)@) + unpack_code(
                IType::Ref(Box::new(inner@)),
                reader_pointer,
                calldata_reader_pointer,
                callees,
                compilation_ctx.root_module_data.enums.enums@,
                first_local + old(locals)@.len(),
            ),
            final(locals)@ == old(locals)@ + unpack_locals(IType::Ref(Box::new(inner@))),
        decreases inner, 1int,
    {
        let ghost n: int = first_local + locals@.len();
        let ghost locals0 = locals@;
        let ghost before = instrs_view(block@);
        if inner.is_immediate() {
            // Allocate room for the value and store it there
            let ptr_local = add_local(locals, first_local, ValType::I32);
            push_instr(block, Instr::I32Const(inner.stack_data_size()));
            push_instr(block, Instr::Call(callees.allocator));
            push_instr(block, Instr::LocalTee(ptr_local));
            inner.add_unpack_instructions(
                block,
                locals,
                first_local,
                reader_pointer,
                calldata_reader_pointer,
                compilation_ctx,
                callees,
            );
            push_instr(block, Instr::Store(inner.local_val_type(), 0));
            push_instr(block, Instr::LocalGet(ptr_local));
            proof {
                assert(locals@ =~= locals0 + unpack_locals(IType::Ref(Box::new(inner@))));
            }
        } else {
            // A value held in memory is its own reference
            inner.add_unpack_instructions(
                block,
                locals,
                first_local,
                reader_pointer,
                calldata_reader_pointer,
                compilation_ctx,
                callees,
            );
        }
        proof {
            assert(instrs_view(block@) =~= before + unpack_code(
                IType::Ref(Box::new(inner@)),
                reader_pointer,
                calldata_reader_pointer,
                callees,
                compilation_ctx.root_module_data.enums.enums@,
                n,
            ));
        }
    }
}

impl IMutRef {
    /// Appends the instructions that read an argument referred to mutably as `inner`, as for an
    /// immutable reference (see `unpack_code`).
    #[verifier::rlimit(40)]
    pub fn add_unpack_instructions<M, F>(
        inner: &IntermediateType,
        block: &mut Vec<Instr>,
        locals: &mut Vec<ValType>,
        first_local: u32,
        reader_pointer: u32,
        calldata_reader_pointer: u32,
        compilation_ctx: &CompilationContext<M, F>,
        callees: AbiCallees,
    )
        requires
            is_immediate(inner@) || is_heap(inner@),
            unpackable(inner@, compilation_ctx.root_module_data.enums.enums@),
            first_local + old(locals)@.len() + unpack_locals(IType::MutRef(Box::new(inner@))).len() <= u32::MAX,
        ensures
            instrs_view(final(block)@) == instrs_view(old(block)@) + unpack_code(
                IType::MutRef(Box::new(inner@)),
                reader_pointer,
                calldata_reader_pointer,
                callees,
                compilation_ctx.root_module_data.enums.enums@,
                first_local + old(locals)@.len(),
            ),
            final(locals)@ == old(locals)@ + unpack_locals(IType::MutRef(Box::new(inner@))),
        decreases inner, 2int,
    {
        IRef::add_unpack_instructions(
            inner,
            block,
            locals,
            first_local,
            reader_pointer,
            calldata_reader_pointer,
            compilation_ctx,
            callees,
        );
    }
}

/// The instructions that read a reference argument to a 32-bit value: four bytes are allocated
/// with callee `alloc`, their address kept in local `n`, the value read and stored there, and the
/// address pushed.
pub open spec fn unpack_ref_word_code(reader: u32, alloc: u32, swap: u32, n: int) -> Seq<InstrView> {
    seq![InstrView::I32Const(4), InstrView::Call(alloc), InstrView::LocalTee(n as u32)] + unpack_i32_code(reader, 32, swap)
        + seq![InstrView::Store(ValType::I32, 0), InstrView::LocalGet(n as u32)]
}

/// The reading of a reference argument to a 32-bit value is `unpack_ref_word_code`.
proof fn lemma_unpack_ref_word_code(t: IType, enums: Seq<IEnum>, reader: u32, cref: u32, c: AbiCallees, n: int)
    requires
        t is Bool || t is U8 || t is U16 || t is U32,
    ensures
        unpack_code(IType::Ref(Box::new(t)), reader, cref, c, enums, n) == unpack_ref_word_code(reader, c.allocator, c.swap_i32_bytes, n),
{
    assert(unpack_code(t, reader, cref, c, enums, n + 1) == unpack_i32_code(reader, 32, c.swap_i32_bytes));
    assert(unpack_code(IType::Ref(Box::new(t)), reader, cref, c, enums, n) =~= unpack_ref_word_code(reader, c.allocator, c.swap_i32_bytes, n));
}

/// Running `unpack_ref_word_code`.
#[verifier::rlimit(40)]
proof fn lemma_unpack_ref_word_run(
    env: Seq<FunctionView>,
    fuel: nat,
    b: Seq<InstrView>,
    i: int,
    s: Seq<Value>,
    l: Seq<Value>,
    mem: Seq<u8>,
    reader: u32,
    alloc: u32,
    swap: u32,
    n: int,
    r: u32,
    a: u32,
    m1: Seq<u8>,
)
    requires
        0 <= i,
        i + 12 <= b.len(),
        b.subrange(i, i + 12) == unpack_ref_word_code(reader, alloc, swap, n),
        swap < env.len(),
        env[swap as int] == swap_i32_bytes_code(),
        alloc < env.len(),
        env[alloc as int].params.len() == 1,
        reader < n,
        n < l.len(),
        n <= u32::MAX,
        l[reader as int] == Value::I32(r),
        invoke(env.take(alloc as int), fuel, env[alloc as int], seq![Value::I32(4)], mem) == Completion::Returned(seq![Value::I32(a)], m1),
        r + 32 <= m1.len(),
        a + 4 <= m1.len(),
    ensures
        run(env, fuel, b, i, s, l, mem) == run(env, fuel, b, i + 12, s.push(Value::I32(a)),
            l.update(n, Value::I32(a)).update(reader as int, Value::I32(wrap32(r + 32))),
            store_u32(m1, a as int, word_u32(m1, r as int))),
{
    let code = unpack_ref_word_code(reader, alloc, swap, n);
    assert(b.subrange(i, i + 12)[0] == b[i] && b.subrange(i, i + 12)[1] == b[i + 1] && b.subrange(i, i + 12)[2] == b[i + 2]);
    assert(b.subrange(i, i + 12)[10] == b[i + 10] && b.subrange(i, i + 12)[11] == b[i + 11]);
    assert(b[i] == InstrView::I32Const(4));
    assert(b[i + 1] == InstrView::Call(alloc));
    assert(b[i + 2] == InstrView::LocalTee(n as u32));
    assert(b[i + 10] == InstrView::Store(ValType::I32, 0));
    assert(b[i + 11] == InstrView::LocalGet(n as u32));
    assert(run(env, fuel, b, i, s, l, mem) == run(env, fuel, b, i + 1, s.push(Value::I32(4)), l, mem));
    assert(s + seq![Value::I32(4)] =~= s.push(Value::I32(4)));
    assert(s + seq![Value::I32(a)] =~= s.push(Value::I32(a)));
    lemma_call_returning(env, fuel, mem, b, i + 1, s, l, alloc, seq![Value::I32(4)], seq![Value::I32(a)], m1);
    let l1 = l.update(n, Value::I32(a));
    let sa = s.push(Value::I32(a));
    assert(run(env, fuel, b, i + 2, sa, l, m1) == run(env, fuel, b, i + 3, sa, l1, m1));
    assert(code.subrange(3, 10) =~= unpack_i32_code(reader, 32, swap));
    assert(b.subrange(i + 3, i + 10) =~= b.subrange(i, i + 12).subrange(3, 10));
    assert(l1[reader as int] == Value::I32(r));
    law_unpack_i32(env, fuel, b, i + 3, sa, l1, m1, reader, 32, swap, r);
    let x = word_u32(m1, r as int);
    let l2 = l1.update(reader as int, Value::I32(wrap32(r + 32)));
    lemma_le_bytes_len(x as nat, 4);
    assert(encode(ValType::I32, Value::I32(x)) == Some(le_bytes(x as nat, 4)));
    assert(sa.push(Value::I32(x)).drop_last().drop_last() =~= s);
    let m2 = store_u32(m1, a as int, x);
    assert(run(env, fuel, b, i + 10, sa.push(Value::I32(x)), l2, m1) == run(env, fuel, b, i + 11, s, l2, m2));
    assert(l2[n] == Value::I32(a));
    assert(run(env, fuel, b, i + 11, s, l2, m2) == run(env, fuel, b, i + 12, sa, l2, m2));
}

/// Reading a reference argument to a 32-bit value (a boolean, `u8`, `u16` or `u32`) whose word is
/// at `r`: the allocator gives the address `a` of four bytes, which get the number at the end of
/// the word, read big-endian; `a` is pushed and kept in the fresh local `n`, and the reader moves
/// past the word.
pub proof fn law_unpack_ref_word(
    env: Seq<FunctionView>,
    fuel: nat,
    b: Seq<InstrView>,
    i: int,
    s: Seq<Value>,
    l: Seq<Value>,
    mem: Seq<u8>,
    t: IType,
    enums: Seq<IEnum>,
    reader: u32,
    cref: u32,
    c: AbiCallees,
    n: int,
    r: u32,
    a: u32,
    m1: Seq<u8>,
)
    requires
        t is Bool || t is U8 || t is U16 || t is U32,
        0 <= i,
        i + 12 <= b.len(),
        b.subrange(i, i + 12) == unpack_code(IType::Ref(Box::new(t)), reader, cref, c, enums, n),
        c.swap_i32_bytes < env.len(),
        env[c.swap_i32_bytes as int] == swap_i32_bytes_code(),
        c.allocator < env.len(),
        env[c.allocator as int].params.len() == 1,
        reader < n,
        n < l.len(),
        n <= u32::MAX,
        l[reader as int] == Value::I32(r),
        invoke(env.take(c.allocator as int), fuel, env[c.allocator as int], seq![Value::I32(4)], mem)
            == Completion::Returned(seq![Value::I32(a)], m1),
        r + 32 <= m1.len(),
        a + 4 <= m1.len(),
    ensures
        run(env, fuel, b, i, s, l, mem) == run(env, fuel, b, i + 12, s.push(Value::I32(a)),
            l.update(n, Value::I32(a)).update(reader as int, Value::I32(wrap32(r + 32))),
            store_u32(m1, a as int, word_u32(m1, r as int))),
{
    lemma_unpack_ref_word_code(t, enums, reader, cref, c, n);
    lemma_unpack_ref_word_run(env, fuel, b, i, s, l, mem, reader, c.allocator, c.swap_i32_bytes, n, r, a, m1);
}

} // verus!
