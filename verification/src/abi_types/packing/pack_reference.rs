//! Writing the value a reference refers to: an immediate value is loaded and packed, any other
//! value is packed from the pointer that the reference is.
use vstd::prelude::*;

use crate::abi_types::packing::{AbiCallees, add_load_local, add_local, load_local_code, pack_code, pack_locals, packable};
use crate::abi_types::packing::pack_native_int::{law_pack_i32, pack_i32_code};
use crate::runtime::swap::swap_i32_bytes_code;
use crate::compilation_context::CompilationContext;
use crate::intermediate_types::{ISigner, IType, IntermediateType};
use crate::wasm::{FunctionView, Instr, InstrView, ValType, Value, instrs_view, le_bytes, lemma_le_value_fits, load_u32, run, write_bytes};

verus! {

/// The immutable reference types, whose packing is given by the type they refer to.
pub struct IRef;

/// The mutable reference types, packed as immutable ones.
pub struct IMutRef;

impl IRef {
    /// Appends the instructions that pack the `inner` value that local `local` refers to at the
    /// writer pointer (see `pack_code`): an immediate value is loaded into a fresh local and
    /// packed from there; a signer is packed as an address, and any other value held in memory
    /// from the reference itself.
    #[verifier::rlimit(40)]
    pub fn add_pack_instructions<M, F>(
        inner: &IntermediateType,
        block: &mut Vec<Instr>,
        locals: &mut Vec<ValType>,
        first_local: u32,
        local: u32,
        writer_pointer: u32,
        calldata_reference_pointer: u32,
        compilation_ctx: &CompilationContext<M, F>,
        callees: AbiCallees,
    )
        requires
            packable(IType::Ref(Box::new(inner@)), compilation_ctx.root_module_data.enums.enums@),
            first_local + old(locals)@.len() + pack_locals(IType::Ref(Box::new(inner@))).len() <= u32::MAX,
        ensures
            instrs_view(final(block)@) == instrs_view(old(block)@) + pack_code(
                IType::Ref(Box::new(inner@)),
                local,
                writer_pointer,
                calldata_reference_pointer,
                callees,
                first_local + old(locals)@.len(),
            ),
            final(locals)@ == old(locals)@ + pack_locals(IType::Ref(Box::new(inner@))),
        decreases inner, 1int,
    {
        let ghost n: int = first_local + locals@.len();
        let ghost locals0 = locals@;
        let ghost before = instrs_view(block@);
        if inner.is_immediate() {
            // Dereference the pointer and pack the value
            let value_local = add_local(locals, first_local, inner.local_val_type());
            add_load_local(block, local, inner.local_val_type(), value_local);
            inner.add_pack_instructions(
                block,
                locals,
                first_local,
                value_local,
                writer_pointer,
                calldata_reference_pointer,
                compilation_ctx,
                callees,
            );
            proof {
                assert(locals@ =~= locals0 + pack_locals(IType::Ref(Box::new(inner@))));
            }
        } else if inner.is_signer() {
            // A signer is packed as the address it is
            ISigner::add_pack_instructions(block, local, writer_pointer);
            proof {
                assert(pack_locals(inner@) =~= Seq::<ValType>::empty());
                assert(locals@ =~= locals0 + pack_locals(IType::Ref(Box::new(inner@))));
            }
        } else {
            // A value held in memory is packed from its pointer
            inner.add_pack_instructions(
                block,
                locals,
                first_local,
                local,
                writer_pointer,
                calldata_reference_pointer,
                compilation_ctx,
                callees,
            );
        }
        proof {
            assert(instrs_view(block@) =~= before + pack_code(
                IType::Ref(Box::new(inner@)),
                local,
                writer_pointer,
                calldata_reference_pointer,
                callees,
                n,
            ));
        }
    }
}

impl IMutRef {
    /// Appends the instructions that pack the `inner` value that local `local` refers to at the
    /// writer pointer, as for an immutable reference (see `pack_code`).
    #[verifier::rlimit(40)]
    pub fn add_pack_instructions<M, F>(
        inner: &IntermediateType,
        block: &mut Vec<Instr>,
        locals: &mut Vec<ValType>,
        first_local: u32,
        local: u32,
        writer_pointer: u32,
        calldata_reference_pointer: u32,
        compilation_ctx: &CompilationContext<M, F>,
        callees: AbiCallees,
    )
        requires
            packable(IType::MutRef(Box::new(inner@)), compilation_ctx.root_module_data.enums.enums@),
            first_local + old(locals)@.len() + pack_locals(IType::MutRef(Box::new(inner@))).len() <= u32::MAX,
        ensures
            instrs_view(final(block)@) == instrs_view(old(block)@) + pack_code(
                IType::MutRef(Box::new(inner@)),
                local,
                writer_pointer,
                calldata_reference_pointer,
                callees,
                first_local + old(locals)@.len(),
            ),
            final(locals)@ == old(locals)@ + pack_locals(IType::MutRef(Box::new(inner@))),
        decreases inner, 2int,
    {
        IRef::add_pack_instructions(
            inner,
            block,
            locals,
            first_local,
            local,
            writer_pointer,
            calldata_reference_pointer,
            compilation_ctx,
            callees,
        );
    }
}

/// The packing of a reference to a 32-bit value loads the value and packs it as an `i32`.
proof fn lemma_pack_ref_word_code(t: IType, local: u32, writer: u32, cref: u32, c: AbiCallees, n: int)
    requires
        t is Bool || t is U8 || t is U16 || t is U32,
    ensures
        pack_code(IType::Ref(Box::new(t)), local, writer, cref, c, n)
            == load_local_code(local, ValType::I32, n as u32) + pack_i32_code(n as u32, writer, c.swap_i32_bytes),
{
    assert(pack_code(t, n as u32, writer, cref, c, n + 1) == pack_i32_code(n as u32, writer, c.swap_i32_bytes));
}

/// Running the loading of the value at `p` into local `n` and its packing into the word at `w`.
#[verifier::rlimit(40)]
proof fn lemma_pack_ref_word_run(
    env: Seq<FunctionView>,
    fuel: nat,
    b: Seq<InstrView>,
    i: int,
    s: Seq<Value>,
    l: Seq<Value>,
    mem: Seq<u8>,
    local: u32,
    writer: u32,
    swap: u32,
    n: int,
    p: u32,
    w: u32,
)
    requires
        0 <= i,
        i + 7 <= b.len(),
        b.subrange(i, i + 7) == load_local_code(local, ValType::I32, n as u32) + pack_i32_code(n as u32, writer, swap),
        swap < env.len(),
        env[swap as int] == swap_i32_bytes_code(),
        local < n,
        writer < n,
        n < l.len(),
        n <= u32::MAX,
        l[local as int] == Value::I32(p),
        l[writer as int] == Value::I32(w),
        p + 4 <= mem.len(),
        w + 32 <= mem.len(),
    ensures
        run(env, fuel, b, i, s, l, mem) == run(env, fuel, b, i + 7, s, l.update(n, Value::I32(load_u32(mem, p as int))),
            write_bytes(mem, w + 28, le_bytes(load_u32(mem, p as int) as nat, 4).reverse())),
{
    let code = load_local_code(local, ValType::I32, n as u32) + pack_i32_code(n as u32, writer, swap);
    assert(b[i] == code[0] && b[i + 1] == code[1] && b[i + 2] == code[2]);
    let x = load_u32(mem, p as int);
    lemma_le_value_fits(mem.subrange(p as int, p + 4));
    assert(run(env, fuel, b, i, s, l, mem) == run(env, fuel, b, i + 1, s.push(Value::I32(p)), l, mem));
    assert(s.push(Value::I32(p)).drop_last() =~= s);
    assert(run(env, fuel, b, i + 1, s.push(Value::I32(p)), l, mem) == run(env, fuel, b, i + 2, s.push(Value::I32(x)), l, mem));
    let l1 = l.update(n, Value::I32(x));
    assert(s.push(Value::I32(x)).drop_last() =~= s);
    assert(run(env, fuel, b, i + 2, s.push(Value::I32(x)), l, mem) == run(env, fuel, b, i + 3, s, l1, mem));
    assert(code.subrange(3, 7) =~= pack_i32_code(n as u32, writer, swap));
    assert(b.subrange(i + 3, i + 7) =~= b.subrange(i, i + 7).subrange(3, 7));
    law_pack_i32(env, fuel, b, i + 3, s, l1, mem, n as u32, writer, swap, x, w);
}

/// Packing a reference to a 32-bit value (a boolean, `u8`, `u16` or `u32`) at `p`: the value is
/// loaded into the fresh local `n` and written big-endian at the end of the word at `w`.
pub proof fn law_pack_ref_word(
    env: Seq<FunctionView>,
    fuel: nat,
    b: Seq<InstrView>,
    i: int,
    s: Seq<Value>,
    l: Seq<Value>,
    mem: Seq<u8>,
    t: IType,
    local: u32,
    writer: u32,
    cref: u32,
    c: AbiCallees,
    n: int,
    p: u32,
    w: u32,
)
    requires
        t is Bool || t is U8 || t is U16 || t is U32,
        0 <= i,
        i + 7 <= b.len(),
        b.subrange(i, i + 7) == pack_code(IType::Ref(Box::new(t)), local, writer, cref, c, n),
        c.swap_i32_bytes < env.len(),
        env[c.swap_i32_bytes as int] == swap_i32_bytes_code(),
        local < n,
        writer < n,
        n < l.len(),
        n <= u32::MAX,
        l[local as int] == Value::I32(p),
        l[writer as int] == Value::I32(w),
        p + 4 <= mem.len(),
        w + 32 <= mem.len(),
    ensures
        run(env, fuel, b, i, s, l, mem) == run(env, fuel, b, i + 7, s, l.update(n, Value::I32(load_u32(mem, p as int))),
            write_bytes(mem, w + 28, le_bytes(load_u32(mem, p as int) as nat, 4).reverse())),
{
    lemma_pack_ref_word_code(t, local, writer, cref, c, n);
    lemma_pack_ref_word_run(env, fuel, b, i, s, l, mem, local, writer, c.swap_i32_bytes, n, p, w);
}

} // verus!
