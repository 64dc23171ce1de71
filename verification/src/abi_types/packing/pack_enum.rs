//! Writing an enum value as an ABI word: its variant number, big-endian, in the last bytes of
//! the word, as a `uint8` is written.
use vstd::prelude::*;

use crate::intermediate_types::IEnum;
use crate::runtime::swap::{bswap32, law_bswap32_le_bytes, law_swap_i32_bytes, swap_i32_bytes_code};
use crate::wasm::{
    FunctionView, Instr, InstrView, ValType, Value, encode, instrs_view, le_bytes, lemma_call_returning,
    lemma_le_bytes_len, lemma_snippet, load_u32, push_instr, run, write_bytes, lemma_le_value_fits,
};

verus! {

/// The instructions that write the variant number of the enum at the address in local `local`
/// big-endian in the last four bytes of the word at the address in local `writer`; `swap` is
/// the callee that swaps the bytes of an `i32`.
pub open spec fn pack_enum_code(local: u32, writer: u32, swap: u32) -> Seq<InstrView> {
    seq![
        InstrView::LocalGet(writer),
        InstrView::LocalGet(local),
        InstrView::Load(ValType::I32, 0),
        InstrView::Call(swap),
        InstrView::Store(ValType::I32, 28),
    ]
}

impl IEnum {
    /// Appends the instructions that pack the enum value at the address in local `local` into
    /// the word at the address in local `writer_pointer`, calling callee `swap_i32_bytes` to
    /// make the variant number big-endian.
    #[verifier::rlimit(30)]
    pub fn add_pack_instructions(block: &mut Vec<Instr>, local: u32, writer_pointer: u32, swap_i32_bytes: u32)
        ensures
            instrs_view(final(block)@) == instrs_view(old(block)@) + pack_enum_code(local, writer_pointer, swap_i32_bytes),
    {
        let ghost before = instrs_view(block@);
        push_instr(block, Instr::LocalGet(writer_pointer));
        // Read the variant number, little-endian to big-endian
        push_instr(block, Instr::LocalGet(local));
        push_instr(block, Instr::Load(ValType::I32, 0));
        push_instr(block, Instr::Call(swap_i32_bytes));
        // The ABI word is left-padded to 32 bytes
        push_instr(block, Instr::Store(ValType::I32, 28));
        assert(instrs_view(block@) =~= before + pack_enum_code(local, writer_pointer, swap_i32_bytes));
    }
}

/// Running the packing of the enum value at `p` into the word at `w`: the four bytes of its
/// variant number are written in reverse order, that is big-endian, at the end of the word.
#[verifier::rlimit(30)]
pub proof fn law_pack_enum(env: Seq<FunctionView>, fuel: nat, b: Seq<InstrView>, i: int, s: Seq<Value>, l: Seq<Value>, mem: Seq<u8>, local: u32, writer: u32, swap: u32, p: u32, w: u32)
    requires
        0 <= i,
        i + 5 <= b.len(),
        b.subrange(i, i + 5) == pack_enum_code(local, writer, swap),
        swap < env.len(),
        env[swap as int] == swap_i32_bytes_code(),
        local < l.len(),
        writer < l.len(),
        l[local as int] == Value::I32(p),
        l[writer as int] == Value::I32(w),
        p + 4 <= mem.len(),
        w + 32 <= mem.len(),
    ensures
        run(env, fuel, b, i, s, l, mem)
            == run(env, fuel, b, i + 5, s, l, write_bytes(mem, w + 28, le_bytes(load_u32(mem, p as int) as nat, 4).reverse())),
{
    lemma_snippet(b, i, pack_enum_code(local, writer, swap));
    assert(b[i + 3] == InstrView::Call(swap));
    lemma_le_value_fits(mem.subrange(p as int, p + 4));
    let x = load_u32(mem, p as int);
    let sw = s.push(Value::I32(w));
    assert(run(env, fuel, b, i, s, l, mem) == run(env, fuel, b, i + 1, sw, l, mem));
    assert(run(env, fuel, b, i + 1, sw, l, mem) == run(env, fuel, b, i + 2, sw.push(Value::I32(p)), l, mem));
    assert(sw.push(Value::I32(p)).drop_last() =~= sw);
    assert(run(env, fuel, b, i + 2, sw.push(Value::I32(p)), l, mem) == run(env, fuel, b, i + 3, sw.push(Value::I32(x)), l, mem));
    law_swap_i32_bytes(env.take(swap as int), fuel, mem, x);
    assert(sw + seq![Value::I32(x)] =~= sw.push(Value::I32(x)));
    assert(sw + seq![Value::I32(bswap32(x))] =~= sw.push(Value::I32(bswap32(x))));
    lemma_call_returning(env, fuel, mem, b, i + 3, sw, l, swap, seq![Value::I32(x)], seq![Value::I32(bswap32(x))], mem);
    law_bswap32_le_bytes(x);
    lemma_le_bytes_len(bswap32(x) as nat, 4);
    assert(sw.push(Value::I32(bswap32(x))).drop_last().drop_last() =~= s);
    assert(encode(ValType::I32, Value::I32(bswap32(x))) == Some(le_bytes(x as nat, 4).reverse()));
}

} // verus!
