//! Reading an enum argument: its variant number, read as a `uint8` is read, is checked against
//! the enum's variants and kept in four newly allocated bytes.
use vstd::prelude::*;

use crate::abi_types::packing::encoded_size_uint8;
use crate::abi_types::packing::pack_enum::{law_pack_enum, pack_enum_code};
use crate::abi_types::unpacking::unpack_native_int::{law_unpack_i32, unpack_i32_code, unpack_i32_type_instructions};
use crate::intermediate_types::IEnum;
use crate::runtime::swap::swap_i32_bytes_code;
use crate::wasm::{
    BinaryOp, Completion, FunctionView, Instr, InstrView, Outcome, ValType, Value, be_value, instrs_view,
    invoke, le_bytes, lemma_call_returning, lemma_le_bytes_len, lemma_le_value_of_bytes,
    lemma_snippet, lemma_write_bytes, load_u32, pow256, push_instr, run, store_u32, wrap32, write_bytes,
    lemma_le_value_fits,
};

verus! {

/// The instructions that check the variant number on top of the stack, keeping it in local
/// `vn`, against the last variant number `last`, and keep it in four bytes allocated with callee
/// `alloc`, whose address is kept in local `ep` and pushed.
pub open spec fn enum_check_code(last: u32, vn: u32, ep: u32, alloc: u32) -> Seq<InstrView> {
    seq![
        InstrView::LocalTee(vn),
        InstrView::I32Const(last),
        InstrView::Binop(BinaryOp::I32GtU),
        InstrView::IfElse(None, seq![InstrView::Unreachable], seq![]),
        InstrView::I32Const(4),
        InstrView::Call(alloc),
        InstrView::LocalTee(ep),
        InstrView::LocalGet(vn),
        InstrView::Store(ValType::I32, 0),
        InstrView::LocalGet(ep),
    ]
}

/// The instructions that read an enum argument with `n` variants.
pub open spec fn unpack_enum_code(n: nat, reader: u32, ep: u32, vn: u32, alloc: u32, swap: u32) -> Seq<InstrView> {
    unpack_i32_code(reader, 32, swap) + enum_check_code(wrap32(n - 1), vn, ep, alloc)
}

impl IEnum {
    /// Appends the instructions that read an argument of enum `enum_` at the reader pointer in
    /// local `reader_pointer`: the variant number, read with callee `swap_i32_bytes` as a
    /// `uint8` is, is kept in local `variant_number`; the code traps when it is past the last
    /// variant, and otherwise keeps it in four bytes allocated with callee `allocator`, whose
    /// address is kept in local `enum_ptr` and pushed.
    #[verifier::rlimit(30)]
    pub fn add_unpack_instructions(enum_: &IEnum, block: &mut Vec<Instr>, reader_pointer: u32, enum_ptr: u32, variant_number: u32, allocator: u32, swap_i32_bytes: u32)
        ensures
            instrs_view(final(block)@) == instrs_view(old(block)@)
                + unpack_enum_code(enum_.variants@.len(), reader_pointer, enum_ptr, variant_number, allocator, swap_i32_bytes),
    {
        let ghost before = instrs_view(block@);
        let encoded_size = encoded_size_uint8();
        unpack_i32_type_instructions(block, reader_pointer, encoded_size, swap_i32_bytes);
        // Keep the variant number to check it
        push_instr(block, Instr::LocalTee(variant_number));
        // Trap when it is past the last variant
        let n = enum_.variants.len();
        let last: u32 = if n == 0 {
            0xFFFF_FFFF
        } else {
            #[verifier::truncate]
            ((n - 1) as u32)
        };
        proof {
            if n > 0 {
                let m = ((n - 1) as usize) as u64;
                assert(m as u32 == (m % 0x1_0000_0000) as u32) by (bit_vector);
            }
        }
        assert(last == wrap32(enum_.variants@.len() - 1));
        push_instr(block, Instr::I32Const(last));
        push_instr(block, Instr::Binop(BinaryOp::I32GtU));
        let mut then_: Vec<Instr> = Vec::new();
        push_instr(&mut then_, Instr::Unreachable);
        push_instr(block, Instr::IfElse(None, then_, Vec::new()));
        // The enum takes four bytes: only its variant number is kept
        push_instr(block, Instr::I32Const(4));
        push_instr(block, Instr::Call(allocator));
        push_instr(block, Instr::LocalTee(enum_ptr));
        push_instr(block, Instr::LocalGet(variant_number));
        push_instr(block, Instr::Store(ValType::I32, 0));
        push_instr(block, Instr::LocalGet(enum_ptr));
        assert(instrs_view(Seq::<Instr>::empty()) =~= seq![]);
        assert(instrs_view(block@) =~= before + unpack_enum_code(enum_.variants@.len(), reader_pointer, enum_ptr, variant_number, allocator, swap_i32_bytes));
    }
}

/// Running the reading of an argument of an enum with `n` variants at `r`: with `v` the variant
/// number, read big-endian from the end of the word, the code traps when `v` is past the last
/// variant, and otherwise, when the allocator returns `q` with the memory `m1`, keeps `v` in
/// the four bytes at `q` and pushes `q`.
#[verifier::rlimit(100)]
pub proof fn law_unpack_enum(env: Seq<FunctionView>, fuel: nat, b: Seq<InstrView>, i: int, s: Seq<Value>, l: Seq<Value>, mem: Seq<u8>, n: nat, reader: u32, ep: u32, vn: u32, alloc: u32, swap: u32, r: u32, q: u32, m1: Seq<u8>)
    requires
        0 <= i,
        i + 17 <= b.len(),
        b.subrange(i, i + 17) == unpack_enum_code(n, reader, ep, vn, alloc, swap),
        swap < env.len(),
        env[swap as int] == swap_i32_bytes_code(),
        reader < l.len(),
        ep < l.len(),
        vn < l.len(),
        reader != ep,
        reader != vn,
        ep != vn,
        l[reader as int] == Value::I32(r),
        r + 32 <= mem.len(),
    ensures
        ({
            let v = be_value(mem.subrange(r + 28, r + 32)) as u32;
            let l2 = l.update(reader as int, Value::I32(wrap32(r + 32))).update(vn as int, Value::I32(v));
            &&& v > wrap32(n - 1) ==> run(env, fuel, b, i, s, l, mem) == Outcome::Trap
            &&& v <= wrap32(n - 1) && alloc < env.len() && env[alloc as int].params.len() == 1
                && invoke(env.take(alloc as int), fuel, env[alloc as int], seq![Value::I32(4)], mem) == Completion::Returned(seq![Value::I32(q)], m1)
                && q + 4 <= m1.len()
                ==> run(env, fuel, b, i, s, l, mem)
                == run(env, fuel, b, i + 17, s.push(Value::I32(q)), l2.update(ep as int, Value::I32(q)), store_u32(m1, q as int, v))
        }),
{
    let code = unpack_enum_code(n, reader, ep, vn, alloc, swap);
    lemma_snippet(b, i, code);
    assert(code.subrange(0, 7) =~= unpack_i32_code(reader, 32, swap));
    assert(b.subrange(i, i + 7) =~= code.subrange(0, 7));
    law_unpack_i32(env, fuel, b, i, s, l, mem, reader, 32, swap, r);
    let v = be_value(mem.subrange(r + 28, r + 32)) as u32;
    let last = wrap32(n - 1);
    let l1 = l.update(reader as int, Value::I32(wrap32(r + 32)));
    let l2 = l1.update(vn as int, Value::I32(v));
    let sv = s.push(Value::I32(v));
    assert(b[i + 7] == InstrView::LocalTee(vn));
    assert(run(env, fuel, b, i + 7, sv, l1, mem) == run(env, fuel, b, i + 8, sv, l2, mem));
    assert(run(env, fuel, b, i + 8, sv, l2, mem) == run(env, fuel, b, i + 9, sv.push(Value::I32(last)), l2, mem));
    let c = Value::I32(if v > last { 1 } else { 0 });
    assert(sv.push(Value::I32(last)).drop_last().drop_last() =~= s);
    assert(run(env, fuel, b, i + 9, sv.push(Value::I32(last)), l2, mem) == run(env, fuel, b, i + 10, s.push(c), l2, mem));
    let e = Seq::<Value>::empty();
    if v > last {
        assert(run(env, fuel, seq![InstrView::Unreachable], 0, e, l2, mem) == Outcome::Trap);
    } else if alloc < env.len() && env[alloc as int].params.len() == 1
        && invoke(env.take(alloc as int), fuel, env[alloc as int], seq![Value::I32(4)], mem) == Completion::Returned(seq![Value::I32(q)], m1)
        && q + 4 <= m1.len() {
        assert(run(env, fuel, seq![], 0, e, l2, mem) == Outcome::Done(e, l2, mem));
        assert(s.push(c).drop_last() + e =~= s);
        assert(run(env, fuel, b, i + 10, s.push(c), l2, mem) == run(env, fuel, b, i + 11, s, l2, mem));
        assert(run(env, fuel, b, i + 11, s, l2, mem) == run(env, fuel, b, i + 12, s.push(Value::I32(4)), l2, mem));
        assert(b[i + 12] == InstrView::Call(alloc));
        assert(s + seq![Value::I32(4)] =~= s.push(Value::I32(4)));
        assert(s + seq![Value::I32(q)] =~= s.push(Value::I32(q)));
        lemma_call_returning(env, fuel, mem, b, i + 12, s, l2, alloc, seq![Value::I32(4)], seq![Value::I32(q)], m1);
        let l3 = l2.update(ep as int, Value::I32(q));
        let sq = s.push(Value::I32(q));
        assert(run(env, fuel, b, i + 13, sq, l2, m1) == run(env, fuel, b, i + 14, sq, l3, m1));
        assert(run(env, fuel, b, i + 14, sq, l3, m1) == run(env, fuel, b, i + 15, sq.push(Value::I32(v)), l3, m1));
        lemma_le_bytes_len(v as nat, 4);
        assert(sq.push(Value::I32(v)).drop_last().drop_last() =~= s);
        let m2 = store_u32(m1, q as int, v);
        assert(run(env, fuel, b, i + 15, sq.push(Value::I32(v)), l3, m1) == run(env, fuel, b, i + 16, s, l3, m2));
        assert(run(env, fuel, b, i + 16, s, l3, m2) == run(env, fuel, b, i + 17, sq, l3, m2));
    }
}

/// Reading back the enum value at `p`, packed into the word at `w`, with the reader at `w`,
/// gives its variant number, kept in four bytes at the address `q` that the allocator returns,
/// when the variant number is that of one of the enum's `n` variants.
pub proof fn law_pack_then_unpack_enum(env: Seq<FunctionView>, fuel: nat, b: Seq<InstrView>, i: int, s: Seq<Value>, l: Seq<Value>, mem: Seq<u8>, n: nat, local: u32, writer: u32, reader: u32, ep: u32, vn: u32, alloc: u32, swap: u32, p: u32, w: u32, q: u32, m1: Seq<u8>)
    requires
        0 <= i,
        i + 22 <= b.len(),
        b.subrange(i, i + 5) == pack_enum_code(local, writer, swap),
        b.subrange(i + 5, i + 22) == unpack_enum_code(n, reader, ep, vn, alloc, swap),
        swap < env.len(),
        env[swap as int] == swap_i32_bytes_code(),
        local < l.len(),
        writer < l.len(),
        reader < l.len(),
        ep < l.len(),
        vn < l.len(),
        reader != ep,
        reader != vn,
        ep != vn,
        l[local as int] == Value::I32(p),
        l[writer as int] == Value::I32(w),
        l[reader as int] == Value::I32(w),
        p + 4 <= mem.len(),
        w + 32 <= mem.len(),
        load_u32(mem, p as int) < n <= u32::MAX,
        alloc < env.len(),
        env[alloc as int].params.len() == 1,
        invoke(env.take(alloc as int), fuel, env[alloc as int], seq![Value::I32(4)],
            write_bytes(mem, w + 28, le_bytes(load_u32(mem, p as int) as nat, 4).reverse())) == Completion::Returned(seq![Value::I32(q)], m1),
        q + 4 <= m1.len(),
    ensures
        ({
            let v = load_u32(mem, p as int);
            run(env, fuel, b, i, s, l, mem) == run(env, fuel, b, i + 22, s.push(Value::I32(q)),
                l.update(reader as int, Value::I32(wrap32(w + 32))).update(vn as int, Value::I32(v)).update(ep as int, Value::I32(q)),
                store_u32(m1, q as int, v))
        }),
{
    law_pack_enum(env, fuel, b, i, s, l, mem, local, writer, swap, p, w);
    lemma_le_value_fits(mem.subrange(p as int, p + 4));
    let v = load_u32(mem, p as int);
    let bytes = le_bytes(v as nat, 4);
    lemma_le_bytes_len(v as nat, 4);
    let m = write_bytes(mem, w + 28, bytes.reverse());
    lemma_write_bytes(mem, w + 28, bytes.reverse());
    law_unpack_enum(env, fuel, b, i + 5, s, l, m, n, reader, ep, vn, alloc, swap, w, q, m1);
    assert(m.subrange(w + 28, w + 32).reverse() =~= bytes);
    lemma_le_value_of_bytes(v as nat, 4);
    assert(pow256(4) == 0x1_0000_0000) by {
        reveal_with_fuel(pow256, 5);
    }
    assert(be_value(m.subrange(w + 28, w + 32)) == v);
}

} // verus!
