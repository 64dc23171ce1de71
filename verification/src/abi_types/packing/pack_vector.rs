//! Writing a vector as an ABI dynamic array: the offset of its data in its place, and at the
//! end of the calldata its length followed by its elements, each packed as its type.
use vstd::prelude::*;

use crate::abi_types::packing::{
    AbiCallees, add_load_local, add_local, lemma_encoded_size_is_32, lemma_packable_layout_known,
    load_local_code, pack_code, pack_locals, packable, vector_head_code, vector_step_code, local_val_type,
    stack_data_size,
};
use crate::abi_types::packing::pack_native_int::{law_pack_i32, pack_i32_code, pack_i32_type_instructions};
use crate::runtime::swap::swap_i32_bytes_code;
use crate::compilation_context::CompilationContext;
use crate::intermediate_types::{IType, IntermediateType};
use crate::wasm::{
    BinaryOp, FunctionView, Instr, InstrView, Outcome, ValType, Value, instrs_view, le_bytes, lemma_le_value_fits,
    lemma_snippet, lemma_write_bytes, lemma_write_bytes_elsewhere, lemma_loop_unless_zero, load_u32, loop_unless_zero,
    loop_unless_zero_body, push_instr, push_loop_unless_zero, run, write_bytes,
};

verus! {

/// Appends `vector_head_code`, with fresh locals numbered from `n`.
#[verifier::rlimit(60)]
fn vector_pack_head(block: &mut Vec<Instr>, local: u32, writer_pointer: u32, calldata_reference_pointer: u32, callees: AbiCallees, n: u32, esize: u32)
    requires
        n + 5 <= u32::MAX,
    ensures
        instrs_view(final(block)@) == instrs_view(old(block)@) + vector_head_code(
            local,
            writer_pointer,
            calldata_reference_pointer,
            callees,
            n as int,
            esize,
        ),
{
    let ghost before = instrs_view(block@);
    let data_pointer = n;
    let inner_data_reference = n + 1;
    let length = n + 2;
    let reference_value = n + 3;
    let i = n + 4;

    // The length
    add_load_local(block, local, ValType::I32, length);

    // Allocate the length word and the element words at the end of the calldata
    push_instr(block, Instr::LocalGet(length));
    push_instr(block, Instr::I32Const(esize));
    push_instr(block, Instr::Binop(BinaryOp::I32Mul));
    push_instr(block, Instr::I32Const(32));
    push_instr(block, Instr::Binop(BinaryOp::I32Add));
    push_instr(block, Instr::Call(callees.allocator));
    push_instr(block, Instr::LocalTee(data_pointer));

    // In place: the distance from the start of this calldata portion to the data
    push_instr(block, Instr::LocalGet(calldata_reference_pointer));
    push_instr(block, Instr::Binop(BinaryOp::I32Sub));
    push_instr(block, Instr::LocalSet(reference_value));
    pack_i32_type_instructions(block, reference_value, writer_pointer, callees.swap_i32_bytes);

    // The vector's local moves past its length and capacity to its first element
    push_instr(block, Instr::LocalGet(local));
    push_instr(block, Instr::I32Const(8));
    push_instr(block, Instr::Binop(BinaryOp::I32Add));
    push_instr(block, Instr::LocalSet(local));

    // The length word, after which the elements' data starts
    pack_i32_type_instructions(block, length, data_pointer, callees.swap_i32_bytes);
    push_instr(block, Instr::LocalGet(data_pointer));
    push_instr(block, Instr::I32Const(32));
    push_instr(block, Instr::Binop(BinaryOp::I32Add));
    push_instr(block, Instr::LocalTee(data_pointer));
    push_instr(block, Instr::LocalSet(inner_data_reference));
    push_instr(block, Instr::I32Const(0));
    push_instr(block, Instr::LocalSet(i));
    assert(instrs_view(block@) =~= before + vector_head_code(local, writer_pointer, calldata_reference_pointer, callees, n as int, esize));
}

/// The vector types, whose packing is given by the type of their elements.
pub struct IVector;

impl IVector {
    /// Appends the instructions that pack the vector of `inner` values at the address in local
    /// `local` at the writer pointer (see `pack_code`): the vector's length word and element
    /// words are allocated with the allocator, the offset of that data from the calldata
    /// reference is written in place, then the length, then each element in a loop. The
    /// vector's local is moved past its length and its elements.
    #[verifier::rlimit(60)]
    pub fn add_pack_instructions<M, F>(
        inner: &IntermediateType,
        block: &mut Vec<Instr>,
        locals: &mut Vec<ValType>,
        first_local: u32,
        local: u32,
        writer_pointer: u32,
        calldata_reference_pointer: u32,
        compilation_ctx: &CompilationContext<M, F>,
        callees: AbiCallees,
    )
        requires
            packable(inner@, compilation_ctx.root_module_data.enums.enums@),
            first_local + old(locals)@.len() + pack_locals(IType::Vector(Box::new(inner@))).len() <= u32::MAX,
        ensures
            instrs_view(final(block)@) == instrs_view(old(block)@) + pack_code(
                IType::Vector(Box::new(inner@)),
                local,
                writer_pointer,
                calldata_reference_pointer,
                callees,
                first_local + old(locals)@.len(),
            ),
            final(locals)@ == old(locals)@ + pack_locals(IType::Vector(Box::new(inner@))),
        decreases inner, 1int,
    {
        let ghost n: int = first_local + locals@.len();
        let ghost locals0 = locals@;
        let data_pointer = add_local(locals, first_local, ValType::I32);
        let inner_data_reference = add_local(locals, first_local, ValType::I32);
        let length = add_local(locals, first_local, ValType::I32);
        // The offset of the data, written in place
        add_local(locals, first_local, ValType::I32);
        let i = add_local(locals, first_local, ValType::I32);
        let inner_local = add_local(locals, first_local, inner.local_val_type());
        proof {
            lemma_packable_layout_known(inner@, compilation_ctx.root_module_data.enums.enums@);
            lemma_encoded_size_is_32(inner@);
        }
        let esize = inner.encoded_size() as u32;
        let ghost before = instrs_view(block@);
        vector_pack_head(block, local, writer_pointer, calldata_reference_pointer, callees, data_pointer, esize);
        proof {
            assert(locals@ =~= locals0 + seq![ValType::I32, ValType::I32, ValType::I32, ValType::I32, ValType::I32, local_val_type(inner@)]);
        }

        // Each element, packed as its type
        let mut body: Vec<Instr> = Vec::new();
        add_load_local(&mut body, local, inner.local_val_type(), inner_local);
        inner.add_pack_instructions(
            &mut body,
            locals,
            first_local,
            inner_local,
            data_pointer,
            inner_data_reference,
            compilation_ctx,
            callees,
        );
        let ssize = inner.stack_data_size();
        push_instr(&mut body, Instr::LocalGet(local));
        push_instr(&mut body, Instr::I32Const(ssize));
        push_instr(&mut body, Instr::Binop(BinaryOp::I32Add));
        push_instr(&mut body, Instr::LocalSet(local));
        push_instr(&mut body, Instr::LocalGet(data_pointer));
        push_instr(&mut body, Instr::I32Const(esize));
        push_instr(&mut body, Instr::Binop(BinaryOp::I32Add));
        push_instr(&mut body, Instr::LocalSet(data_pointer));
        push_instr(&mut body, Instr::LocalGet(i));
        push_instr(&mut body, Instr::I32Const(1));
        push_instr(&mut body, Instr::Binop(BinaryOp::I32Add));
        push_instr(&mut body, Instr::LocalTee(i));
        push_instr(&mut body, Instr::LocalGet(length));
        push_instr(&mut body, Instr::Binop(BinaryOp::I32LtU));
        push_instr(&mut body, Instr::BrIf(0));
        proof {
            assert(instrs_view(body@) =~= load_local_code(local, local_val_type(inner@), (n + 5) as u32)
                + pack_code(inner@, (n + 5) as u32, n as u32, (n + 1) as u32, callees, n + 6)
                + vector_step_code(local, n, stack_data_size(inner@) as u32, esize));
        }
        push_loop_unless_zero(block, length, body);
        proof {
            assert(instrs_view(block@) =~= before + pack_code(
                IType::Vector(Box::new(inner@)),
                local,
                writer_pointer,
                calldata_reference_pointer,
                callees,
                n,
            ));
            assert(locals@ =~= locals0 + pack_locals(IType::Vector(Box::new(inner@))));
        }
    }
}

} // verus!

verus! {

/// The locals while a vector of 32-bit values at `p` is packed, before the turn for element `k`:
/// the vector's local points to element `k`, the data pointer (local `n`) to the word of element
/// `k` after the length word at `d`, the data reference (local `n + 1`) to the first element's
/// word, the length (local `n + 2`) is `len`, the offset (local `n + 3`) is `rv`, the counter
/// (local `n + 4`) is `k`, and the element local (`n + 5`) holds `last`; the others are `l`'s.
pub open spec fn vector_pack_locals(l: Seq<Value>, local: u32, n: int, p: int, d: int, len: u32, rv: u32, k: int, last: Value) -> Seq<Value> {
    l.update(local as int, Value::I32((p + 8 + 4 * k) as u32))
        .update(n, Value::I32((d + 32 + 32 * k) as u32))
        .update(n + 1, Value::I32((d + 32) as u32))
        .update(n + 2, Value::I32(len))
        .update(n + 3, Value::I32(rv))
        .update(n + 4, Value::I32(k as u32))
        .update(n + 5, last)
}

/// `m` once the first `k` elements of the vector at `p`, 32-bit values read from `m`, are
/// packed after the length word at `d`: element `j`'s four bytes, big-endian, end the word at
/// `d + 32 + 32 j`.
pub open spec fn packed_elements(m: Seq<u8>, p: int, d: int, k: nat) -> Seq<u8>
    decreases k,
{
    if k == 0 {
        m
    } else {
        write_bytes(
            packed_elements(m, p, d, (k - 1) as nat),
            d + 32 + 32 * (k - 1) + 28,
            le_bytes(load_u32(m, p + 8 + 4 * (k - 1)) as nat, 4).reverse(),
        )
    }
}

/// The body of the loop that packs the elements of a vector of 32-bit values.
pub open spec fn vector_pack_turn_code(local: u32, n: int, swap: u32) -> Seq<InstrView> {
    load_local_code(local, ValType::I32, (n + 5) as u32) + pack_i32_code((n + 5) as u32, n as u32, swap)
        + vector_step_code(local, n, 4, 32)
}

/// Packing the first elements keeps the memory's length and every byte outside the words
/// written.
proof fn lemma_packed_elements(m: Seq<u8>, p: int, d: int, k: nat)
    requires
        0 <= d,
        d + 32 + 32 * k <= m.len(),
    ensures
        packed_elements(m, p, d, k).len() == m.len(),
        forall|j: int| 0 <= j < m.len() && !(d + 32 <= j < d + 32 + 32 * k) ==> #[trigger] packed_elements(m, p, d, k)[j] == m[j],
    decreases k,
{
    if k > 0 {
        lemma_packed_elements(m, p, d, (k - 1) as nat);
        let prev = packed_elements(m, p, d, (k - 1) as nat);
        let bytes = le_bytes(load_u32(m, p + 8 + 4 * (k - 1)) as nat, 4).reverse();
        crate::wasm::lemma_le_bytes_len(load_u32(m, p + 8 + 4 * (k - 1)) as nat, 4);
        lemma_write_bytes(prev, d + 32 + 32 * (k - 1) + 28, bytes);
    }
}

/// The first part of a turn: element `k` is loaded and its word written.
#[verifier::rlimit(60)]
proof fn lemma_vector_pack_turn_write(
    env: Seq<FunctionView>,
    f: nat,
    local: u32,
    n: int,
    swap: u32,
    l: Seq<Value>,
    p: int,
    d: int,
    len: u32,
    rv: u32,
    k: int,
    last: Value,
    m: Seq<u8>,
)
    requires
        swap < env.len(),
        env[swap as int] == swap_i32_bytes_code(),
        local < n,
        n + 5 < l.len(),
        n + 5 <= u32::MAX,
        0 <= k < len,
        0 <= p,
        0 <= d,
        p + 8 + 4 * len <= m.len(),
        d + 32 + 32 * len <= m.len(),
        p + 8 + 4 * len <= u32::MAX,
        d + 32 + 32 * len <= u32::MAX,
        p + 8 + 4 * len <= d + 32 || d + 32 + 32 * len <= p + 8,
    ensures
        run(env, f, vector_pack_turn_code(local, n, swap), 0, Seq::empty(), vector_pack_locals(l, local, n, p, d, len, rv, k, last), packed_elements(m, p, d, k as nat))
            == run(env, f, vector_pack_turn_code(local, n, swap), 7, Seq::empty(),
                vector_pack_locals(l, local, n, p, d, len, rv, k, Value::I32(load_u32(m, p + 8 + 4 * k))),
                packed_elements(m, p, d, (k + 1) as nat)),
{
    let b = vector_pack_turn_code(local, n, swap);
    let e = Seq::<Value>::empty();
    let lk = vector_pack_locals(l, local, n, p, d, len, rv, k, last);
    let mk = packed_elements(m, p, d, k as nat);
    let a = p + 8 + 4 * k;
    let x = load_u32(m, a);
    lemma_packed_elements(m, p, d, k as nat);
    assert(mk.subrange(a, a + 4) =~= m.subrange(a, a + 4));
    lemma_le_value_fits(m.subrange(a, a + 4));
    assert(b[0] == InstrView::LocalGet(local));
    assert(lk[local as int] == Value::I32(a as u32));
    assert(run(env, f, b, 0, e, lk, mk) == run(env, f, b, 1, e.push(Value::I32(a as u32)), lk, mk));
    assert(e.push(Value::I32(a as u32)).drop_last() =~= e);
    assert(run(env, f, b, 1, e.push(Value::I32(a as u32)), lk, mk) == run(env, f, b, 2, e.push(Value::I32(x)), lk, mk));
    let lx = vector_pack_locals(l, local, n, p, d, len, rv, k, Value::I32(x));
    assert(lk.update(n + 5, Value::I32(x)) =~= lx);
    assert(e.push(Value::I32(x)).drop_last() =~= e);
    assert(run(env, f, b, 2, e.push(Value::I32(x)), lk, mk) == run(env, f, b, 3, e, lx, mk));
    assert(b.subrange(3, 7) =~= pack_i32_code((n + 5) as u32, n as u32, swap));
    assert(lx[n + 5] == Value::I32(x));
    assert(lx[n] == Value::I32((d + 32 + 32 * k) as u32));
    law_pack_i32(env, f, b, 3, e, lx, mk, (n + 5) as u32, n as u32, swap, x, (d + 32 + 32 * k) as u32);
}

/// The pointers move on in a turn: the vector's local by four bytes, the data pointer by a
/// word.
#[verifier::rlimit(40)]
proof fn lemma_vector_pack_turn_pointers(env: Seq<FunctionView>, f: nat, local: u32, n: int, swap: u32, l: Seq<Value>, a: u32, q: u32, mem: Seq<u8>)
    requires
        local < n,
        n + 5 < l.len(),
        n + 5 <= u32::MAX,
        l[local as int] == Value::I32(a),
        l[n] == Value::I32(q),
        a + 4 <= u32::MAX,
        q + 32 <= u32::MAX,
    ensures
        run(env, f, vector_pack_turn_code(local, n, swap), 7, Seq::empty(), l, mem)
            == run(env, f, vector_pack_turn_code(local, n, swap), 15, Seq::empty(),
                l.update(local as int, Value::I32((a + 4) as u32)).update(n, Value::I32((q + 32) as u32)), mem),
{
    let b = vector_pack_turn_code(local, n, swap);
    let e = Seq::<Value>::empty();
    let a2 = (a + 4) as u32;
    let q2 = (q + 32) as u32;
    assert(b[7] == InstrView::LocalGet(local));
    assert(b[8] == InstrView::I32Const(4));
    assert(b[9] == InstrView::Binop(BinaryOp::I32Add));
    assert(b[10] == InstrView::LocalSet(local));
    assert(b[11] == InstrView::LocalGet(n as u32));
    assert(b[12] == InstrView::I32Const(32));
    assert(b[13] == InstrView::Binop(BinaryOp::I32Add));
    assert(b[14] == InstrView::LocalSet(n as u32));
    assert(run(env, f, b, 7, e, l, mem) == run(env, f, b, 8, e.push(Value::I32(a)), l, mem));
    assert(run(env, f, b, 8, e.push(Value::I32(a)), l, mem) == run(env, f, b, 9, e.push(Value::I32(a)).push(Value::I32(4)), l, mem));
    assert(e.push(Value::I32(a)).push(Value::I32(4)).drop_last().drop_last() =~= e);
    assert(run(env, f, b, 9, e.push(Value::I32(a)).push(Value::I32(4)), l, mem) == run(env, f, b, 10, e.push(Value::I32(a2)), l, mem));
    let l1 = l.update(local as int, Value::I32(a2));
    assert(e.push(Value::I32(a2)).drop_last() =~= e);
    assert(run(env, f, b, 10, e.push(Value::I32(a2)), l, mem) == run(env, f, b, 11, e, l1, mem));
    assert(l1[n] == Value::I32(q));
    assert(run(env, f, b, 11, e, l1, mem) == run(env, f, b, 12, e.push(Value::I32(q)), l1, mem));
    assert(run(env, f, b, 12, e.push(Value::I32(q)), l1, mem) == run(env, f, b, 13, e.push(Value::I32(q)).push(Value::I32(32)), l1, mem));
    assert(e.push(Value::I32(q)).push(Value::I32(32)).drop_last().drop_last() =~= e);
    assert(run(env, f, b, 13, e.push(Value::I32(q)).push(Value::I32(32)), l1, mem) == run(env, f, b, 14, e.push(Value::I32(q2)), l1, mem));
    assert(e.push(Value::I32(q2)).drop_last() =~= e);
}

/// The counter moves on in a turn, and the loop runs again while it is below the length.
#[verifier::rlimit(40)]
proof fn lemma_vector_pack_turn_counter(env: Seq<FunctionView>, f: nat, local: u32, n: int, swap: u32, l: Seq<Value>, k: u32, len: u32, mem: Seq<u8>)
    requires
        local < n,
        n + 5 < l.len(),
        n + 5 <= u32::MAX,
        l[n + 4] == Value::I32(k),
        l[n + 2] == Value::I32(len),
        k < len,
    ensures
        run(env, f, vector_pack_turn_code(local, n, swap), 15, Seq::empty(), l, mem)
            == if k + 1 < len {
                Outcome::Break(0, l.update(n + 4, Value::I32((k + 1) as u32)), mem)
            } else {
                Outcome::Done(Seq::empty(), l.update(n + 4, Value::I32((k + 1) as u32)), mem)
            },
{
    let b = vector_pack_turn_code(local, n, swap);
    let e = Seq::<Value>::empty();
    let k2 = (k + 1) as u32;
    assert(b.len() == 22);
    assert(b[15] == InstrView::LocalGet((n + 4) as u32));
    assert(b[16] == InstrView::I32Const(1));
    assert(b[17] == InstrView::Binop(BinaryOp::I32Add));
    assert(b[18] == InstrView::LocalTee((n + 4) as u32));
    assert(b[19] == InstrView::LocalGet((n + 2) as u32));
    assert(b[20] == InstrView::Binop(BinaryOp::I32LtU));
    assert(b[21] == InstrView::BrIf(0));
    assert(run(env, f, b, 15, e, l, mem) == run(env, f, b, 16, e.push(Value::I32(k)), l, mem));
    assert(run(env, f, b, 16, e.push(Value::I32(k)), l, mem) == run(env, f, b, 17, e.push(Value::I32(k)).push(Value::I32(1)), l, mem));
    assert(e.push(Value::I32(k)).push(Value::I32(1)).drop_last().drop_last() =~= e);
    assert(run(env, f, b, 17, e.push(Value::I32(k)).push(Value::I32(1)), l, mem) == run(env, f, b, 18, e.push(Value::I32(k2)), l, mem));
    let l3 = l.update(n + 4, Value::I32(k2));
    assert(run(env, f, b, 18, e.push(Value::I32(k2)), l, mem) == run(env, f, b, 19, e.push(Value::I32(k2)), l3, mem));
    assert(l3[n + 2] == Value::I32(len));
    assert(run(env, f, b, 19, e.push(Value::I32(k2)), l3, mem) == run(env, f, b, 20, e.push(Value::I32(k2)).push(Value::I32(len)), l3, mem));
    let c: u32 = if k2 < len { 1 } else { 0 };
    assert(e.push(Value::I32(k2)).push(Value::I32(len)).drop_last().drop_last() =~= e);
    assert(run(env, f, b, 20, e.push(Value::I32(k2)).push(Value::I32(len)), l3, mem) == run(env, f, b, 21, e.push(Value::I32(c)), l3, mem));
    assert(e.push(Value::I32(c)).drop_last() =~= e);
    assert(e.push(Value::I32(c)).last() == Value::I32(c));
    if k + 1 < len {
        assert(c == 1);
        assert(run(env, f, b, 21, e.push(Value::I32(c)), l3, mem) == Outcome::Break(0, l3, mem));
    } else {
        assert(c == 0);
        assert(run(env, f, b, 21, e.push(Value::I32(c)), l3, mem) == run(env, f, b, 22, e, l3, mem));
        assert(run(env, f, b, 22, e, l3, mem) == Outcome::Done(e, l3, mem));
    }
}

/// A turn of the loop packs element `k`, then runs again while there are elements left.
#[verifier::rlimit(60)]
proof fn lemma_vector_pack_turn(
    env: Seq<FunctionView>,
    f: nat,
    local: u32,
    n: int,
    swap: u32,
    l: Seq<Value>,
    p: int,
    d: int,
    len: u32,
    rv: u32,
    k: int,
    last: Value,
    m: Seq<u8>,
)
    requires
        swap < env.len(),
        env[swap as int] == swap_i32_bytes_code(),
        local < n,
        n + 5 < l.len(),
        n + 5 <= u32::MAX,
        0 <= k < len,
        0 <= p,
        0 <= d,
        p + 8 + 4 * len <= m.len(),
        d + 32 + 32 * len <= m.len(),
        p + 8 + 4 * len <= u32::MAX,
        d + 32 + 32 * len <= u32::MAX,
        p + 8 + 4 * len <= d + 32 || d + 32 + 32 * len <= p + 8,
    ensures
        ({
            let next = vector_pack_locals(l, local, n, p, d, len, rv, k + 1, Value::I32(load_u32(m, p + 8 + 4 * k)));
            let mem = packed_elements(m, p, d, (k + 1) as nat);
            run(env, f, vector_pack_turn_code(local, n, swap), 0, Seq::empty(), vector_pack_locals(l, local, n, p, d, len, rv, k, last), packed_elements(m, p, d, k as nat))
                == if k + 1 < len {
                    Outcome::Break(0, next, mem)
                } else {
                    Outcome::Done(Seq::empty(), next, mem)
                }
        }),
{
    let x = Value::I32(load_u32(m, p + 8 + 4 * k));
    let mem = packed_elements(m, p, d, (k + 1) as nat);
    lemma_vector_pack_turn_write(env, f, local, n, swap, l, p, d, len, rv, k, last, m);
    let lx = vector_pack_locals(l, local, n, p, d, len, rv, k, x);
    assert(lx[local as int] == Value::I32((p + 8 + 4 * k) as u32));
    assert(lx[n] == Value::I32((d + 32 + 32 * k) as u32));
    lemma_vector_pack_turn_pointers(env, f, local, n, swap, lx, (p + 8 + 4 * k) as u32, (d + 32 + 32 * k) as u32, mem);
    let l2 = lx.update(local as int, Value::I32((p + 8 + 4 * k + 4) as u32)).update(n, Value::I32((d + 32 + 32 * k + 32) as u32));
    assert(l2[n + 4] == Value::I32(k as u32));
    assert(l2[n + 2] == Value::I32(len));
    lemma_vector_pack_turn_counter(env, f, local, n, swap, l2, k as u32, len, mem);
    assert(l2.update(n + 4, Value::I32((k + 1) as u32)) =~= vector_pack_locals(l, local, n, p, d, len, rv, k + 1, x));
}

/// The loop packs the elements from `k` on, running again `len - 1 - k` times.
#[verifier::rlimit(40)]
proof fn lemma_vector_pack_loop(
    env: Seq<FunctionView>,
    f: nat,
    b: Seq<InstrView>,
    j: int,
    s: Seq<Value>,
    local: u32,
    n: int,
    swap: u32,
    l: Seq<Value>,
    p: int,
    d: int,
    len: u32,
    rv: u32,
    k: int,
    last: Value,
    m: Seq<u8>,
)
    requires
        0 <= j < b.len(),
        b[j] == InstrView::Loop(vector_pack_turn_code(local, n, swap)),
        swap < env.len(),
        env[swap as int] == swap_i32_bytes_code(),
        local < n,
        n + 5 < l.len(),
        n + 5 <= u32::MAX,
        0 <= k < len,
        f >= len - 1 - k,
        0 <= p,
        0 <= d,
        p + 8 + 4 * len <= m.len(),
        d + 32 + 32 * len <= m.len(),
        p + 8 + 4 * len <= u32::MAX,
        d + 32 + 32 * len <= u32::MAX,
        p + 8 + 4 * len <= d + 32 || d + 32 + 32 * len <= p + 8,
    ensures
        run(env, f, b, j, s, vector_pack_locals(l, local, n, p, d, len, rv, k, last), packed_elements(m, p, d, k as nat))
            == run(env, (f - (len - 1 - k)) as nat, b, j + 1, s,
                vector_pack_locals(l, local, n, p, d, len, rv, len as int, Value::I32(load_u32(m, p + 8 + 4 * (len - 1)))),
                packed_elements(m, p, d, len as nat)),
    decreases len - k,
{
    let x = Value::I32(load_u32(m, p + 8 + 4 * k));
    lemma_vector_pack_turn(env, f, local, n, swap, l, p, d, len, rv, k, last, m);
    if k + 1 < len {
        lemma_vector_pack_loop(env, (f - 1) as nat, b, j, s, local, n, swap, l, p, d, len, rv, k + 1, x, m);
    }
}

/// The instructions of the start of a vector's packing, up to the offset of its data: see
/// `vector_head_code`.
pub open spec fn vector_allocate_code(local: u32, cref: u32, alloc: u32, n: int) -> Seq<InstrView> {
    load_local_code(local, ValType::I32, (n + 2) as u32) + seq![
        InstrView::LocalGet((n + 2) as u32),
        InstrView::I32Const(32),
        InstrView::Binop(BinaryOp::I32Mul),
        InstrView::I32Const(32),
        InstrView::Binop(BinaryOp::I32Add),
        InstrView::Call(alloc),
        InstrView::LocalTee(n as u32),
        InstrView::LocalGet(cref),
        InstrView::Binop(BinaryOp::I32Sub),
        InstrView::LocalSet((n + 3) as u32),
    ]
}

/// The length of the vector at `p` is read, and the size of its length word and element words
/// computed.
#[verifier::rlimit(60)]
proof fn lemma_vector_pack_size(
    env: Seq<FunctionView>,
    fuel: nat,
    b: Seq<InstrView>,
    i: int,
    s: Seq<Value>,
    l: Seq<Value>,
    mem: Seq<u8>,
    local: u32,
    cref: u32,
    alloc: u32,
    n: int,
    p: u32,
)
    requires
        0 <= i,
        i + 13 <= b.len(),
        b.subrange(i, i + 13) == vector_allocate_code(local, cref, alloc, n),
        local < n,
        n + 5 < l.len(),
        n + 5 <= u32::MAX,
        l[local as int] == Value::I32(p),
        p + 4 <= mem.len(),
        32 * load_u32(mem, p as int) + 32 <= u32::MAX,
    ensures
        run(env, fuel, b, i, s, l, mem) == run(env, fuel, b, i + 8,
            s.push(Value::I32((32 * load_u32(mem, p as int) + 32) as u32)),
            l.update(n + 2, Value::I32(load_u32(mem, p as int))), mem),
{
    let code = vector_allocate_code(local, cref, alloc, n);
    assert(b[i] == code[0] && b[i + 1] == code[1] && b[i + 2] == code[2] && b[i + 3] == code[3]);
    assert(b[i + 4] == code[4] && b[i + 5] == code[5] && b[i + 6] == code[6] && b[i + 7] == code[7]);
    let len = load_u32(mem, p as int);
    let size = (32 * len + 32) as u32;
    lemma_le_value_fits(mem.subrange(p as int, p + 4));
    let sp = s.push(Value::I32(p));
    assert(run(env, fuel, b, i, s, l, mem) == run(env, fuel, b, i + 1, sp, l, mem));
    assert(sp.drop_last() =~= s);
    assert(run(env, fuel, b, i + 1, sp, l, mem) == run(env, fuel, b, i + 2, s.push(Value::I32(len)), l, mem));
    let l1 = l.update(n + 2, Value::I32(len));
    assert(s.push(Value::I32(len)).drop_last() =~= s);
    assert(run(env, fuel, b, i + 2, s.push(Value::I32(len)), l, mem) == run(env, fuel, b, i + 3, s, l1, mem));
    assert(run(env, fuel, b, i + 3, s, l1, mem) == run(env, fuel, b, i + 4, s.push(Value::I32(len)), l1, mem));
    assert(run(env, fuel, b, i + 4, s.push(Value::I32(len)), l1, mem) == run(env, fuel, b, i + 5, s.push(Value::I32(len)).push(Value::I32(32)), l1, mem));
    assert(s.push(Value::I32(len)).push(Value::I32(32)).drop_last().drop_last() =~= s);
    assert(run(env, fuel, b, i + 5, s.push(Value::I32(len)).push(Value::I32(32)), l1, mem)
        == run(env, fuel, b, i + 6, s.push(Value::I32((32 * len) as u32)), l1, mem));
    assert(run(env, fuel, b, i + 6, s.push(Value::I32((32 * len) as u32)), l1, mem)
        == run(env, fuel, b, i + 7, s.push(Value::I32((32 * len) as u32)).push(Value::I32(32)), l1, mem));
    assert(s.push(Value::I32((32 * len) as u32)).push(Value::I32(32)).drop_last().drop_last() =~= s);
}

/// The allocator (callee `alloc`) gives the address `d` of the length word and the element
/// words, and the offset of that data from the calldata reference `r` is kept.
#[verifier::rlimit(60)]
proof fn lemma_vector_pack_allocate(
    env: Seq<FunctionView>,
    fuel: nat,
    b: Seq<InstrView>,
    i: int,
    s: Seq<Value>,
    l: Seq<Value>,
    mem: Seq<u8>,
    local: u32,
    cref: u32,
    alloc: u32,
    n: int,
    size: u32,
    r: u32,
    d: u32,
    m1: Seq<u8>,
)
    requires
        0 <= i,
        i + 13 <= b.len(),
        b.subrange(i, i + 13) == vector_allocate_code(local, cref, alloc, n),
        cref < n,
        n + 5 < l.len(),
        n + 5 <= u32::MAX,
        l[cref as int] == Value::I32(r),
        alloc < env.len(),
        env[alloc as int].params.len() == 1,
        crate::wasm::invoke(env.take(alloc as int), fuel, env[alloc as int], seq![Value::I32(size)], mem)
            == crate::wasm::Completion::Returned(seq![Value::I32(d)], m1),
    ensures
        run(env, fuel, b, i + 8, s.push(Value::I32(size)), l, mem) == run(env, fuel, b, i + 13, s,
            l.update(n, Value::I32(d)).update(n + 3, Value::I32(crate::wasm::wrap32(d - r))), m1),
{
    let code = vector_allocate_code(local, cref, alloc, n);
    assert(b[i + 8] == code[8] && b[i + 9] == code[9] && b[i + 10] == code[10] && b[i + 11] == code[11]);
    assert(b[i + 12] == code[12]);
    assert(s + seq![Value::I32(size)] =~= s.push(Value::I32(size)));
    assert(s + seq![Value::I32(d)] =~= s.push(Value::I32(d)));
    crate::wasm::lemma_call_returning(env, fuel, mem, b, i + 8, s, l, alloc, seq![Value::I32(size)], seq![Value::I32(d)], m1);
    let l2 = l.update(n, Value::I32(d));
    assert(run(env, fuel, b, i + 9, s.push(Value::I32(d)), l, m1) == run(env, fuel, b, i + 10, s.push(Value::I32(d)), l2, m1));
    assert(l2[cref as int] == Value::I32(r));
    assert(run(env, fuel, b, i + 10, s.push(Value::I32(d)), l2, m1) == run(env, fuel, b, i + 11, s.push(Value::I32(d)).push(Value::I32(r)), l2, m1));
    assert(s.push(Value::I32(d)).push(Value::I32(r)).drop_last().drop_last() =~= s);
    let rv = crate::wasm::wrap32(d - r);
    assert(run(env, fuel, b, i + 11, s.push(Value::I32(d)).push(Value::I32(r)), l2, m1) == run(env, fuel, b, i + 12, s.push(Value::I32(rv)), l2, m1));
    assert(s.push(Value::I32(rv)).drop_last() =~= s);
}

/// The instructions of a vector's packing after the allocation, up to its loop: see
/// `vector_head_code`.
pub open spec fn vector_words_code(local: u32, writer: u32, swap: u32, n: int) -> Seq<InstrView> {
    pack_i32_code((n + 3) as u32, writer, swap) + seq![
        InstrView::LocalGet(local),
        InstrView::I32Const(8),
        InstrView::Binop(BinaryOp::I32Add),
        InstrView::LocalSet(local),
    ] + pack_i32_code((n + 2) as u32, n as u32, swap) + seq![
        InstrView::LocalGet(n as u32),
        InstrView::I32Const(32),
        InstrView::Binop(BinaryOp::I32Add),
        InstrView::LocalTee(n as u32),
        InstrView::LocalSet((n + 1) as u32),
        InstrView::I32Const(0),
        InstrView::LocalSet((n + 4) as u32),
    ]
}

/// The memory once the offset `rv` of a vector's data is written in the word at `w` and its
/// length `len` in the word at `d`, each big-endian in the last four bytes.
pub open spec fn vector_head_memory(m: Seq<u8>, w: int, rv: u32, d: int, len: u32) -> Seq<u8> {
    write_bytes(write_bytes(m, w + 28, le_bytes(rv as nat, 4).reverse()), d + 28, le_bytes(len as nat, 4).reverse())
}

/// The offset word is written and the vector's local moves to its first element.
#[verifier::rlimit(60)]
proof fn lemma_vector_pack_offset_word(
    env: Seq<FunctionView>,
    fuel: nat,
    b: Seq<InstrView>,
    i: int,
    s: Seq<Value>,
    l: Seq<Value>,
    m: Seq<u8>,
    local: u32,
    writer: u32,
    swap: u32,
    n: int,
    p: u32,
    w: u32,
    rv: u32,
)
    requires
        0 <= i,
        i + 19 <= b.len(),
        b.subrange(i, i + 19) == vector_words_code(local, writer, swap, n),
        swap < env.len(),
        env[swap as int] == swap_i32_bytes_code(),
        local < n,
        writer < n,
        n + 5 < l.len(),
        n + 5 <= u32::MAX,
        l[local as int] == Value::I32(p),
        l[writer as int] == Value::I32(w),
        l[n + 3] == Value::I32(rv),
        w + 32 <= m.len(),
        p + 8 <= u32::MAX,
    ensures
        run(env, fuel, b, i, s, l, m) == run(env, fuel, b, i + 8, s, l.update(local as int, Value::I32((p + 8) as u32)),
            write_bytes(m, w + 28, le_bytes(rv as nat, 4).reverse())),
{
    let code = vector_words_code(local, writer, swap, n);
    assert(b.subrange(i, i + 4) =~= pack_i32_code((n + 3) as u32, writer, swap));
    law_pack_i32(env, fuel, b, i, s, l, m, (n + 3) as u32, writer, swap, rv, w);
    let ma = write_bytes(m, w + 28, le_bytes(rv as nat, 4).reverse());
    assert(b[i + 4] == code[4] && b[i + 5] == code[5] && b[i + 6] == code[6] && b[i + 7] == code[7]);
    let p8 = (p + 8) as u32;
    assert(run(env, fuel, b, i + 4, s, l, ma) == run(env, fuel, b, i + 5, s.push(Value::I32(p)), l, ma));
    assert(run(env, fuel, b, i + 5, s.push(Value::I32(p)), l, ma) == run(env, fuel, b, i + 6, s.push(Value::I32(p)).push(Value::I32(8)), l, ma));
    assert(s.push(Value::I32(p)).push(Value::I32(8)).drop_last().drop_last() =~= s);
    assert(run(env, fuel, b, i + 6, s.push(Value::I32(p)).push(Value::I32(8)), l, ma) == run(env, fuel, b, i + 7, s.push(Value::I32(p8)), l, ma));
    assert(s.push(Value::I32(p8)).drop_last() =~= s);
}

/// The length word is written, and the data pointer and data reference point to the first
/// element's word.
#[verifier::rlimit(60)]
proof fn lemma_vector_pack_length_word(
    env: Seq<FunctionView>,
    fuel: nat,
    b: Seq<InstrView>,
    i: int,
    s: Seq<Value>,
    l: Seq<Value>,
    m: Seq<u8>,
    local: u32,
    writer: u32,
    swap: u32,
    n: int,
    d: u32,
    len: u32,
)
    requires
        0 <= n,
        0 <= i,
        i + 19 <= b.len(),
        b.subrange(i, i + 19) == vector_words_code(local, writer, swap, n),
        swap < env.len(),
        env[swap as int] == swap_i32_bytes_code(),
        n + 5 < l.len(),
        n + 5 <= u32::MAX,
        l[n] == Value::I32(d),
        l[n + 2] == Value::I32(len),
        d + 32 <= m.len(),
        d + 32 <= u32::MAX,
    ensures
        run(env, fuel, b, i + 8, s, l, m) == run(env, fuel, b, i + 19, s,
            l.update(n, Value::I32((d + 32) as u32)).update(n + 1, Value::I32((d + 32) as u32)).update(n + 4, Value::I32(0)),
            write_bytes(m, d + 28, le_bytes(len as nat, 4).reverse())),
{
    let code = vector_words_code(local, writer, swap, n);
    assert(code.subrange(8, 12) =~= pack_i32_code((n + 2) as u32, n as u32, swap));
    assert forall|j: int| 0 <= j < 19 implies b[i + j] == #[trigger] code[j] by {
        assert(b.subrange(i, i + 19)[j] == b[i + j]);
    }
    assert(b.subrange(i + 8, i + 12) =~= pack_i32_code((n + 2) as u32, n as u32, swap));
    law_pack_i32(env, fuel, b, i + 8, s, l, m, (n + 2) as u32, n as u32, swap, len, d);
    let mb = write_bytes(m, d + 28, le_bytes(len as nat, 4).reverse());
    assert(b[i + 12] == code[12] && b[i + 13] == code[13] && b[i + 14] == code[14] && b[i + 15] == code[15]);
    assert(b[i + 16] == code[16] && b[i + 17] == code[17] && b[i + 18] == code[18]);
    let d32 = (d + 32) as u32;
    assert(run(env, fuel, b, i + 12, s, l, mb) == run(env, fuel, b, i + 13, s.push(Value::I32(d)), l, mb));
    assert(run(env, fuel, b, i + 13, s.push(Value::I32(d)), l, mb) == run(env, fuel, b, i + 14, s.push(Value::I32(d)).push(Value::I32(32)), l, mb));
    assert(s.push(Value::I32(d)).push(Value::I32(32)).drop_last().drop_last() =~= s);
    assert(run(env, fuel, b, i + 14, s.push(Value::I32(d)).push(Value::I32(32)), l, mb) == run(env, fuel, b, i + 15, s.push(Value::I32(d32)), l, mb));
    let l2 = l.update(n, Value::I32(d32));
    assert(run(env, fuel, b, i + 15, s.push(Value::I32(d32)), l, mb) == run(env, fuel, b, i + 16, s.push(Value::I32(d32)), l2, mb));
    let l3 = l2.update(n + 1, Value::I32(d32));
    assert(s.push(Value::I32(d32)).drop_last() =~= s);
    assert(run(env, fuel, b, i + 16, s.push(Value::I32(d32)), l2, mb) == run(env, fuel, b, i + 17, s, l3, mb));
    assert(run(env, fuel, b, i + 17, s, l3, mb) == run(env, fuel, b, i + 18, s.push(Value::I32(0)), l3, mb));
    assert(s.push(Value::I32(0)).drop_last() =~= s);
}

/// Packing a vector of 32-bit values (booleans, `u8`, `u16` or `u32`, each kept in four bytes)
/// at address `p`, whose length `len` is at `p`, its capacity at `p + 4` and its elements from
/// `p + 8` on: the allocator gives the address `d` of `32 + 32 len` bytes; the offset of `d` from
/// the calldata reference `r` is written big-endian at the end of the word at `w`, the length at
/// the end of the word at `d`, and each element at the end of its word after it, in order. An
/// empty vector packs no element, and the element local keeps its value; for the others the
/// loop runs again `len - 1` times, and the element local holds the last element.
#[verifier::rlimit(80)]
pub proof fn law_pack_vector_of_words(
    env: Seq<FunctionView>,
    fuel: nat,
    b: Seq<InstrView>,
    i: int,
    s: Seq<Value>,
    l: Seq<Value>,
    mem: Seq<u8>,
    t: IType,
    local: u32,
    writer: u32,
    cref: u32,
    c: AbiCallees,
    n: int,
    p: u32,
    w: u32,
    r: u32,
    d: u32,
    m1: Seq<u8>,
)
    requires
        t is Bool || t is U8 || t is U16 || t is U32,
        0 <= i,
        i + 33 <= b.len(),
        b.subrange(i, i + 33) == pack_code(IType::Vector(Box::new(t)), local, writer, cref, c, n),
        c.swap_i32_bytes < env.len(),
        env[c.swap_i32_bytes as int] == swap_i32_bytes_code(),
        c.allocator < env.len(),
        env[c.allocator as int].params.len() == 1,
        local < n,
        writer < n,
        cref < n,
        n + 5 < l.len(),
        n + 5 <= u32::MAX,
        l[local as int] == Value::I32(p),
        l[writer as int] == Value::I32(w),
        l[cref as int] == Value::I32(r),
        p + 4 <= mem.len(),
        fuel >= load_u32(mem, p as int) - 1,
        crate::wasm::invoke(env.take(c.allocator as int), fuel, env[c.allocator as int],
            seq![Value::I32((32 * load_u32(mem, p as int) + 32) as u32)], mem)
            == crate::wasm::Completion::Returned(seq![Value::I32(d)], m1),
        w + 32 <= m1.len(),
        p + 8 + 4 * load_u32(mem, p as int) <= m1.len(),
        d + 32 + 32 * load_u32(mem, p as int) <= m1.len(),
        p + 8 + 4 * load_u32(mem, p as int) <= u32::MAX,
        d + 32 + 32 * load_u32(mem, p as int) <= u32::MAX,
        p + 8 + 4 * load_u32(mem, p as int) <= d + 32 || d + 32 + 32 * load_u32(mem, p as int) <= p + 8,
    ensures
        ({
            let len = load_u32(mem, p as int);
            let rv = crate::wasm::wrap32(d - r);
            let m = vector_head_memory(m1, w as int, rv, d as int, len);
            let last = if len == 0 { l[n + 5] } else { Value::I32(load_u32(m, p + 8 + 4 * (len - 1))) };
            run(env, fuel, b, i, s, l, mem) == run(env, fuel, b, i + 33, s,
                vector_pack_locals(l, local, n, p as int, d as int, len, rv, len as int, last),
                packed_elements(m, p as int, d as int, len as nat))
        }),
{
    let len = load_u32(mem, p as int);
    let rv = crate::wasm::wrap32(d - r);
    let m = vector_head_memory(m1, w as int, rv, d as int, len);
    let swap = c.swap_i32_bytes;
    let code = pack_code(IType::Vector(Box::new(t)), local, writer, cref, c, n);
    let turn = vector_pack_turn_code(local, n, swap);
    assert(pack_code(t, (n + 5) as u32, n as u32, (n + 1) as u32, c, n + 6) == pack_i32_code((n + 5) as u32, n as u32, swap));
    assert(code == vector_head_code(local, writer, cref, c, n, 32).push(loop_unless_zero((n + 2) as u32, turn)));
    assert(code.subrange(0, 13) =~= vector_allocate_code(local, cref, c.allocator, n));
    assert(code.subrange(13, 32) =~= vector_words_code(local, writer, swap, n));
    assert(b.subrange(i, i + 13) =~= code.subrange(0, 13));
    assert(b.subrange(i + 13, i + 32) =~= code.subrange(13, 32));
    assert(b[i + 32] == code[32]);
    lemma_vector_pack_size(env, fuel, b, i, s, l, mem, local, cref, c.allocator, n, p);
    let size = (32 * len + 32) as u32;
    let l1 = l.update(n + 2, Value::I32(len));
    assert(l1[cref as int] == Value::I32(r));
    lemma_vector_pack_allocate(env, fuel, b, i, s, l1, mem, local, cref, c.allocator, n, size, r, d, m1);
    let l2 = l1.update(n, Value::I32(d)).update(n + 3, Value::I32(rv));
    lemma_vector_pack_offset_word(env, fuel, b, i + 13, s, l2, m1, local, writer, swap, n, p, w, rv);
    let ma = write_bytes(m1, w + 28, le_bytes(rv as nat, 4).reverse());
    let la = l2.update(local as int, Value::I32((p + 8) as u32));
    crate::wasm::lemma_le_bytes_len(rv as nat, 4);
    lemma_write_bytes(m1, w + 28, le_bytes(rv as nat, 4).reverse());
    assert(la[n] == Value::I32(d));
    assert(la[n + 2] == Value::I32(len));
    lemma_vector_pack_length_word(env, fuel, b, i + 13, s, la, ma, local, writer, swap, n, d, len);
    let l3 = la.update(n, Value::I32((d + 32) as u32)).update(n + 1, Value::I32((d + 32) as u32)).update(n + 4, Value::I32(0));
    let last = l[n + 5];
    assert(l3 =~= vector_pack_locals(l, local, n, p as int, d as int, len, rv, 0, last));
    crate::wasm::lemma_le_bytes_len(rv as nat, 4);
    crate::wasm::lemma_le_bytes_len(len as nat, 4);
    lemma_write_bytes(m1, w + 28, le_bytes(rv as nat, 4).reverse());
    lemma_write_bytes(write_bytes(m1, w + 28, le_bytes(rv as nat, 4).reverse()), d + 28, le_bytes(len as nat, 4).reverse());
    assert(packed_elements(m, p as int, d as int, 0) == m);
    assert(l3[n + 2] == Value::I32(len));
    lemma_loop_unless_zero(env, fuel, b, i + 32, s, l3, m, (n + 2) as u32, turn, len);
    if len != 0 {
        let g = loop_unless_zero_body((n + 2) as u32, turn);
        let e = Seq::<Value>::empty();
        lemma_vector_pack_loop(env, fuel, g, 4, e, local, n, swap, l, p as int, d as int, len, rv, 0, last, m);
        let lf = vector_pack_locals(l, local, n, p as int, d as int, len, rv, len as int, Value::I32(load_u32(m, p + 8 + 4 * (len - 1))));
        let mf = packed_elements(m, p as int, d as int, len as nat);
        let f2 = (fuel - (len - 1)) as nat;
        assert(run(env, f2, g, 5, e, lf, mf) == Outcome::Done(e, lf, mf));
        assert(s + e =~= s);
    }
}

} // verus!
