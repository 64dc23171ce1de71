//! Reading a vector argument: its data, at the offset in its word, holds its length and its
//! elements, which are read in a loop, each as its type, into a newly allocated vector.
use vstd::prelude::*;

use crate::abi_types::packing::{AbiCallees, add_local, local_val_type, stack_data_size};
use crate::abi_types::packing::pack_vector::{IVector, packed_elements, vector_head_memory};
use crate::abi_types::unpacking::{
    add_fits_u32_check, allocate_vector_with_header, unpack_code, unpack_locals, unpackable, vector_unpack_head_code,
    vector_unpack_step_code,
};
use crate::compilation_context::CompilationContext;
use crate::intermediate_types::{IType, IntermediateType};
use crate::abi_types::unpacking::{allocate_vector_code, fits_u32_check_code, vector_room, zero_word_check};
use crate::intermediate_types::IEnum;
use crate::abi_types::unpacking::unpack_native_int::{law_unpack_i32, lemma_bswap32_be, unpack_i32_code};
use crate::runtime::swap::{bswap32, law_swap_i32_bytes, swap_i32_bytes_code};
use crate::wasm::{
    BinaryOp, FunctionView, Instr, InstrView, Outcome, ValType, Value, be_value, encode, instrs_view, le_bytes, le_value,
    lemma_call_returning, lemma_le_bytes_len, lemma_le_value_fits, lemma_le_value_zero, lemma_write_bytes, load_u32,
    lemma_write_bytes_elsewhere, pow256, push_instr, run, store_u32, wrap32, write_bytes,
};

verus! {

/// Appends `vector_unpack_head_code`, with fresh locals numbered from `n`.
#[verifier::rlimit(60)]
fn vector_unpack_head(block: &mut Vec<Instr>, reader_pointer: u32, calldata_reader_pointer: u32, callees: AbiCallees, n: u32, ssize: u32)
    requires
        n + 5 <= u32::MAX,
    ensures
        instrs_view(final(block)@) == instrs_view(old(block)@) + vector_unpack_head_code(
            reader_pointer,
            calldata_reader_pointer,
            callees,
            n as int,
            ssize,
        ),
{
    let ghost before = instrs_view(block@);
    let data_reader_pointer = n;
    let length = n + 1;
    let vector_pointer = n + 2;
    let writer_pointer = n + 3;
    let i = n + 4;
    let elements_reader_pointer = n + 5;

    // The offset of the data must fit in 32 bits to address memory
    add_fits_u32_check(block, reader_pointer);
    push_instr(block, Instr::LocalGet(reader_pointer));
    push_instr(block, Instr::Load(ValType::I32, 28));
    push_instr(block, Instr::Call(callees.swap_i32_bytes));
    push_instr(block, Instr::LocalGet(calldata_reader_pointer));
    push_instr(block, Instr::Binop(BinaryOp::I32Add));
    push_instr(block, Instr::LocalSet(data_reader_pointer));

    // The reader moves to the next argument
    push_instr(block, Instr::LocalGet(reader_pointer));
    push_instr(block, Instr::I32Const(32));
    push_instr(block, Instr::Binop(BinaryOp::I32Add));
    push_instr(block, Instr::LocalSet(reader_pointer));

    // The length must fit in 32 bits too
    add_fits_u32_check(block, data_reader_pointer);
    push_instr(block, Instr::LocalGet(data_reader_pointer));
    push_instr(block, Instr::Load(ValType::I32, 28));
    push_instr(block, Instr::Call(callees.swap_i32_bytes));
    push_instr(block, Instr::LocalSet(length));
    push_instr(block, Instr::LocalGet(data_reader_pointer));
    push_instr(block, Instr::I32Const(32));
    push_instr(block, Instr::Binop(BinaryOp::I32Add));
    push_instr(block, Instr::LocalSet(data_reader_pointer));

    allocate_vector_with_header(block, vector_pointer, length, length, ssize, callees.allocator);
    push_instr(block, Instr::LocalGet(vector_pointer));
    push_instr(block, Instr::LocalSet(writer_pointer));
    // Past the length and the capacity
    push_instr(block, Instr::LocalGet(writer_pointer));
    push_instr(block, Instr::I32Const(8));
    push_instr(block, Instr::Binop(BinaryOp::I32Add));
    push_instr(block, Instr::LocalSet(writer_pointer));
    push_instr(block, Instr::I32Const(0));
    push_instr(block, Instr::LocalSet(i));
    push_instr(block, Instr::LocalGet(data_reader_pointer));
    push_instr(block, Instr::LocalSet(elements_reader_pointer));
    assert(instrs_view(block@) =~= before + vector_unpack_head_code(
        reader_pointer,
        calldata_reader_pointer,
        callees,
        n as int,
        ssize,
    ));
}

impl IVector {
    /// Appends the instructions that read a vector argument of `inner` values at the reader
    /// pointer and leave the address of a newly allocated vector holding them (see
    /// `unpack_code`). The code traps when the offset or the length does not fit in 32 bits.
    #[verifier::rlimit(80)]
    pub fn add_unpack_instructions<M, F>(
        inner: &IntermediateType,
        block: &mut Vec<Instr>,
        locals: &mut Vec<ValType>,
        first_local: u32,
        reader_pointer: u32,
        calldata_reader_pointer: u32,
        compilation_ctx: &CompilationContext<M, F>,
        callees: AbiCallees,
    )
        requires
            unpackable(inner@, compilation_ctx.root_module_data.enums.enums@),
            first_local + old(locals)@.len() + unpack_locals(IType::Vector(Box::new(inner@))).len() <= u32::MAX,
        ensures
            instrs_view(final(block)@) == instrs_view(old(block)@) + unpack_code(
                IType::Vector(Box::new(inner@)),
                reader_pointer,
                calldata_reader_pointer,
                callees,
                compilation_ctx.root_module_data.enums.enums@,
                first_local + old(locals)@.len(),
            ),
            final(locals)@ == old(locals)@ + unpack_locals(IType::Vector(Box::new(inner@))),
        decreases inner, 1int,
    {
        let ghost n: int = first_local + locals@.len();
        let ghost locals0 = locals@;
        let ghost enums = compilation_ctx.root_module_data.enums.enums@;
        let ghost before = instrs_view(block@);
        let data_reader_pointer = add_local(locals, first_local, ValType::I32);
        let length = add_local(locals, first_local, ValType::I32);
        let vector_pointer = add_local(locals, first_local, ValType::I32);
        let writer_pointer = add_local(locals, first_local, ValType::I32);
        let i = add_local(locals, first_local, ValType::I32);
        let elements_reader_pointer = add_local(locals, first_local, ValType::I32);
        let ssize = inner.stack_data_size();
        vector_unpack_head(block, reader_pointer, calldata_reader_pointer, callees, data_reader_pointer, ssize);
        proof {
            assert(locals@ =~= locals0 + seq![ValType::I32, ValType::I32, ValType::I32, ValType::I32, ValType::I32, ValType::I32]);
        }

        // Each element, read as its type and stored in the vector
        let mut body: Vec<Instr> = Vec::new();
        push_instr(&mut body, Instr::LocalGet(writer_pointer));
        inner.add_unpack_instructions(
            &mut body,
            locals,
            first_local,
            data_reader_pointer,
            elements_reader_pointer,
            compilation_ctx,
            callees,
        );
        push_instr(&mut body, Instr::Store(inner.local_val_type(), 0));
        push_instr(&mut body, Instr::LocalGet(writer_pointer));
        push_instr(&mut body, Instr::I32Const(ssize));
        push_instr(&mut body, Instr::Binop(BinaryOp::I32Add));
        push_instr(&mut body, Instr::LocalSet(writer_pointer));
        push_instr(&mut body, Instr::LocalGet(i));
        push_instr(&mut body, Instr::I32Const(1));
        push_instr(&mut body, Instr::Binop(BinaryOp::I32Add));
        push_instr(&mut body, Instr::LocalTee(i));
        push_instr(&mut body, Instr::LocalGet(length));
        push_instr(&mut body, Instr::Binop(BinaryOp::I32LtU));
        push_instr(&mut body, Instr::BrIf(0));
        proof {
            assert(instrs_view(body@) =~= seq![InstrView::LocalGet((n + 3) as u32)]
                + unpack_code(inner@, n as u32, (n + 5) as u32, callees, enums, n + 6)
                + vector_unpack_step_code(n, local_val_type(inner@), ssize));
        }
        push_instr(block, Instr::Loop(body));

        // The vector's address is left on the stack
        push_instr(block, Instr::LocalGet(vector_pointer));
        proof {
            assert(instrs_view(block@) =~= before + unpack_code(
                IType::Vector(Box::new(inner@)),
                reader_pointer,
                calldata_reader_pointer,
                callees,
                enums,
                n,
            ));
            assert(locals@ =~= locals0 + unpack_locals(IType::Vector(Box::new(inner@))));
        }
    }
}

} // verus!

verus! {

/// Whether the number in the ABI word at `at` fits in 32 bits: its first 28 bytes are zero.
pub open spec fn word_fits_u32(m: Seq<u8>, at: int) -> bool {
    forall|j: int| 0 <= j < 28 ==> #[trigger] m[at + j] == 0
}

/// The number in the last four bytes of the ABI word at `at`, read big-endian.
pub open spec fn word_u32(m: Seq<u8>, at: int) -> u32 {
    be_value(m.subrange(at + 28, at + 32)) as u32
}

/// The number in the word at `at` fits in 32 bits exactly when each of its first seven groups
/// of four bytes is zero.
proof fn lemma_word_fits_u32(m: Seq<u8>, at: int)
    requires
        0 <= at,
        at + 32 <= m.len(),
    ensures
        word_fits_u32(m, at) == (forall|t: int| 0 <= t < 7 ==> #[trigger] load_u32(m, at + 4 * t) == 0),
{
    assert forall|t: int| 0 <= t < 7 implies (#[trigger] load_u32(m, at + 4 * t) == 0) == (forall|j: int| 0 <= j < 4 ==> #[trigger] m[at + 4 * t + j] == 0) by {
        let bytes = m.subrange(at + 4 * t, at + 4 * t + 4);
        lemma_le_value_zero(bytes);
        lemma_le_value_fits(bytes);
        assert forall|j: int| 0 <= j < 4 implies #[trigger] bytes[j] == m[at + 4 * t + j] by {}
        if load_u32(m, at + 4 * t) == 0 {
            assert(le_value(bytes) == 0);
            assert forall|j: int| 0 <= j < 4 implies #[trigger] m[at + 4 * t + j] == 0 by {
                assert(bytes[j] == 0);
            }
        } else {
            assert(le_value(bytes) != 0);
            let j = choose|j: int| 0 <= j < bytes.len() && bytes[j] != 0;
            assert(m[at + 4 * t + j] != 0);
        }
    }
    if word_fits_u32(m, at) {
        assert forall|t: int| 0 <= t < 7 implies #[trigger] load_u32(m, at + 4 * t) == 0 by {
            assert forall|j: int| 0 <= j < 4 implies #[trigger] m[at + 4 * t + j] == 0 by {
                assert(m[at + (4 * t + j)] == 0);
            }
        }
    }
    if forall|t: int| 0 <= t < 7 ==> #[trigger] load_u32(m, at + 4 * t) == 0 {
        assert forall|j: int| 0 <= j < 28 implies #[trigger] m[at + j] == 0 by {
            let t = j / 4;
            assert(load_u32(m, at + 4 * t) == 0);
            assert(m[at + 4 * t + (j % 4)] == 0);
        }
    }
}

/// A check that a group of four bytes of a word is zero goes on when it is, and traps when it
/// is not.
#[verifier::rlimit(40)]
proof fn lemma_zero_word_check(env: Seq<FunctionView>, fuel: nat, b: Seq<InstrView>, j: int, s: Seq<Value>, l: Seq<Value>, m: Seq<u8>, pl: u32, pv: u32, o: u32)
    requires
        0 <= j < b.len(),
        b[j] == zero_word_check(pl, o),
        pl < l.len(),
        l[pl as int] == Value::I32(pv),
        pv + o + 4 <= m.len(),
    ensures
        run(env, fuel, b, j, s, l, m) == if load_u32(m, pv + o) == 0 {
            run(env, fuel, b, j + 1, s, l, m)
        } else {
            Outcome::Trap
        },
{
    let body = seq![
        InstrView::LocalGet(pl),
        InstrView::Load(ValType::I32, o),
        InstrView::I32Const(0),
        InstrView::Binop(BinaryOp::I32Eq),
        InstrView::BrIf(0),
        InstrView::Unreachable,
    ];
    let e = Seq::<Value>::empty();
    let x = load_u32(m, pv + o);
    lemma_le_value_fits(m.subrange(pv + o, pv + o + 4));
    assert(run(env, fuel, body, 0, e, l, m) == run(env, fuel, body, 1, e.push(Value::I32(pv)), l, m));
    assert(e.push(Value::I32(pv)).drop_last() =~= e);
    assert(run(env, fuel, body, 1, e.push(Value::I32(pv)), l, m) == run(env, fuel, body, 2, e.push(Value::I32(x)), l, m));
    assert(run(env, fuel, body, 2, e.push(Value::I32(x)), l, m) == run(env, fuel, body, 3, e.push(Value::I32(x)).push(Value::I32(0)), l, m));
    assert(e.push(Value::I32(x)).push(Value::I32(0)).drop_last().drop_last() =~= e);
    let c: u32 = if x == 0 { 1 } else { 0 };
    assert(run(env, fuel, body, 3, e.push(Value::I32(x)).push(Value::I32(0)), l, m) == run(env, fuel, body, 4, e.push(Value::I32(c)), l, m));
    assert(e.push(Value::I32(c)).drop_last() =~= e);
    if x == 0 {
        assert(run(env, fuel, body, 4, e.push(Value::I32(c)), l, m) == Outcome::Break(0, l, m));
        assert(s + e =~= s);
    } else {
        assert(run(env, fuel, body, 4, e.push(Value::I32(c)), l, m) == run(env, fuel, body, 5, e, l, m));
        assert(run(env, fuel, body, 5, e, l, m) == Outcome::Trap);
    }
}

/// The checks that the number in the word at the address in local `pl` fits in 32 bits, from
/// the group of four bytes `t` on: they go on when those groups are zero, and trap otherwise.
#[verifier::rlimit(40)]
proof fn lemma_fits_u32_check_from(env: Seq<FunctionView>, fuel: nat, b: Seq<InstrView>, j: int, s: Seq<Value>, l: Seq<Value>, m: Seq<u8>, pl: u32, pv: u32, t: int)
    requires
        0 <= j,
        j + 7 <= b.len(),
        b.subrange(j, j + 7) == fits_u32_check_code(pl),
        0 <= t <= 7,
        pl < l.len(),
        l[pl as int] == Value::I32(pv),
        pv + 32 <= m.len(),
    ensures
        run(env, fuel, b, j + t, s, l, m) == if forall|u: int| t <= u < 7 ==> #[trigger] load_u32(m, pv + 4 * u) == 0 {
            run(env, fuel, b, j + 7, s, l, m)
        } else {
            Outcome::Trap
        },
    decreases 7 - t,
{
    if t < 7 {
        assert(b[j + t] == fits_u32_check_code(pl)[t]) by {
            assert(b.subrange(j, j + 7)[t] == b[j + t]);
        }
        assert(fits_u32_check_code(pl)[t] == zero_word_check(pl, (4 * t) as u32));
        lemma_zero_word_check(env, fuel, b, j + t, s, l, m, pl, pv, (4 * t) as u32);
        lemma_fits_u32_check_from(env, fuel, b, j, s, l, m, pl, pv, t + 1);
        if load_u32(m, pv + 4 * t) == 0 {
            if forall|u: int| t + 1 <= u < 7 ==> #[trigger] load_u32(m, pv + 4 * u) == 0 {
                assert forall|u: int| t <= u < 7 implies #[trigger] load_u32(m, pv + 4 * u) == 0 by {
                    if u > t {
                        assert(load_u32(m, pv + 4 * u) == 0);
                    }
                }
            }
        } else {
            assert(!(load_u32(m, pv + 4 * t) == 0));
        }
    }
}

/// The checks that the number in the word at the address in local `pl` fits in 32 bits go on
/// when it does, and trap when it does not.
pub proof fn lemma_fits_u32_check(env: Seq<FunctionView>, fuel: nat, b: Seq<InstrView>, j: int, s: Seq<Value>, l: Seq<Value>, m: Seq<u8>, pl: u32, pv: u32)
    requires
        0 <= j,
        j + 7 <= b.len(),
        b.subrange(j, j + 7) == fits_u32_check_code(pl),
        pl < l.len(),
        l[pl as int] == Value::I32(pv),
        pv + 32 <= m.len(),
    ensures
        run(env, fuel, b, j, s, l, m) == if word_fits_u32(m, pv as int) {
            run(env, fuel, b, j + 7, s, l, m)
        } else {
            Outcome::Trap
        },
{
    lemma_fits_u32_check_from(env, fuel, b, j, s, l, m, pl, pv, 0);
    lemma_word_fits_u32(m, pv as int);
}

/// Reading the big-endian number at the end of the word at the address in local `pl`.
#[verifier::rlimit(40)]
proof fn lemma_read_word_u32(env: Seq<FunctionView>, fuel: nat, b: Seq<InstrView>, j: int, s: Seq<Value>, l: Seq<Value>, m: Seq<u8>, pl: u32, pv: u32, swap: u32)
    requires
        0 <= j,
        j + 3 <= b.len(),
        b[j] == InstrView::LocalGet(pl),
        b[j + 1] == InstrView::Load(ValType::I32, 28),
        b[j + 2] == InstrView::Call(swap),
        swap < env.len(),
        env[swap as int] == swap_i32_bytes_code(),
        pl < l.len(),
        l[pl as int] == Value::I32(pv),
        pv + 32 <= m.len(),
    ensures
        run(env, fuel, b, j, s, l, m) == run(env, fuel, b, j + 3, s.push(Value::I32(word_u32(m, pv as int))), l, m),
{
    let bytes = m.subrange(pv + 28, pv + 32);
    let y = le_value(bytes) as u32;
    lemma_bswap32_be(bytes);
    let v = Value::I32(bswap32(y));
    assert(run(env, fuel, b, j, s, l, m) == run(env, fuel, b, j + 1, s.push(Value::I32(pv)), l, m));
    assert(s.push(Value::I32(pv)).drop_last() =~= s);
    assert(run(env, fuel, b, j + 1, s.push(Value::I32(pv)), l, m) == run(env, fuel, b, j + 2, s.push(Value::I32(y)), l, m));
    law_swap_i32_bytes(env.take(swap as int), fuel, m, y);
    assert(s + seq![Value::I32(y)] =~= s.push(Value::I32(y)));
    assert(s + seq![v] =~= s.push(v));
    lemma_call_returning(env, fuel, m, b, j + 2, s, l, swap, seq![Value::I32(y)], seq![v], m);
}

/// The turns that a vector argument's copy loop runs for a length `len`: the loop tests the
/// length after each turn, so it runs once for an empty vector.
pub open spec fn copy_turns(len: u32) -> u32 {
    if len == 0 {
        1
    } else {
        len
    }
}

/// The locals while a vector argument of 32-bit values is read, before the turn for element
/// `k`: the reader has moved past the argument's word at `r`; the data reader (local `n`) is at
/// the word of element `k` after the length word at `q`, the length (local `n + 1`) is `len`,
/// the vector (local `n + 2`) is at `v`, the writer (local `n + 3`) at element `k` of the
/// vector, the counter (local `n + 4`) is `k`, and the elements' calldata reader (local `n + 5`)
/// at the first element's word; the others are `l`'s.
pub open spec fn vector_unpack_locals(l: Seq<Value>, reader: u32, n: int, r: int, q: int, len: u32, v: int, k: int) -> Seq<Value> {
    l.update(reader as int, Value::I32((r + 32) as u32))
        .update(n, Value::I32((q + 32 + 32 * k) as u32))
        .update(n + 1, Value::I32(len))
        .update(n + 2, Value::I32(v as u32))
        .update(n + 3, Value::I32((v + 8 + 4 * k) as u32))
        .update(n + 4, Value::I32(k as u32))
        .update(n + 5, Value::I32((q + 32) as u32))
}

/// `m` once the first `k` elements, read from the words after the length word at `q` in `m`,
/// are stored in the vector at `v`, after its length and capacity.
pub open spec fn unpacked_elements(m: Seq<u8>, q: int, v: int, k: nat) -> Seq<u8>
    decreases k,
{
    if k == 0 {
        m
    } else {
        store_u32(unpacked_elements(m, q, v, (k - 1) as nat), v + 8 + 4 * (k - 1), word_u32(m, q + 32 + 32 * (k - 1)))
    }
}

/// The body of the loop that reads the elements of a vector argument of 32-bit values.
pub open spec fn vector_unpack_turn_code(n: int, swap: u32) -> Seq<InstrView> {
    seq![InstrView::LocalGet((n + 3) as u32)] + unpack_i32_code(n as u32, 32, swap) + vector_unpack_step_code(n, ValType::I32, 4)
}

/// Storing the first elements keeps the memory's length and every byte outside the vector's
/// elements stored.
proof fn lemma_unpacked_elements(m: Seq<u8>, q: int, v: int, k: nat)
    requires
        0 <= v,
        v + 8 + 4 * k <= m.len(),
    ensures
        unpacked_elements(m, q, v, k).len() == m.len(),
        forall|j: int| 0 <= j < m.len() && !(v + 8 <= j < v + 8 + 4 * k) ==> #[trigger] unpacked_elements(m, q, v, k)[j] == m[j],
    decreases k,
{
    if k > 0 {
        lemma_unpacked_elements(m, q, v, (k - 1) as nat);
        let prev = unpacked_elements(m, q, v, (k - 1) as nat);
        let x = word_u32(m, q + 32 + 32 * (k - 1));
        lemma_le_bytes_len(x as nat, 4);
        lemma_write_bytes(prev, v + 8 + 4 * (k - 1), le_bytes(x as nat, 4));
    }
}

/// The first part of a turn: element `k` is read and stored in the vector.
#[verifier::rlimit(60)]
proof fn lemma_vector_unpack_turn_store(
    env: Seq<FunctionView>,
    f: nat,
    reader: u32,
    n: int,
    swap: u32,
    l: Seq<Value>,
    r: int,
    q: int,
    len: u32,
    v: int,
    k: int,
    m: Seq<u8>,
)
    requires
        swap < env.len(),
        env[swap as int] == swap_i32_bytes_code(),
        reader < n,
        n + 5 < l.len(),
        n + 5 <= u32::MAX,
        0 <= k < copy_turns(len),
        0 <= q,
        0 <= v,
        q + 32 + 32 * copy_turns(len) <= m.len(),
        v + 8 + 4 * copy_turns(len) <= m.len(),
        q + 32 + 32 * copy_turns(len) <= u32::MAX,
        v + 8 + 4 * copy_turns(len) <= u32::MAX,
        q + 32 + 32 * copy_turns(len) <= v + 8 || v + 8 + 4 * copy_turns(len) <= q + 32,
    ensures
        run(env, f, vector_unpack_turn_code(n, swap), 0, Seq::empty(), vector_unpack_locals(l, reader, n, r, q, len, v, k),
            unpacked_elements(m, q, v, k as nat))
            == run(env, f, vector_unpack_turn_code(n, swap), 9, Seq::empty(),
                vector_unpack_locals(l, reader, n, r, q, len, v, k).update(n, Value::I32((q + 32 + 32 * (k + 1)) as u32)),
                unpacked_elements(m, q, v, (k + 1) as nat)),
{
    let b = vector_unpack_turn_code(n, swap);
    let e = Seq::<Value>::empty();
    let lk = vector_unpack_locals(l, reader, n, r, q, len, v, k);
    let mk = unpacked_elements(m, q, v, k as nat);
    let a = q + 32 + 32 * k;
    let w = (v + 8 + 4 * k) as u32;
    lemma_unpacked_elements(m, q, v, k as nat);
    assert(mk.subrange(a + 28, a + 32) =~= m.subrange(a + 28, a + 32));
    let x = word_u32(m, a);
    assert(b[0] == InstrView::LocalGet((n + 3) as u32));
    assert(lk[n + 3] == Value::I32(w));
    assert(run(env, f, b, 0, e, lk, mk) == run(env, f, b, 1, e.push(Value::I32(w)), lk, mk));
    assert(b.subrange(1, 8) =~= unpack_i32_code(n as u32, 32, swap));
    assert(lk[n] == Value::I32(a as u32));
    law_unpack_i32(env, f, b, 1, e.push(Value::I32(w)), lk, mk, n as u32, 32, swap, a as u32);
    let l1 = lk.update(n, Value::I32(wrap32(a + 32)));
    assert(wrap32(a + 32) == (q + 32 + 32 * (k + 1)) as u32);
    let st = e.push(Value::I32(w)).push(Value::I32(x));
    assert(b[8] == InstrView::Store(ValType::I32, 0));
    lemma_le_bytes_len(x as nat, 4);
    assert(encode(ValType::I32, Value::I32(x)) == Some(le_bytes(x as nat, 4)));
    assert(st.drop_last().drop_last() =~= e);
    assert(run(env, f, b, 8, st, l1, mk) == run(env, f, b, 9, e, l1, store_u32(mk, w as int, x)));
}

/// The second part of a turn: the writer and the counter move on, and the loop runs again while
/// the counter is below the length.
#[verifier::rlimit(60)]
proof fn lemma_vector_unpack_turn_step(env: Seq<FunctionView>, f: nat, n: int, swap: u32, l: Seq<Value>, w: u32, k: u32, len: u32, mem: Seq<u8>)
    requires
        0 <= n,
        n + 5 < l.len(),
        n + 5 <= u32::MAX,
        l[n + 3] == Value::I32(w),
        l[n + 4] == Value::I32(k),
        l[n + 1] == Value::I32(len),
        k < copy_turns(len),
        w + 4 <= u32::MAX,
    ensures
        run(env, f, vector_unpack_turn_code(n, swap), 9, Seq::empty(), l, mem)
            == if k + 1 < len {
                Outcome::Break(0, l.update(n + 3, Value::I32((w + 4) as u32)).update(n + 4, Value::I32((k + 1) as u32)), mem)
            } else {
                Outcome::Done(Seq::empty(), l.update(n + 3, Value::I32((w + 4) as u32)).update(n + 4, Value::I32((k + 1) as u32)), mem)
            },
{
    let b = vector_unpack_turn_code(n, swap);
    let e = Seq::<Value>::empty();
    let w2 = (w + 4) as u32;
    let k2 = (k + 1) as u32;
    assert(b.len() == 20);
    assert(run(env, f, b, 9, e, l, mem) == run(env, f, b, 10, e.push(Value::I32(w)), l, mem));
    assert(run(env, f, b, 10, e.push(Value::I32(w)), l, mem) == run(env, f, b, 11, e.push(Value::I32(w)).push(Value::I32(4)), l, mem));
    assert(e.push(Value::I32(w)).push(Value::I32(4)).drop_last().drop_last() =~= e);
    assert(run(env, f, b, 11, e.push(Value::I32(w)).push(Value::I32(4)), l, mem) == run(env, f, b, 12, e.push(Value::I32(w2)), l, mem));
    let l1 = l.update(n + 3, Value::I32(w2));
    assert(e.push(Value::I32(w2)).drop_last() =~= e);
    assert(run(env, f, b, 12, e.push(Value::I32(w2)), l, mem) == run(env, f, b, 13, e, l1, mem));
    assert(l1[n + 4] == Value::I32(k));
    assert(run(env, f, b, 13, e, l1, mem) == run(env, f, b, 14, e.push(Value::I32(k)), l1, mem));
    assert(run(env, f, b, 14, e.push(Value::I32(k)), l1, mem) == run(env, f, b, 15, e.push(Value::I32(k)).push(Value::I32(1)), l1, mem));
    assert(e.push(Value::I32(k)).push(Value::I32(1)).drop_last().drop_last() =~= e);
    assert(run(env, f, b, 15, e.push(Value::I32(k)).push(Value::I32(1)), l1, mem) == run(env, f, b, 16, e.push(Value::I32(k2)), l1, mem));
    let l2 = l1.update(n + 4, Value::I32(k2));
    assert(run(env, f, b, 16, e.push(Value::I32(k2)), l1, mem) == run(env, f, b, 17, e.push(Value::I32(k2)), l2, mem));
    assert(l2[n + 1] == Value::I32(len));
    assert(run(env, f, b, 17, e.push(Value::I32(k2)), l2, mem) == run(env, f, b, 18, e.push(Value::I32(k2)).push(Value::I32(len)), l2, mem));
    let c: u32 = if k2 < len { 1 } else { 0 };
    assert(e.push(Value::I32(k2)).push(Value::I32(len)).drop_last().drop_last() =~= e);
    assert(run(env, f, b, 18, e.push(Value::I32(k2)).push(Value::I32(len)), l2, mem) == run(env, f, b, 19, e.push(Value::I32(c)), l2, mem));
    assert(e.push(Value::I32(c)).drop_last() =~= e);
    if k + 1 < len {
        assert(run(env, f, b, 19, e.push(Value::I32(c)), l2, mem) == Outcome::Break(0, l2, mem));
    } else {
        assert(run(env, f, b, 19, e.push(Value::I32(c)), l2, mem) == run(env, f, b, 20, e, l2, mem));
        assert(run(env, f, b, 20, e, l2, mem) == Outcome::Done(e, l2, mem));
    }
}

/// A turn of the loop stores element `k` in the vector, then runs again while there are
/// elements left.
#[verifier::rlimit(60)]
proof fn lemma_vector_unpack_turn(
    env: Seq<FunctionView>,
    f: nat,
    reader: u32,
    n: int,
    swap: u32,
    l: Seq<Value>,
    r: int,
    q: int,
    len: u32,
    v: int,
    k: int,
    m: Seq<u8>,
)
    requires
        swap < env.len(),
        env[swap as int] == swap_i32_bytes_code(),
        reader < n,
        n + 5 < l.len(),
        n + 5 <= u32::MAX,
        0 <= k < copy_turns(len),
        0 <= q,
        0 <= v,
        q + 32 + 32 * copy_turns(len) <= m.len(),
        v + 8 + 4 * copy_turns(len) <= m.len(),
        q + 32 + 32 * copy_turns(len) <= u32::MAX,
        v + 8 + 4 * copy_turns(len) <= u32::MAX,
        q + 32 + 32 * copy_turns(len) <= v + 8 || v + 8 + 4 * copy_turns(len) <= q + 32,
    ensures
        ({
            let next = vector_unpack_locals(l, reader, n, r, q, len, v, k + 1);
            let mem = unpacked_elements(m, q, v, (k + 1) as nat);
            run(env, f, vector_unpack_turn_code(n, swap), 0, Seq::empty(), vector_unpack_locals(l, reader, n, r, q, len, v, k),
                unpacked_elements(m, q, v, k as nat))
                == if k + 1 < len {
                    Outcome::Break(0, next, mem)
                } else {
                    Outcome::Done(Seq::empty(), next, mem)
                }
        }),
{
    lemma_vector_unpack_turn_store(env, f, reader, n, swap, l, r, q, len, v, k, m);
    let l1 = vector_unpack_locals(l, reader, n, r, q, len, v, k).update(n, Value::I32((q + 32 + 32 * (k + 1)) as u32));
    let mem = unpacked_elements(m, q, v, (k + 1) as nat);
    assert(l1[n + 3] == Value::I32((v + 8 + 4 * k) as u32));
    assert(l1[n + 4] == Value::I32(k as u32));
    assert(l1[n + 1] == Value::I32(len));
    lemma_vector_unpack_turn_step(env, f, n, swap, l1, (v + 8 + 4 * k) as u32, k as u32, len, mem);
    assert(l1.update(n + 3, Value::I32((v + 8 + 4 * k + 4) as u32)).update(n + 4, Value::I32((k + 1) as u32))
        =~= vector_unpack_locals(l, reader, n, r, q, len, v, k + 1));
}

/// The loop stores the elements from `k` on, running again `len - 1 - k` times.
#[verifier::rlimit(40)]
proof fn lemma_vector_unpack_loop(
    env: Seq<FunctionView>,
    f: nat,
    b: Seq<InstrView>,
    j: int,
    s: Seq<Value>,
    reader: u32,
    n: int,
    swap: u32,
    l: Seq<Value>,
    r: int,
    q: int,
    len: u32,
    v: int,
    k: int,
    m: Seq<u8>,
)
    requires
        0 <= j < b.len(),
        b[j] == InstrView::Loop(vector_unpack_turn_code(n, swap)),
        swap < env.len(),
        env[swap as int] == swap_i32_bytes_code(),
        reader < n,
        n + 5 < l.len(),
        n + 5 <= u32::MAX,
        0 <= k < len,
        f >= len - 1 - k,
        0 <= q,
        0 <= v,
        q + 32 + 32 * len <= m.len(),
        v + 8 + 4 * len <= m.len(),
        q + 32 + 32 * len <= u32::MAX,
        v + 8 + 4 * len <= u32::MAX,
        q + 32 + 32 * len <= v + 8 || v + 8 + 4 * len <= q + 32,
    ensures
        run(env, f, b, j, s, vector_unpack_locals(l, reader, n, r, q, len, v, k), unpacked_elements(m, q, v, k as nat))
            == run(env, (f - (len - 1 - k)) as nat, b, j + 1, s, vector_unpack_locals(l, reader, n, r, q, len, v, len as int),
                unpacked_elements(m, q, v, len as nat)),
    decreases len - k,
{
    lemma_vector_unpack_turn(env, f, reader, n, swap, l, r, q, len, v, k, m);
    if k + 1 < len {
        lemma_vector_unpack_loop(env, (f - 1) as nat, b, j, s, reader, n, swap, l, r, q, len, v, k + 1, m);
    }
}

/// The instructions that read the offset of a vector argument's data, at positions 7 to 16 of
/// `vector_unpack_head_code`.
pub open spec fn vector_offset_code(reader: u32, cref: u32, swap: u32, n: int) -> Seq<InstrView> {
    seq![
        InstrView::LocalGet(reader),
        InstrView::Load(ValType::I32, 28),
        InstrView::Call(swap),
        InstrView::LocalGet(cref),
        InstrView::Binop(BinaryOp::I32Add),
        InstrView::LocalSet(n as u32),
        InstrView::LocalGet(reader),
        InstrView::I32Const(32),
        InstrView::Binop(BinaryOp::I32Add),
        InstrView::LocalSet(reader),
    ]
}

/// The instructions that read the length of a vector argument, at positions 24 to 31 of
/// `vector_unpack_head_code`.
pub open spec fn vector_length_code(swap: u32, n: int) -> Seq<InstrView> {
    seq![
        InstrView::LocalGet(n as u32),
        InstrView::Load(ValType::I32, 28),
        InstrView::Call(swap),
        InstrView::LocalSet((n + 1) as u32),
        InstrView::LocalGet(n as u32),
        InstrView::I32Const(32),
        InstrView::Binop(BinaryOp::I32Add),
        InstrView::LocalSet(n as u32),
    ]
}

/// The instructions that set the writer, the counter and the elements' calldata reader, at
/// positions 44 to 53 of `vector_unpack_head_code`.
pub open spec fn vector_unpack_pointers_code(n: int) -> Seq<InstrView> {
    seq![
        InstrView::LocalGet((n + 2) as u32),
        InstrView::LocalSet((n + 3) as u32),
        InstrView::LocalGet((n + 3) as u32),
        InstrView::I32Const(8),
        InstrView::Binop(BinaryOp::I32Add),
        InstrView::LocalSet((n + 3) as u32),
        InstrView::I32Const(0),
        InstrView::LocalSet((n + 4) as u32),
        InstrView::LocalGet(n as u32),
        InstrView::LocalSet((n + 5) as u32),
    ]
}

/// The offset of the data is read from the argument's word at `r` and added to the calldata
/// reader `c0`, and the reader moves past the word.
#[verifier::rlimit(40)]
proof fn lemma_vector_unpack_offset(env: Seq<FunctionView>, fuel: nat, b: Seq<InstrView>, j: int, s: Seq<Value>, l: Seq<Value>, m: Seq<u8>, reader: u32, cref: u32, swap: u32, n: int, r: u32, c0: u32)
    requires
        0 <= j,
        j + 10 <= b.len(),
        b.subrange(j, j + 10) == vector_offset_code(reader, cref, swap, n),
        swap < env.len(),
        env[swap as int] == swap_i32_bytes_code(),
        reader < n,
        cref < n,
        n + 5 < l.len(),
        n + 5 <= u32::MAX,
        l[reader as int] == Value::I32(r),
        l[cref as int] == Value::I32(c0),
        r + 32 <= m.len(),
    ensures
        run(env, fuel, b, j, s, l, m) == run(env, fuel, b, j + 10, s,
            l.update(n, Value::I32(wrap32(word_u32(m, r as int) + c0))).update(reader as int, Value::I32(wrap32(r + 32))), m),
{
    let code = vector_offset_code(reader, cref, swap, n);
    assert forall|t: int| 0 <= t < 10 implies b[j + t] == #[trigger] code[t] by {
        assert(b.subrange(j, j + 10)[t] == b[j + t]);
    }
    lemma_read_word_u32(env, fuel, b, j, s, l, m, reader, r, swap);
    let off = word_u32(m, r as int);
    let q = wrap32(off + c0);
    assert(run(env, fuel, b, j + 3, s.push(Value::I32(off)), l, m) == run(env, fuel, b, j + 4, s.push(Value::I32(off)).push(Value::I32(c0)), l, m));
    assert(s.push(Value::I32(off)).push(Value::I32(c0)).drop_last().drop_last() =~= s);
    assert(run(env, fuel, b, j + 4, s.push(Value::I32(off)).push(Value::I32(c0)), l, m) == run(env, fuel, b, j + 5, s.push(Value::I32(q)), l, m));
    let l1 = l.update(n, Value::I32(q));
    assert(s.push(Value::I32(q)).drop_last() =~= s);
    assert(run(env, fuel, b, j + 5, s.push(Value::I32(q)), l, m) == run(env, fuel, b, j + 6, s, l1, m));
    assert(l1[reader as int] == Value::I32(r));
    assert(run(env, fuel, b, j + 6, s, l1, m) == run(env, fuel, b, j + 7, s.push(Value::I32(r)), l1, m));
    assert(run(env, fuel, b, j + 7, s.push(Value::I32(r)), l1, m) == run(env, fuel, b, j + 8, s.push(Value::I32(r)).push(Value::I32(32)), l1, m));
    assert(s.push(Value::I32(r)).push(Value::I32(32)).drop_last().drop_last() =~= s);
    assert(run(env, fuel, b, j + 8, s.push(Value::I32(r)).push(Value::I32(32)), l1, m) == run(env, fuel, b, j + 9, s.push(Value::I32(wrap32(r + 32))), l1, m));
    assert(s.push(Value::I32(wrap32(r + 32))).drop_last() =~= s);
}

/// The length is read from the word at `q`, and the data reader moves past it.
#[verifier::rlimit(40)]
proof fn lemma_vector_unpack_length(env: Seq<FunctionView>, fuel: nat, b: Seq<InstrView>, j: int, s: Seq<Value>, l: Seq<Value>, m: Seq<u8>, swap: u32, n: int, q: u32)
    requires
        0 <= j,
        j + 8 <= b.len(),
        b.subrange(j, j + 8) == vector_length_code(swap, n),
        swap < env.len(),
        env[swap as int] == swap_i32_bytes_code(),
        0 <= n,
        n + 5 < l.len(),
        n + 5 <= u32::MAX,
        l[n] == Value::I32(q),
        q + 32 <= m.len(),
    ensures
        run(env, fuel, b, j, s, l, m) == run(env, fuel, b, j + 8, s,
            l.update(n + 1, Value::I32(word_u32(m, q as int))).update(n, Value::I32(wrap32(q + 32))), m),
{
    let code = vector_length_code(swap, n);
    assert forall|t: int| 0 <= t < 8 implies b[j + t] == #[trigger] code[t] by {
        assert(b.subrange(j, j + 8)[t] == b[j + t]);
    }
    lemma_read_word_u32(env, fuel, b, j, s, l, m, n as u32, q, swap);
    let len = word_u32(m, q as int);
    let l1 = l.update(n + 1, Value::I32(len));
    assert(s.push(Value::I32(len)).drop_last() =~= s);
    assert(run(env, fuel, b, j + 3, s.push(Value::I32(len)), l, m) == run(env, fuel, b, j + 4, s, l1, m));
    assert(l1[n] == Value::I32(q));
    assert(run(env, fuel, b, j + 4, s, l1, m) == run(env, fuel, b, j + 5, s.push(Value::I32(q)), l1, m));
    assert(run(env, fuel, b, j + 5, s.push(Value::I32(q)), l1, m) == run(env, fuel, b, j + 6, s.push(Value::I32(q)).push(Value::I32(32)), l1, m));
    assert(s.push(Value::I32(q)).push(Value::I32(32)).drop_last().drop_last() =~= s);
    assert(run(env, fuel, b, j + 6, s.push(Value::I32(q)).push(Value::I32(32)), l1, m) == run(env, fuel, b, j + 7, s.push(Value::I32(wrap32(q + 32))), l1, m));
    assert(s.push(Value::I32(wrap32(q + 32))).drop_last() =~= s);
}

/// The memory once the allocator gave `m1` and the vector at `v` got its length and capacity,
/// both `len`.
pub open spec fn vector_header_memory(m1: Seq<u8>, v: int, len: u32) -> Seq<u8> {
    store_u32(store_u32(m1, v, len), v + 4, len)
}

/// The first two instructions of `allocate_vector_code` leave the room for the elements.
#[verifier::rlimit(40)]
proof fn lemma_vector_room(env: Seq<FunctionView>, fuel: nat, b: Seq<InstrView>, j: int, s: Seq<Value>, l: Seq<Value>, m: Seq<u8>, n: int, len: u32)
    requires
        0 <= j,
        j + 2 <= b.len(),
        b[j] == InstrView::LocalGet((n + 1) as u32),
        b[j + 1] == InstrView::IfElse(
            Some(ValType::I32),
            seq![InstrView::LocalGet((n + 1) as u32), InstrView::I32Const(4), InstrView::Binop(BinaryOp::I32Mul)],
            seq![InstrView::I32Const(8)],
        ),
        0 <= n,
        n + 5 < l.len(),
        n + 5 <= u32::MAX,
        l[n + 1] == Value::I32(len),
        vector_room(len, 4) + 8 <= u32::MAX,
    ensures
        run(env, fuel, b, j, s, l, m) == run(env, fuel, b, j + 2, s.push(Value::I32(vector_room(len, 4) as u32)), l, m),
{
    let e = Seq::<Value>::empty();
    let room = vector_room(len, 4) as u32;
    assert(run(env, fuel, b, j, s, l, m) == run(env, fuel, b, j + 1, s.push(Value::I32(len)), l, m));
    let then_ = seq![InstrView::LocalGet((n + 1) as u32), InstrView::I32Const(4), InstrView::Binop(BinaryOp::I32Mul)];
    let else_ = seq![InstrView::I32Const(8)];
    if len != 0 {
        assert(wrap32(len * 4) == room);
        assert(run(env, fuel, then_, 0, e, l, m) == run(env, fuel, then_, 1, e.push(Value::I32(len)), l, m));
        assert(run(env, fuel, then_, 1, e.push(Value::I32(len)), l, m) == run(env, fuel, then_, 2, e.push(Value::I32(len)).push(Value::I32(4)), l, m));
        assert(e.push(Value::I32(len)).push(Value::I32(4)).drop_last().drop_last() =~= e);
        assert(run(env, fuel, then_, 2, e.push(Value::I32(len)).push(Value::I32(4)), l, m) == run(env, fuel, then_, 3, e.push(Value::I32(room)), l, m));
    } else {
        assert(run(env, fuel, else_, 0, e, l, m) == run(env, fuel, else_, 1, e.push(Value::I32(8)), l, m));
    }
    assert(s.push(Value::I32(len)).drop_last() + e.push(Value::I32(room)) =~= s.push(Value::I32(room)));
}

/// The vector is allocated with eight bytes for its length and capacity and `vector_room`
/// bytes after them, and its length and capacity are kept in it.
#[verifier::rlimit(60)]
proof fn lemma_vector_unpack_allocate(
    env: Seq<FunctionView>,
    fuel: nat,
    b: Seq<InstrView>,
    j: int,
    s: Seq<Value>,
    l: Seq<Value>,
    m: Seq<u8>,
    alloc: u32,
    n: int,
    len: u32,
    v: u32,
    m1: Seq<u8>,
)
    requires
        0 <= j,
        j + 11 <= b.len(),
        b.subrange(j, j + 11) == allocate_vector_code((n + 2) as u32, (n + 1) as u32, (n + 1) as u32, 4, alloc),
        0 <= n,
        n + 5 < l.len(),
        n + 5 <= u32::MAX,
        l[n + 1] == Value::I32(len),
        vector_room(len, 4) + 8 <= u32::MAX,
        alloc < env.len(),
        env[alloc as int].params.len() == 1,
        crate::wasm::invoke(env.take(alloc as int), fuel, env[alloc as int], seq![Value::I32((vector_room(len, 4) + 8) as u32)], m)
            == crate::wasm::Completion::Returned(seq![Value::I32(v)], m1),
        v + 8 <= m1.len(),
    ensures
        run(env, fuel, b, j, s, l, m) == run(env, fuel, b, j + 11, s, l.update(n + 2, Value::I32(v)), vector_header_memory(m1, v as int, len)),
{
    let code = allocate_vector_code((n + 2) as u32, (n + 1) as u32, (n + 1) as u32, 4, alloc);
    assert forall|t: int| 0 <= t < 11 implies b[j + t] == #[trigger] code[t] by {
        assert(b.subrange(j, j + 11)[t] == b[j + t]);
    }
    let room = vector_room(len, 4) as u32;
    let size = (vector_room(len, 4) + 8) as u32;
    assert(b.subrange(j, j + 11)[0] == b[j]);
    assert(b.subrange(j, j + 11)[1] == b[j + 1]);
    assert(code[0] == InstrView::LocalGet((n + 1) as u32));
    lemma_vector_room(env, fuel, b, j, s, l, m, n, len);
    assert(run(env, fuel, b, j + 2, s.push(Value::I32(room)), l, m)
        == run(env, fuel, b, j + 3, s.push(Value::I32(room)).push(Value::I32(8)), l, m));
    assert(s.push(Value::I32(room)).push(Value::I32(8)).drop_last().drop_last() =~= s);
    assert(run(env, fuel, b, j + 3, s.push(Value::I32(room)).push(Value::I32(8)), l, m) == run(env, fuel, b, j + 4, s.push(Value::I32(size)), l, m));
    assert(s + seq![Value::I32(size)] =~= s.push(Value::I32(size)));
    assert(s + seq![Value::I32(v)] =~= s.push(Value::I32(v)));
    lemma_call_returning(env, fuel, m, b, j + 4, s, l, alloc, seq![Value::I32(size)], seq![Value::I32(v)], m1);
    let l1 = l.update(n + 2, Value::I32(v));
    assert(run(env, fuel, b, j + 5, s.push(Value::I32(v)), l, m1) == run(env, fuel, b, j + 6, s.push(Value::I32(v)), l1, m1));
    assert(l1[n + 1] == Value::I32(len));
    assert(run(env, fuel, b, j + 6, s.push(Value::I32(v)), l1, m1) == run(env, fuel, b, j + 7, s.push(Value::I32(v)).push(Value::I32(len)), l1, m1));
    lemma_le_bytes_len(len as nat, 4);
    let ma = store_u32(m1, v as int, len);
    assert(s.push(Value::I32(v)).push(Value::I32(len)).drop_last().drop_last() =~= s);
    assert(run(env, fuel, b, j + 7, s.push(Value::I32(v)).push(Value::I32(len)), l1, m1) == run(env, fuel, b, j + 8, s, l1, ma));
    lemma_write_bytes(m1, v as int, le_bytes(len as nat, 4));
    assert(l1[n + 2] == Value::I32(v));
    assert(run(env, fuel, b, j + 8, s, l1, ma) == run(env, fuel, b, j + 9, s.push(Value::I32(v)), l1, ma));
    assert(run(env, fuel, b, j + 9, s.push(Value::I32(v)), l1, ma) == run(env, fuel, b, j + 10, s.push(Value::I32(v)).push(Value::I32(len)), l1, ma));
    assert(s.push(Value::I32(v)).push(Value::I32(len)).drop_last().drop_last() =~= s);
}

/// The writer is set past the vector's length and capacity.
#[verifier::rlimit(40)]
proof fn lemma_vector_unpack_writer(env: Seq<FunctionView>, fuel: nat, b: Seq<InstrView>, j: int, s: Seq<Value>, l: Seq<Value>, m: Seq<u8>, n: int, v: u32)
    requires
        0 <= j,
        j + 10 <= b.len(),
        b.subrange(j, j + 10) == vector_unpack_pointers_code(n),
        0 <= n,
        n + 5 < l.len(),
        n + 5 <= u32::MAX,
        l[n + 2] == Value::I32(v),
        v + 8 <= u32::MAX,
    ensures
        run(env, fuel, b, j, s, l, m) == run(env, fuel, b, j + 6, s, l.update(n + 3, Value::I32((v + 8) as u32)), m),
{
    let code = vector_unpack_pointers_code(n);
    assert forall|t: int| 0 <= t < 10 implies b[j + t] == #[trigger] code[t] by {
        assert(b.subrange(j, j + 10)[t] == b[j + t]);
    }
    assert(run(env, fuel, b, j, s, l, m) == run(env, fuel, b, j + 1, s.push(Value::I32(v)), l, m));
    let l1 = l.update(n + 3, Value::I32(v));
    assert(s.push(Value::I32(v)).drop_last() =~= s);
    assert(run(env, fuel, b, j + 1, s.push(Value::I32(v)), l, m) == run(env, fuel, b, j + 2, s, l1, m));
    assert(run(env, fuel, b, j + 2, s, l1, m) == run(env, fuel, b, j + 3, s.push(Value::I32(v)), l1, m));
    assert(run(env, fuel, b, j + 3, s.push(Value::I32(v)), l1, m) == run(env, fuel, b, j + 4, s.push(Value::I32(v)).push(Value::I32(8)), l1, m));
    assert(s.push(Value::I32(v)).push(Value::I32(8)).drop_last().drop_last() =~= s);
    let v8 = (v + 8) as u32;
    assert(run(env, fuel, b, j + 4, s.push(Value::I32(v)).push(Value::I32(8)), l1, m) == run(env, fuel, b, j + 5, s.push(Value::I32(v8)), l1, m));
    assert(s.push(Value::I32(v8)).drop_last() =~= s);
    assert(l1.update(n + 3, Value::I32(v8)) =~= l.update(n + 3, Value::I32(v8)));
}

/// The counter is set to zero and the elements' calldata reader to the data reader.
#[verifier::rlimit(40)]
proof fn lemma_vector_unpack_counter_start(env: Seq<FunctionView>, fuel: nat, b: Seq<InstrView>, j: int, s: Seq<Value>, l: Seq<Value>, m: Seq<u8>, n: int, d: u32)
    requires
        0 <= j,
        j + 10 <= b.len(),
        b.subrange(j, j + 10) == vector_unpack_pointers_code(n),
        0 <= n,
        n + 5 < l.len(),
        n + 5 <= u32::MAX,
        l[n] == Value::I32(d),
    ensures
        run(env, fuel, b, j + 6, s, l, m) == run(env, fuel, b, j + 10, s, l.update(n + 4, Value::I32(0)).update(n + 5, Value::I32(d)), m),
{
    let code = vector_unpack_pointers_code(n);
    assert forall|t: int| 0 <= t < 10 implies b[j + t] == #[trigger] code[t] by {
        assert(b.subrange(j, j + 10)[t] == b[j + t]);
    }
    assert(run(env, fuel, b, j + 6, s, l, m) == run(env, fuel, b, j + 7, s.push(Value::I32(0)), l, m));
    let l3 = l.update(n + 4, Value::I32(0));
    assert(s.push(Value::I32(0)).drop_last() =~= s);
    assert(run(env, fuel, b, j + 7, s.push(Value::I32(0)), l, m) == run(env, fuel, b, j + 8, s, l3, m));
    assert(l3[n] == Value::I32(d));
    assert(run(env, fuel, b, j + 8, s, l3, m) == run(env, fuel, b, j + 9, s.push(Value::I32(d)), l3, m));
    assert(s.push(Value::I32(d)).drop_last() =~= s);
}

/// The address of a vector argument's data: the offset in its word at `r`, from the calldata
/// reader `c0`.
pub open spec fn vector_data_address(m: Seq<u8>, r: int, c0: u32) -> u32 {
    wrap32(word_u32(m, r) + c0)
}

/// The parts of a vector argument's reading before its loop.
proof fn lemma_vector_unpack_head_parts(reader: u32, cref: u32, c: AbiCallees, n: int, ssize: u32)
    ensures
        ({
            let code = vector_unpack_head_code(reader, cref, c, n, ssize);
            &&& code.len() == 53
            &&& code.subrange(0, 7) == fits_u32_check_code(reader)
            &&& code.subrange(7, 17) == vector_offset_code(reader, cref, c.swap_i32_bytes, n)
            &&& code.subrange(17, 24) == fits_u32_check_code(n as u32)
            &&& code.subrange(24, 32) == vector_length_code(c.swap_i32_bytes, n)
            &&& code.subrange(32, 43) == allocate_vector_code((n + 2) as u32, (n + 1) as u32, (n + 1) as u32, ssize, c.allocator)
            &&& code.subrange(43, 53) == vector_unpack_pointers_code(n)
        }),
{
    let code = vector_unpack_head_code(reader, cref, c, n, ssize);
    assert(code.subrange(0, 7) =~= fits_u32_check_code(reader));
    assert(code.subrange(7, 17) =~= vector_offset_code(reader, cref, c.swap_i32_bytes, n));
    assert(code.subrange(17, 24) =~= fits_u32_check_code(n as u32));
    assert(code.subrange(24, 32) =~= vector_length_code(c.swap_i32_bytes, n));
    assert(code.subrange(32, 43) =~= allocate_vector_code((n + 2) as u32, (n + 1) as u32, (n + 1) as u32, ssize, c.allocator));
    assert(code.subrange(43, 53) =~= vector_unpack_pointers_code(n));
}

/// Reading a vector argument traps when the offset in its word at `r` does not fit in 32
/// bits, or when it does but the length in the word at the data does not.
#[verifier::rlimit(60)]
pub proof fn law_unpack_vector_traps_unless_fits(
    env: Seq<FunctionView>,
    fuel: nat,
    b: Seq<InstrView>,
    i: int,
    s: Seq<Value>,
    l: Seq<Value>,
    mem: Seq<u8>,
    t: IType,
    enums: Seq<IEnum>,
    reader: u32,
    cref: u32,
    c: AbiCallees,
    n: int,
    r: u32,
    c0: u32,
)
    requires
        0 <= i,
        i + 53 <= b.len(),
        b.subrange(i, i + 53) == vector_unpack_head_code(reader, cref, c, n, stack_data_size(t) as u32),
        c.swap_i32_bytes < env.len(),
        env[c.swap_i32_bytes as int] == swap_i32_bytes_code(),
        reader < n,
        cref < n,
        n + 5 < l.len(),
        n + 5 <= u32::MAX,
        l[reader as int] == Value::I32(r),
        l[cref as int] == Value::I32(c0),
        r + 32 <= mem.len(),
        vector_data_address(mem, r as int, c0) + 32 <= mem.len(),
        !word_fits_u32(mem, r as int) || !word_fits_u32(mem, vector_data_address(mem, r as int, c0) as int),
    ensures
        run(env, fuel, b, i, s, l, mem) == Outcome::Trap,
{
    let ssize = stack_data_size(t) as u32;
    let code = vector_unpack_head_code(reader, cref, c, n, ssize);
    lemma_vector_unpack_head_parts(reader, cref, c, n, ssize);
    assert(b.subrange(i, i + 7) =~= code.subrange(0, 7));
    lemma_fits_u32_check(env, fuel, b, i, s, l, mem, reader, r);
    if word_fits_u32(mem, r as int) {
        assert(b.subrange(i + 7, i + 17) =~= code.subrange(7, 17));
        lemma_vector_unpack_offset(env, fuel, b, i + 7, s, l, mem, reader, cref, c.swap_i32_bytes, n, r, c0);
        let q = vector_data_address(mem, r as int, c0);
        let l1 = l.update(n, Value::I32(q)).update(reader as int, Value::I32(wrap32(r + 32)));
        assert(b.subrange(i + 17, i + 24) =~= code.subrange(17, 24));
        assert(l1[n] == Value::I32(q));
        lemma_fits_u32_check(env, fuel, b, i + 17, s, l1, mem, n as u32, q);
    }
}

/// Reading a vector argument of 32-bit values (booleans, `u8`, `u16` or `u32`) whose word is at
/// `r`: the offset in the word, from the calldata reader `c0`, gives the data's address `q`,
/// where the length `len` is; both fit in 32 bits. The allocator gives the address `v` of
/// `8 + vector_room(len, 4)` bytes, which get the length, the capacity (`len` too) and each
/// element, read big-endian from the end of its word after the length word, in order. The
/// loop tests the length after each turn, so it makes `copy_turns(len)` turns: an empty vector
/// also gets the word after its length, in the room its allocation leaves for it. The vector's
/// address is pushed and the reader moves past the argument's word.
#[verifier::rlimit(80)]
pub proof fn law_unpack_vector_of_words(
    env: Seq<FunctionView>,
    fuel: nat,
    b: Seq<InstrView>,
    i: int,
    s: Seq<Value>,
    l: Seq<Value>,
    mem: Seq<u8>,
    t: IType,
    enums: Seq<IEnum>,
    reader: u32,
    cref: u32,
    c: AbiCallees,
    n: int,
    r: u32,
    c0: u32,
    v: u32,
    m1: Seq<u8>,
)
    requires
        t is Bool || t is U8 || t is U16 || t is U32,
        0 <= i,
        i + 55 <= b.len(),
        b.subrange(i, i + 55) == unpack_code(IType::Vector(Box::new(t)), reader, cref, c, enums, n),
        c.swap_i32_bytes < env.len(),
        env[c.swap_i32_bytes as int] == swap_i32_bytes_code(),
        c.allocator < env.len(),
        env[c.allocator as int].params.len() == 1,
        reader < n,
        cref < n,
        n + 5 < l.len(),
        n + 5 <= u32::MAX,
        l[reader as int] == Value::I32(r),
        l[cref as int] == Value::I32(c0),
        r + 32 <= mem.len(),
        r + 32 <= u32::MAX,
        word_fits_u32(mem, r as int),
        vector_data_address(mem, r as int, c0) + 32 <= mem.len(),
        word_fits_u32(mem, vector_data_address(mem, r as int, c0) as int),
        fuel >= copy_turns(word_u32(mem, vector_data_address(mem, r as int, c0) as int)) - 1,
        crate::wasm::invoke(env.take(c.allocator as int), fuel, env[c.allocator as int],
            seq![Value::I32((vector_room(word_u32(mem, vector_data_address(mem, r as int, c0) as int), 4) + 8) as u32)], mem)
            == crate::wasm::Completion::Returned(seq![Value::I32(v)], m1),
        v + 8 + vector_room(word_u32(mem, vector_data_address(mem, r as int, c0) as int), 4) <= m1.len(),
        v + 8 + vector_room(word_u32(mem, vector_data_address(mem, r as int, c0) as int), 4) <= u32::MAX,
        vector_data_address(mem, r as int, c0) + 32 + 32 * copy_turns(word_u32(mem, vector_data_address(mem, r as int, c0) as int)) <= m1.len(),
        vector_data_address(mem, r as int, c0) + 32 + 32 * copy_turns(word_u32(mem, vector_data_address(mem, r as int, c0) as int)) <= u32::MAX,
        vector_data_address(mem, r as int, c0) + 32 + 32 * copy_turns(word_u32(mem, vector_data_address(mem, r as int, c0) as int)) <= v + 8 || v + 8 + vector_room(word_u32(mem, vector_data_address(mem, r as int, c0) as int), 4) <= vector_data_address(mem, r as int, c0) + 32,
    ensures
        ({
            let q = vector_data_address(mem, r as int, c0);
            let len = word_u32(mem, vector_data_address(mem, r as int, c0) as int);
            let k = copy_turns(len);
            run(env, fuel, b, i, s, l, mem) == run(env, (fuel - (k - 1)) as nat, b, i + 55, s.push(Value::I32(v)),
                vector_unpack_locals(l, reader, n, r as int, q as int, len, v as int, k as int),
                unpacked_elements(vector_header_memory(m1, v as int, len), q as int, v as int, k as nat))
        }),
{
    let swap = c.swap_i32_bytes;
    let q = vector_data_address(mem, r as int, c0);
    let len = word_u32(mem, vector_data_address(mem, r as int, c0) as int);
    let k = copy_turns(len);
    let code = unpack_code(IType::Vector(Box::new(t)), reader, cref, c, enums, n);
    let head = vector_unpack_head_code(reader, cref, c, n, 4);
    let turn = vector_unpack_turn_code(n, swap);
    assert(unpack_code(t, n as u32, (n + 5) as u32, c, enums, n + 6) == unpack_i32_code(n as u32, 32, swap));
    assert(code == head.push(InstrView::Loop(turn)).push(InstrView::LocalGet((n + 2) as u32)));
    lemma_vector_unpack_head_parts(reader, cref, c, n, 4);
    assert forall|u: int| 0 <= u < 55 implies b[i + u] == #[trigger] code[u] by {
        assert(b.subrange(i, i + 55)[u] == b[i + u]);
    }
    assert forall|u: int| 0 <= u < 53 implies b[i + u] == #[trigger] head[u] by {
        assert(code[u] == head[u]);
    }
    assert(b.subrange(i, i + 7) =~= head.subrange(0, 7));
    assert(b.subrange(i + 7, i + 17) =~= head.subrange(7, 17));
    assert(b.subrange(i + 17, i + 24) =~= head.subrange(17, 24));
    assert(b.subrange(i + 24, i + 32) =~= head.subrange(24, 32));
    assert(b.subrange(i + 32, i + 43) =~= head.subrange(32, 43));
    assert(b.subrange(i + 43, i + 53) =~= head.subrange(43, 53));
    assert(b[i + 53] == code[53]);
    assert(b[i + 54] == code[54]);
    // The offset
    lemma_fits_u32_check(env, fuel, b, i, s, l, mem, reader, r);
    lemma_vector_unpack_offset(env, fuel, b, i + 7, s, l, mem, reader, cref, swap, n, r, c0);
    let l1 = l.update(n, Value::I32(q)).update(reader as int, Value::I32(wrap32(r + 32)));
    assert(l1[n] == Value::I32(q));
    // The length
    lemma_fits_u32_check(env, fuel, b, i + 17, s, l1, mem, n as u32, q);
    lemma_vector_unpack_length(env, fuel, b, i + 24, s, l1, mem, swap, n, q);
    let l2 = l1.update(n + 1, Value::I32(len)).update(n, Value::I32(wrap32(q + 32)));
    assert(l2[n + 1] == Value::I32(len));
    // The vector
    lemma_vector_unpack_allocate(env, fuel, b, i + 32, s, l2, mem, c.allocator, n, len, v, m1);
    let m2 = vector_header_memory(m1, v as int, len);
    let l3 = l2.update(n + 2, Value::I32(v));
    assert(l3[n + 2] == Value::I32(v));
    assert(l3[n] == Value::I32((q + 32) as u32));
    lemma_vector_unpack_writer(env, fuel, b, i + 43, s, l3, m2, n, v);
    let l4 = l3.update(n + 3, Value::I32((v + 8) as u32));
    assert(l4[n] == Value::I32((q + 32) as u32));
    lemma_vector_unpack_counter_start(env, fuel, b, i + 43, s, l4, m2, n, (q + 32) as u32);
    let l5 = l4.update(n + 4, Value::I32(0)).update(n + 5, Value::I32((q + 32) as u32));
    assert(l5 =~= vector_unpack_locals(l, reader, n, r as int, q as int, len, v as int, 0));
    // The elements
    lemma_le_bytes_len(len as nat, 4);
    lemma_write_bytes(m1, v as int, le_bytes(len as nat, 4));
    lemma_write_bytes(store_u32(m1, v as int, len), v + 4, le_bytes(len as nat, 4));
    assert(unpacked_elements(m2, q as int, v as int, 0) == m2);
    assert(4 * k <= vector_room(len, 4));
    let lf = vector_unpack_locals(l, reader, n, r as int, q as int, len, v as int, k as int);
    let mf = unpacked_elements(m2, q as int, v as int, k as nat);
    let f2 = (fuel - (k - 1)) as nat;
    if len != 0 {
        lemma_vector_unpack_loop(env, fuel, b, i + 53, s, reader, n, swap, l, r as int, q as int, len, v as int, 0, m2);
    } else {
        let e = Seq::<Value>::empty();
        lemma_vector_unpack_turn(env, fuel, reader, n, swap, l, r as int, q as int, len, v as int, 0, m2);
        assert(run(env, fuel, turn, 0, e, l5, m2) == Outcome::Done(e, lf, mf));
        assert(run(env, fuel, b, i + 53, s, l5, m2) == run(env, fuel, b, i + 54, s, lf, mf));
    }
    assert(lf[n + 2] == Value::I32(v));
    assert(run(env, f2, b, i + 54, s, lf, mf) == run(env, f2, b, i + 55, s.push(Value::I32(v)), lf, mf));
}

} // verus!

verus! {

/// The big-endian reading of four bytes written from a `u32` gives it back.
proof fn lemma_be_of_written_u32(x: u32)
    ensures
        be_value(le_bytes(x as nat, 4).reverse()) == x,
{
    lemma_le_bytes_len(x as nat, 4);
    assert(le_bytes(x as nat, 4).reverse().reverse() =~= le_bytes(x as nat, 4));
    crate::wasm::lemma_le_value_of_bytes(x as nat, 4);
    assert(pow256(4) == 0x1_0000_0000) by {
        reveal_with_fuel(pow256, 5);
    }
}

/// Writing the first `k` elements of a vector after the length word at `d` changes only the
/// last four bytes of their words, where each element is written big-endian.
proof fn lemma_packed_elements_bytes(m: Seq<u8>, p: int, d: int, k: nat)
    requires
        0 <= d,
        d + 32 + 32 * k <= m.len(),
    ensures
        packed_elements(m, p, d, k).len() == m.len(),
        forall|x: int| 0 <= x < m.len() && !(d + 32 <= x < d + 32 + 32 * k && (x - d) % 32 >= 28)
            ==> #[trigger] packed_elements(m, p, d, k)[x] == m[x],
        forall|j: int| 0 <= j < k ==> #[trigger] packed_elements(m, p, d, k).subrange(d + 32 + 32 * j + 28, d + 32 + 32 * j + 32)
            == le_bytes(load_u32(m, p + 8 + 4 * j) as nat, 4).reverse(),
    decreases k,
{
    if k > 0 {
        let km = (k - 1) as nat;
        lemma_packed_elements_bytes(m, p, d, km);
        let prev = packed_elements(m, p, d, km);
        let at = d + 32 + 32 * km + 28;
        let bytes = le_bytes(load_u32(m, p + 8 + 4 * km) as nat, 4).reverse();
        lemma_le_bytes_len(load_u32(m, p + 8 + 4 * km) as nat, 4);
        lemma_write_bytes(prev, at, bytes);
        let cur = packed_elements(m, p, d, k);
        assert forall|x: int| 0 <= x < m.len() && !(d + 32 <= x < d + 32 + 32 * k && (x - d) % 32 >= 28)
            implies #[trigger] cur[x] == m[x] by {
            if at <= x < at + 4 {
                assert((x - d) % 32 >= 28);
            }
            if d + 32 <= x < d + 32 + 32 * km && (x - d) % 32 >= 28 {
                assert(false);
            }
            assert(prev[x] == m[x]);
        }
        assert forall|j: int| 0 <= j < k implies #[trigger] cur.subrange(d + 32 + 32 * j + 28, d + 32 + 32 * j + 32)
            == le_bytes(load_u32(m, p + 8 + 4 * j) as nat, 4).reverse() by {
            if j < km {
                lemma_write_bytes_elsewhere(prev, at, bytes, d + 32 + 32 * j + 28, 4);
            }
        }
    }
}

/// A vector of 32-bit values packed into fresh, zeroed memory reads back as it was: once
/// `law_pack_vector_of_words` has written the offset of the data `d` (from the calldata
/// reference `r`) at the end of the word at `w`, the length `len` at `d` and the elements after
/// it, the words fit in 32 bits, the offset leads back to `d`, the length word holds `len`, and
/// element `j`'s word holds element `j` of the vector at `p`, which is what
/// `law_unpack_vector_of_words` reads.
pub proof fn law_packed_vector_reads_back(m1: Seq<u8>, p: int, w: int, r: u32, d: u32, len: u32)
    requires
        0 <= p,
        0 <= w,
        r <= d,
        w + 32 <= m1.len(),
        d + 32 + 32 * len <= m1.len(),
        p + 8 + 4 * len <= m1.len(),
        w + 32 <= d || d + 32 + 32 * len <= w,
        p + 8 + 4 * len <= w || w + 32 <= p,
        p + 8 + 4 * len <= d || d + 32 + 32 * len <= p,
        forall|x: int| w <= x < w + 32 ==> #[trigger] m1[x] == 0,
        forall|x: int| d <= x < d + 32 + 32 * len ==> #[trigger] m1[x] == 0,
    ensures
        ({
            let rv = wrap32(d - r);
            let m = packed_elements(vector_head_memory(m1, w, rv, d as int, len), p, d as int, len as nat);
            &&& word_fits_u32(m, w)
            &&& vector_data_address(m, w, r) == d
            &&& word_fits_u32(m, d as int)
            &&& word_u32(m, d as int) == len
            &&& forall|j: int| 0 <= j < len ==> word_fits_u32(m, d + 32 + 32 * j)
                && #[trigger] word_u32(m, d + 32 + 32 * j) == load_u32(m1, p + 8 + 4 * j)
        }),
{
    let rv = wrap32(d - r);
    assert(rv == d - r);
    let rb = le_bytes(rv as nat, 4).reverse();
    let lb = le_bytes(len as nat, 4).reverse();
    lemma_le_bytes_len(rv as nat, 4);
    lemma_le_bytes_len(len as nat, 4);
    let ma = write_bytes(m1, w + 28, rb);
    lemma_write_bytes(m1, w + 28, rb);
    let m0 = write_bytes(ma, d + 28, lb);
    lemma_write_bytes(ma, d + 28, lb);
    assert(m0 == vector_head_memory(m1, w, rv, d as int, len));
    let m = packed_elements(m0, p, d as int, len as nat);
    lemma_packed_elements_bytes(m0, p, d as int, len as nat);
    // The offset word
    assert forall|j: int| 0 <= j < 28 implies #[trigger] m[w + j] == 0 by {
        assert(m1[w + j] == 0);
        assert(!(d + 32 <= w + j < d + 32 + 32 * len && (w + j - d) % 32 >= 28));
    }
    assert(m.subrange(w + 28, w + 32) =~= rb) by {
        assert forall|x: int| 0 <= x < 4 implies #[trigger] m.subrange(w + 28, w + 32)[x] == rb[x] by {
            assert(m[w + 28 + x] == m0[w + 28 + x]);
            assert(ma.subrange(w + 28, w + 32)[x] == ma[w + 28 + x]);
        }
    }
    lemma_be_of_written_u32(rv);
    assert(wrap32(rv + r) == d);
    // The length word
    assert forall|j: int| 0 <= j < 28 implies #[trigger] m[d + j] == 0 by {
        assert(m1[d + j] == 0);
        assert(!(d + 32 <= d + j < d + 32 + 32 * len && (d + j - d) % 32 >= 28));
    }
    assert(m.subrange(d + 28, d + 32) =~= lb) by {
        assert forall|x: int| 0 <= x < 4 implies #[trigger] m.subrange(d + 28, d + 32)[x] == lb[x] by {
            assert(m[d + 28 + x] == m0[d + 28 + x]);
            assert(m0.subrange(d + 28, d + 32)[x] == m0[d + 28 + x]);
        }
    }
    lemma_be_of_written_u32(len);
    // The elements
    assert forall|j: int| 0 <= j < len implies word_fits_u32(m, d + 32 + 32 * j)
        && #[trigger] word_u32(m, d + 32 + 32 * j) == load_u32(m1, p + 8 + 4 * j) by {
        assert forall|t: int| 0 <= t < 28 implies #[trigger] m[d + 32 + 32 * j + t] == 0 by {
            let x = d + 32 + 32 * j + t;
            assert((x - d) % 32 == t) by (nonlinear_arith)
                requires
                    x - d == 32 + 32 * j + t,
                    0 <= t < 28,
                    0 <= j,
            ;
            assert(m1[x] == 0);
            assert(m0[x] == m1[x]);
        }
        assert(load_u32(m0, p + 8 + 4 * j) == load_u32(m1, p + 8 + 4 * j)) by {
            lemma_write_bytes_elsewhere(m1, w + 28, rb, p + 8 + 4 * j, 4);
            lemma_write_bytes_elsewhere(ma, d + 28, lb, p + 8 + 4 * j, 4);
        }
        lemma_be_of_written_u32(load_u32(m0, p + 8 + 4 * j));
    }
}

} // verus!
