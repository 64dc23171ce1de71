//! Writing a struct as an ABI tuple of its fields, expanded in place: each field is packed, in
//! declaration order, in its own 32-byte word of the head, a dynamic field writing there the
//! offset of its data from the calldata reference.
use vstd::prelude::*;

use crate::abi_types::packing::{
    AbiCallees, add_local, is_immediate, local_val_type, pack_code, pack_locals, packable,
};
use crate::abi_types::packing::pack_native_int::{law_pack_i32, law_pack_i64, pack_i32_code, pack_i64_code};
use crate::runtime::swap::{swap_i32_bytes_code, swap_i64_bytes_code};
use crate::address::{ModuleId, ModuleIdView};
use crate::compilation_context::CompilationContext;
use crate::compilation_context::module_data::struct_data::{has_struct, is_first_struct};
use crate::intermediate_types::{IStruct, IType, IntermediateType, itype_seq_view, lemma_itype_seq_view};
use crate::wasm::{
    BinaryOp, FunctionView, Instr, InstrView, ValType, Value, byte_width, decode, instrs_view, le_bytes, lemma_le_bytes_len,
    le_value, lemma_write_bytes, load_u32, push_instr, run, wrap32, write_bytes,
};

verus! {

/// The local that holds the value of a field of type `t` while it is packed, among the fresh
/// locals numbered from `n`: `n + 1` (an `i64`) for a `u64`, `n` (an `i32`) for any other type.
pub open spec fn field_value_local(t: IType, n: int) -> u32 {
    if t is U64 {
        (n + 1) as u32
    } else {
        n as u32
    }
}

/// The instructions that load field `i`, of type `t`, of the struct at the address in local
/// `local` into its value local: the struct holds a pointer to each field, and an immediate
/// value is read from where its pointer points.
pub open spec fn struct_field_load_code(local: u32, i: int, t: IType, n: int) -> Seq<InstrView> {
    seq![InstrView::LocalGet(local), InstrView::Load(ValType::I32, (4 * i) as u32)] + if is_immediate(t) {
        seq![InstrView::Load(local_val_type(t), 0), InstrView::LocalSet(field_value_local(t, n))]
    } else {
        seq![InstrView::LocalSet(n as u32)]
    }
}

/// The instructions that pack field `i`, of type `t`, of the struct at the address in local
/// `local`: the field is loaded, the calldata reference of local `cref` is kept in local
/// `n + 4`, the field is packed as its type at the data pointer (local `n + 3`), whose own
/// fresh locals start at `m`, and the data pointer moves on to the next word.
pub open spec fn struct_field_code(t: IType, i: int, local: u32, cref: u32, c: AbiCallees, n: int, m: int) -> Seq<InstrView> {
    struct_field_load_code(local, i, t, n) + seq![InstrView::LocalGet(cref), InstrView::LocalSet((n + 4) as u32)]
        + pack_code(t, field_value_local(t, n), (n + 3) as u32, (n + 4) as u32, c, m) + seq![
        InstrView::I32Const(32),
        InstrView::LocalGet((n + 3) as u32),
        InstrView::Binop(BinaryOp::I32Add),
        InstrView::LocalSet((n + 3) as u32),
    ]
}

/// The fresh locals that packing the fields `fields` adds, in order.
pub open spec fn struct_fields_locals(fields: Seq<IType>) -> Seq<ValType>
    decreases fields.len(),
{
    if fields.len() == 0 {
        Seq::empty()
    } else {
        struct_fields_locals(fields.drop_last()) + pack_locals(fields.last())
    }
}

/// The instructions that pack the fields `fields` in order (see `struct_field_code`); the
/// fields' own fresh locals start at `n + 5`.
pub open spec fn struct_fields_code(fields: Seq<IType>, local: u32, cref: u32, c: AbiCallees, n: int) -> Seq<InstrView>
    decreases fields.len(),
{
    if fields.len() == 0 {
        Seq::empty()
    } else {
        let i = fields.len() - 1;
        struct_fields_code(fields.drop_last(), local, cref, c, n)
            + struct_field_code(fields.last(), i, local, cref, c, n, n + 5 + struct_fields_locals(fields.drop_last()).len())
    }
}

/// The instructions that pack a struct with fields of types `fields`, at the address in local
/// `local`, as the tuple of its fields expanded in place at the writer pointer in local
/// `writer`: the data pointer (local `n + 3`) starts at the writer pointer and each field is
/// packed in turn (see `struct_fields_code`). The fresh locals start at `n`.
pub open spec fn pack_struct_code(fields: Seq<IType>, local: u32, writer: u32, cref: u32, c: AbiCallees, n: int) -> Seq<InstrView> {
    seq![InstrView::LocalGet(writer), InstrView::LocalSet((n + 3) as u32)] + struct_fields_code(fields, local, cref, c, n)
}

/// The fresh locals that packing a struct with fields of types `fields` adds: an `i32` and an
/// `i64` for a field's value, an `i32` for a reference value, the data pointer and the data
/// reference, then those of the fields' packing.
pub open spec fn pack_struct_locals(fields: Seq<IType>) -> Seq<ValType> {
    seq![ValType::I32, ValType::I64, ValType::I32, ValType::I32, ValType::I32] + struct_fields_locals(fields)
}

/// Whether a struct with fields of types `fields` can be packed: each field can be (a field
/// that is a struct cannot).
pub open spec fn struct_packable(fields: Seq<IType>, enums: Seq<crate::intermediate_types::IEnum>) -> bool {
    forall|i: int| 0 <= i < fields.len() ==> packable(#[trigger] fields[i], enums)
}

/// The locals of the fields before field `j` are at most those of all of them.
pub proof fn lemma_struct_fields_locals_prefix(fields: Seq<IType>, j: int)
    requires
        0 <= j <= fields.len(),
    ensures
        struct_fields_locals(fields.take(j)).len() <= struct_fields_locals(fields).len(),
    decreases fields.len(),
{
    if j < fields.len() {
        assert(fields.drop_last().take(j) =~= fields.take(j));
        lemma_struct_fields_locals_prefix(fields.drop_last(), j);
    } else {
        assert(fields.take(j) =~= fields);
    }
}

/// The value of field `i`, of type `t`, of the struct at `p` in `mem`: read from where the
/// field's pointer points, eight bytes for a `u64` and four for any other immediate type.
pub open spec fn struct_field_value(mem: Seq<u8>, p: int, i: int, t: IType) -> Value {
    let fp = load_u32(mem, p + 4 * i);
    decode(local_val_type(t), mem.subrange(fp as int, fp + byte_width(local_val_type(t))))
}

/// `m` with the value `v` written big-endian at the end of the word at `at`.
pub open spec fn packed_word(m: Seq<u8>, at: int, v: Value) -> Seq<u8> {
    match v {
        Value::I32(x) => write_bytes(m, at + 28, le_bytes(x as nat, 4).reverse()),
        Value::I64(x) => write_bytes(m, at + 24, le_bytes(x as nat, 8).reverse()),
    }
}

/// `mem` once the first `k` fields of the struct at `p`, of types `fields`, are written each
/// in its word from `w` on.
pub open spec fn packed_fields(mem: Seq<u8>, p: int, w: int, fields: Seq<IType>, k: nat) -> Seq<u8>
    decreases k,
{
    if k == 0 {
        mem
    } else {
        packed_word(packed_fields(mem, p, w, fields, (k - 1) as nat), w + 32 * (k - 1), struct_field_value(mem, p, k - 1, fields[k - 1]))
    }
}

/// The locals once the first `k` fields are packed: each field's value was kept in its value
/// local, the data reference holds the calldata reference `r`, and the data pointer is at the
/// word after the last field packed.
pub open spec fn packed_struct_locals(l: Seq<Value>, n: int, mem: Seq<u8>, p: int, w: int, r: u32, fields: Seq<IType>, k: nat) -> Seq<Value>
    decreases k,
{
    if k == 0 {
        l.update(n + 3, Value::I32(w as u32))
    } else {
        let t = fields[k - 1];
        packed_struct_locals(l, n, mem, p, w, r, fields, (k - 1) as nat)
            .update(field_value_local(t, n) as int, struct_field_value(mem, p, k - 1, t))
            .update(n + 4, Value::I32(r))
            .update(n + 3, Value::I32((w + 32 * k) as u32))
    }
}

/// Packing fields of immediate types: each field's instructions take 14 places, the `j`-th
/// after `14 j`.
proof fn lemma_struct_fields_code_words(fields: Seq<IType>, local: u32, cref: u32, c: AbiCallees, n: int)
    requires
        forall|j: int| 0 <= j < fields.len() ==> is_immediate(#[trigger] fields[j]),
    ensures
        struct_fields_code(fields, local, cref, c, n).len() == 14 * fields.len(),
        struct_fields_locals(fields).len() == 0,
        forall|j: int| 0 <= j < fields.len() ==> struct_fields_code(fields, local, cref, c, n).subrange(14 * j, 14 * j + 14)
            == struct_field_code(#[trigger] fields[j], j, local, cref, c, n, n + 5),
    decreases fields.len(),
{
    if fields.len() > 0 {
        let init = fields.drop_last();
        assert forall|j: int| 0 <= j < init.len() implies is_immediate(#[trigger] init[j]) by {
            assert(init[j] == fields[j]);
        }
        lemma_struct_fields_code_words(init, local, cref, c, n);
        let a = struct_fields_code(init, local, cref, c, n);
        let t = fields.last();
        let f = struct_field_code(t, fields.len() - 1, local, cref, c, n, n + 5);
        assert(is_immediate(t));
        assert(f.len() == 14);
        assert forall|j: int| 0 <= j < fields.len() implies struct_fields_code(fields, local, cref, c, n).subrange(14 * j, 14 * j + 14)
            == struct_field_code(#[trigger] fields[j], j, local, cref, c, n, n + 5) by {
            if j < init.len() {
                assert((a + f).subrange(14 * j, 14 * j + 14) =~= a.subrange(14 * j, 14 * j + 14));
                assert(init[j] == fields[j]);
            } else {
                assert((a + f).subrange(14 * j, 14 * j + 14) =~= f);
            }
        }
    }
}

/// Writing the first `k` fields keeps the memory's length and every byte outside their words.
proof fn lemma_packed_fields(mem: Seq<u8>, p: int, w: int, fields: Seq<IType>, k: nat)
    requires
        0 <= w,
        w + 32 * k <= mem.len(),
        forall|j: int| 0 <= j < fields.len() ==> is_immediate(#[trigger] fields[j]),
        k <= fields.len(),
    ensures
        packed_fields(mem, p, w, fields, k).len() == mem.len(),
        forall|x: int| 0 <= x < mem.len() && !(w <= x < w + 32 * k) ==> #[trigger] packed_fields(mem, p, w, fields, k)[x] == mem[x],
    decreases k,
{
    if k > 0 {
        lemma_packed_fields(mem, p, w, fields, (k - 1) as nat);
        let prev = packed_fields(mem, p, w, fields, (k - 1) as nat);
        let at = w + 32 * (k - 1);
        match struct_field_value(mem, p, k - 1, fields[k - 1]) {
            Value::I32(x) => {
                lemma_le_bytes_len(x as nat, 4);
                lemma_write_bytes(prev, at + 28, le_bytes(x as nat, 4).reverse());
            },
            Value::I64(x) => {
                lemma_le_bytes_len(x as nat, 8);
                lemma_write_bytes(prev, at + 24, le_bytes(x as nat, 8).reverse());
            },
        }
    }
}

/// The first part of packing a field: its value is loaded through its pointer into its value
/// local, and the calldata reference is kept in local `n + 4`.
#[verifier::rlimit(60)]
proof fn lemma_pack_struct_field_load(
    env: Seq<FunctionView>,
    fuel: nat,
    b: Seq<InstrView>,
    j0: int,
    s: Seq<Value>,
    lk: Seq<Value>,
    mk: Seq<u8>,
    mem: Seq<u8>,
    local: u32,
    cref: u32,
    n: int,
    p: u32,
    r: u32,
    pa: u32,
    fp: u32,
    vt: ValType,
    vl: u32,
    v: Value,
)
    requires
        0 <= j0,
        j0 + 6 <= b.len(),
        b[j0] == InstrView::LocalGet(local),
        b[j0 + 1] == InstrView::Load(ValType::I32, (pa - p) as u32),
        b[j0 + 2] == InstrView::Load(vt, 0),
        b[j0 + 3] == InstrView::LocalSet(vl),
        b[j0 + 4] == InstrView::LocalGet(cref),
        b[j0 + 5] == InstrView::LocalSet((n + 4) as u32),
        p <= pa,
        cref < n,
        n <= vl,
        local < lk.len(),
        cref < lk.len(),
        vl < lk.len(),
        0 <= n,
        n + 4 < lk.len(),
        n + 4 <= u32::MAX,
        lk[local as int] == Value::I32(p),
        lk[cref as int] == Value::I32(r),
        pa + 4 <= mk.len(),
        mk.subrange(pa as int, pa + 4) == mem.subrange(pa as int, pa + 4),
        fp == load_u32(mem, pa as int),
        fp + byte_width(vt) <= mk.len(),
        v == decode(vt, mk.subrange(fp as int, fp + byte_width(vt))),
    ensures
        run(env, fuel, b, j0, s, lk, mk) == run(env, fuel, b, j0 + 6, s, lk.update(vl as int, v).update(n + 4, Value::I32(r)), mk),
{
    let l1 = lk.update(vl as int, v);
    assert(s.push(Value::I32(p)).drop_last() =~= s);
    assert(run(env, fuel, b, j0, s, lk, mk) == run(env, fuel, b, j0 + 1, s.push(Value::I32(p)), lk, mk));
    assert(decode(ValType::I32, mk.subrange(pa as int, pa + 4)) == Value::I32(fp));
    assert(run(env, fuel, b, j0 + 1, s.push(Value::I32(p)), lk, mk) == run(env, fuel, b, j0 + 2, s.push(Value::I32(fp)), lk, mk));
    assert(s.push(Value::I32(fp)).drop_last() =~= s);
    assert(run(env, fuel, b, j0 + 2, s.push(Value::I32(fp)), lk, mk) == run(env, fuel, b, j0 + 3, s.push(v), lk, mk));
    assert(s.push(v).drop_last() =~= s);
    assert(run(env, fuel, b, j0 + 3, s.push(v), lk, mk) == run(env, fuel, b, j0 + 4, s, l1, mk));
    assert(l1[cref as int] == Value::I32(r));
    assert(run(env, fuel, b, j0 + 4, s, l1, mk) == run(env, fuel, b, j0 + 5, s.push(Value::I32(r)), l1, mk));
    assert(s.push(Value::I32(r)).drop_last() =~= s);
    assert(run(env, fuel, b, j0 + 5, s.push(Value::I32(r)), l1, mk) == run(env, fuel, b, j0 + 6, s, l1.update(n + 4, Value::I32(r)), mk));
    assert(s.push(Value::I32(p)).drop_last() =~= s);
}

/// Packing field `k`, of an immediate type: its value is read through its pointer and written
/// big-endian at the end of its word, and the data pointer moves on.
#[verifier::spinoff_prover]
#[verifier::rlimit(100)]
proof fn lemma_pack_struct_field(
    env: Seq<FunctionView>,
    fuel: nat,
    b: Seq<InstrView>,
    j0: int,
    s: Seq<Value>,
    l: Seq<Value>,
    mem: Seq<u8>,
    fields: Seq<IType>,
    local: u32,
    cref: u32,
    c: AbiCallees,
    n: int,
    p: u32,
    w: u32,
    r: u32,
    k: nat,
)
    requires
        forall|j: int| 0 <= j < fields.len() ==> is_immediate(#[trigger] fields[j]),
        k < fields.len() <= 0x100_0000,
        0 <= j0,
        j0 + 14 <= b.len(),
        b.subrange(j0, j0 + 14) == struct_field_code(fields[k as int], k as int, local, cref, c, n, n + 5),
        c.swap_i32_bytes < env.len(),
        env[c.swap_i32_bytes as int] == swap_i32_bytes_code(),
        1 <= c.swap_i64_bytes < env.len(),
        env[c.swap_i64_bytes as int] == swap_i64_bytes_code(),
        env[0] == swap_i32_bytes_code(),
        local < n,
        cref < n,
        n + 4 < l.len(),
        n + 4 <= u32::MAX,
        l[local as int] == Value::I32(p),
        l[cref as int] == Value::I32(r),
        p + 4 * fields.len() <= mem.len(),
        p + 4 * fields.len() <= u32::MAX,
        w + 32 * fields.len() <= mem.len(),
        w + 32 * fields.len() <= u32::MAX,
        p + 4 * fields.len() <= w || w + 32 * fields.len() <= p,
        forall|j: int| 0 <= j < fields.len() ==> {
            let fp = #[trigger] load_u32(mem, p + 4 * j);
            &&& fp + 8 <= mem.len()
            &&& fp + 8 <= w || w + 32 * fields.len() <= fp
        },
    ensures
        run(env, fuel, b, j0, s, packed_struct_locals(l, n, mem, p as int, w as int, r, fields, k), packed_fields(mem, p as int, w as int, fields, k))
            == run(env, fuel, b, j0 + 14, s, packed_struct_locals(l, n, mem, p as int, w as int, r, fields, k + 1),
                packed_fields(mem, p as int, w as int, fields, k + 1)),
{
    let t = fields[k as int];
    let len = fields.len();
    let lk = packed_struct_locals(l, n, mem, p as int, w as int, r, fields, k);
    let mk = packed_fields(mem, p as int, w as int, fields, k);
    let code = struct_field_code(t, k as int, local, cref, c, n, n + 5);
    let vt = local_val_type(t);
    let vl = field_value_local(t, n);
    let pk = if t is U64 { pack_i64_code(vl, (n + 3) as u32, c.swap_i64_bytes) } else { pack_i32_code(vl, (n + 3) as u32, c.swap_i32_bytes) };
    assert(pack_code(t, vl, (n + 3) as u32, (n + 4) as u32, c, n + 5) == pk);
    let code2 = seq![
        InstrView::LocalGet(local),
        InstrView::Load(ValType::I32, (4 * k) as u32),
        InstrView::Load(vt, 0),
        InstrView::LocalSet(vl),
        InstrView::LocalGet(cref),
        InstrView::LocalSet((n + 4) as u32),
    ] + pk + seq![
        InstrView::I32Const(32),
        InstrView::LocalGet((n + 3) as u32),
        InstrView::Binop(BinaryOp::I32Add),
        InstrView::LocalSet((n + 3) as u32),
    ];
    assert(code =~= code2);
    let bs = b.subrange(j0, j0 + 14);
    assert(bs == code2);
    assert(bs[0] == b[j0] && bs[1] == b[j0 + 1] && bs[2] == b[j0 + 2] && bs[3] == b[j0 + 3] && bs[4] == b[j0 + 4]);
    assert(bs[5] == b[j0 + 5] && bs[10] == b[j0 + 10] && bs[11] == b[j0 + 11] && bs[12] == b[j0 + 12] && bs[13] == b[j0 + 13]);
    assert(bs.subrange(6, 10) =~= pk);
    assert(b.subrange(j0 + 6, j0 + 10) =~= bs.subrange(6, 10));
    lemma_packed_fields(mem, p as int, w as int, fields, k);
    assert(lk[local as int] == Value::I32(p)) by {
        lemma_struct_locals_keep(l, n, mem, p as int, w as int, r, fields, k, local as int);
    }
    assert(lk[cref as int] == Value::I32(r)) by {
        lemma_struct_locals_keep(l, n, mem, p as int, w as int, r, fields, k, cref as int);
    }
    lemma_struct_locals_data(l, n, mem, p as int, w as int, r, fields, k);
    let v = struct_field_value(mem, p as int, k as int, t);
    assert(4 * k + 4 <= 4 * len && 32 * k + 32 <= 32 * len) by (nonlinear_arith)
        requires
            k + 1 <= len,
    ;
    assert(((4 * k) as u32) == 4 * k);
    let pa = p + 4 * k;
    let fp = load_u32(mem, pa);
    assert(mk.subrange(pa, pa + 4) =~= mem.subrange(pa, pa + 4));
    let bw = byte_width(vt);
    assert(mk.subrange(fp as int, fp + bw) =~= mem.subrange(fp as int, fp + bw));
    lemma_pack_struct_field_load(env, fuel, b, j0, s, lk, mk, mem, local, cref, n, p, r, pa as u32, fp, vt, vl, v);
    let l2 = lk.update(vl as int, v).update(n + 4, Value::I32(r));
    assert(l2[cref as int] == Value::I32(r));
    let wk = (w + 32 * k) as u32;
    assert(l2[n + 3] == Value::I32(wk));
    assert(l2[vl as int] == v);
    assert(w + 32 * k + 32 <= mk.len()) by (nonlinear_arith)
        requires
            k + 1 <= len,
            w + 32 * len <= mk.len(),
    ;
    let mk1 = packed_fields(mem, p as int, w as int, fields, k + 1);
    if t is U64 {
        let x = le_value(mem.subrange(fp as int, fp + 8)) as u64;
        assert(v == Value::I64(x));
        law_pack_i64(env, fuel, b, j0 + 6, s, l2, mk, vl, (n + 3) as u32, c.swap_i64_bytes, x, wk);
    } else {
        let x = le_value(mem.subrange(fp as int, fp + 4)) as u32;
        assert(v == Value::I32(x));
        law_pack_i32(env, fuel, b, j0 + 6, s, l2, mk, vl, (n + 3) as u32, c.swap_i32_bytes, x, wk);
    }
    assert(run(env, fuel, b, j0 + 10, s, l2, mk1) == run(env, fuel, b, j0 + 11, s.push(Value::I32(32)), l2, mk1));
    assert(run(env, fuel, b, j0 + 11, s.push(Value::I32(32)), l2, mk1) == run(env, fuel, b, j0 + 12, s.push(Value::I32(32)).push(Value::I32(wk)), l2, mk1));
    let wk1 = (w + 32 * (k + 1)) as u32;
    assert(wrap32(32 + wk) == wk1);
    assert(s.push(Value::I32(32)).push(Value::I32(wk)).drop_last().drop_last() =~= s);
    assert(run(env, fuel, b, j0 + 12, s.push(Value::I32(32)).push(Value::I32(wk)), l2, mk1) == run(env, fuel, b, j0 + 13, s.push(Value::I32(wk1)), l2, mk1));
    assert(s.push(Value::I32(wk1)).drop_last() =~= s);
    assert(run(env, fuel, b, j0 + 13, s.push(Value::I32(wk1)), l2, mk1) == run(env, fuel, b, j0 + 14, s, l2.update(n + 3, Value::I32(wk1)), mk1));
}

/// The locals below the fresh ones are kept while fields are packed.
proof fn lemma_struct_locals_keep(l: Seq<Value>, n: int, mem: Seq<u8>, p: int, w: int, r: u32, fields: Seq<IType>, k: nat, x: int)
    requires
        0 <= x < n,
        n + 4 < l.len(),
        n + 4 <= u32::MAX,
        k <= fields.len(),
    ensures
        packed_struct_locals(l, n, mem, p, w, r, fields, k).len() == l.len(),
        packed_struct_locals(l, n, mem, p, w, r, fields, k)[x] == l[x],
    decreases k,
{
    if k > 0 {
        lemma_struct_locals_keep(l, n, mem, p, w, r, fields, (k - 1) as nat, x);
    }
}

/// While fields are packed, the data pointer is at the word of the next field.
proof fn lemma_struct_locals_data(l: Seq<Value>, n: int, mem: Seq<u8>, p: int, w: int, r: u32, fields: Seq<IType>, k: nat)
    requires
        0 <= n,
        n + 4 < l.len(),
        n + 4 <= u32::MAX,
        k <= fields.len(),
    ensures
        packed_struct_locals(l, n, mem, p, w, r, fields, k).len() == l.len(),
        packed_struct_locals(l, n, mem, p, w, r, fields, k)[n + 3] == Value::I32((w + 32 * k) as u32),
    decreases k,
{
    if k > 0 {
        lemma_struct_locals_data(l, n, mem, p, w, r, fields, (k - 1) as nat);
    }
}

/// Packing fields `k` on, of immediate types, each field taking 14 instructions.
proof fn lemma_pack_struct_fields_from(
    env: Seq<FunctionView>,
    fuel: nat,
    b: Seq<InstrView>,
    i: int,
    s: Seq<Value>,
    l: Seq<Value>,
    mem: Seq<u8>,
    fields: Seq<IType>,
    local: u32,
    cref: u32,
    c: AbiCallees,
    n: int,
    p: u32,
    w: u32,
    r: u32,
    k: nat,
)
    requires
        forall|j: int| 0 <= j < fields.len() ==> is_immediate(#[trigger] fields[j]),
        k <= fields.len() <= 0x100_0000,
        0 <= i,
        i + 2 + 14 * fields.len() <= b.len(),
        b.subrange(i + 2, i + 2 + 14 * fields.len()) == struct_fields_code(fields, local, cref, c, n),
        c.swap_i32_bytes < env.len(),
        env[c.swap_i32_bytes as int] == swap_i32_bytes_code(),
        1 <= c.swap_i64_bytes < env.len(),
        env[c.swap_i64_bytes as int] == swap_i64_bytes_code(),
        env[0] == swap_i32_bytes_code(),
        local < n,
        cref < n,
        n + 4 < l.len(),
        n + 4 <= u32::MAX,
        l[local as int] == Value::I32(p),
        l[cref as int] == Value::I32(r),
        p + 4 * fields.len() <= mem.len(),
        p + 4 * fields.len() <= u32::MAX,
        w + 32 * fields.len() <= mem.len(),
        w + 32 * fields.len() <= u32::MAX,
        p + 4 * fields.len() <= w || w + 32 * fields.len() <= p,
        forall|j: int| 0 <= j < fields.len() ==> {
            let fp = #[trigger] load_u32(mem, p + 4 * j);
            &&& fp + 8 <= mem.len()
            &&& fp + 8 <= w || w + 32 * fields.len() <= fp
        },
    ensures
        run(env, fuel, b, i + 2 + 14 * k, s, packed_struct_locals(l, n, mem, p as int, w as int, r, fields, k),
            packed_fields(mem, p as int, w as int, fields, k))
            == run(env, fuel, b, i + 2 + 14 * fields.len(), s, packed_struct_locals(l, n, mem, p as int, w as int, r, fields, fields.len()),
                packed_fields(mem, p as int, w as int, fields, fields.len())),
    decreases fields.len() - k,
{
    if k < fields.len() {
        let code = struct_fields_code(fields, local, cref, c, n);
        lemma_struct_fields_code_words(fields, local, cref, c, n);
        let j0 = i + 2 + 14 * (k as int);
        assert(code.subrange(14 * (k as int), 14 * (k as int) + 14) == struct_field_code(fields[k as int], k as int, local, cref, c, n, n + 5));
        assert(14 * k + 14 <= 14 * fields.len()) by (nonlinear_arith)
            requires
                k + 1 <= fields.len(),
        ;
        assert(b.subrange(j0, j0 + 14) =~= code.subrange(14 * (k as int), 14 * (k as int) + 14)) by {
            assert forall|u: int| 0 <= u < 14 implies #[trigger] b.subrange(j0, j0 + 14)[u] == code.subrange(14 * (k as int), 14 * (k as int) + 14)[u] by {
                assert(b.subrange(i + 2, i + 2 + 14 * fields.len())[14 * (k as int) + u] == b[j0 + u]);
            }
        }
        lemma_pack_struct_field(env, fuel, b, j0, s, l, mem, fields, local, cref, c, n, p, w, r, k);
        assert(j0 + 14 == i + 2 + 14 * (k + 1));
        lemma_pack_struct_fields_from(env, fuel, b, i, s, l, mem, fields, local, cref, c, n, p, w, r, k + 1);
    }
}

/// Packing a struct whose fields are all of immediate types (booleans and integers up to
/// `u64`), at address `p`, at the writer pointer `w`: the tuple of its fields is expanded in
/// place, each field's value, read through its pointer, written big-endian at the end of its
/// own word, in declaration order (`packed_fields`); the data pointer ends past the last word.
/// The struct, the field values and the words written must not overlap.
pub proof fn law_pack_struct_of_words(
    env: Seq<FunctionView>,
    fuel: nat,
    b: Seq<InstrView>,
    i: int,
    s: Seq<Value>,
    l: Seq<Value>,
    mem: Seq<u8>,
    fields: Seq<IType>,
    local: u32,
    writer: u32,
    cref: u32,
    c: AbiCallees,
    n: int,
    p: u32,
    w: u32,
    r: u32,
)
    requires
        forall|j: int| 0 <= j < fields.len() ==> is_immediate(#[trigger] fields[j]),
        fields.len() <= 0x100_0000,
        0 <= i,
        i + 2 + 14 * fields.len() <= b.len(),
        b.subrange(i, i + 2 + 14 * fields.len()) == pack_struct_code(fields, local, writer, cref, c, n),
        c.swap_i32_bytes < env.len(),
        env[c.swap_i32_bytes as int] == swap_i32_bytes_code(),
        1 <= c.swap_i64_bytes < env.len(),
        env[c.swap_i64_bytes as int] == swap_i64_bytes_code(),
        env[0] == swap_i32_bytes_code(),
        local < n,
        writer < n,
        cref < n,
        n + 4 < l.len(),
        n + 4 <= u32::MAX,
        l[local as int] == Value::I32(p),
        l[writer as int] == Value::I32(w),
        l[cref as int] == Value::I32(r),
        p + 4 * fields.len() <= mem.len(),
        p + 4 * fields.len() <= u32::MAX,
        w + 32 * fields.len() <= mem.len(),
        w + 32 * fields.len() <= u32::MAX,
        p + 4 * fields.len() <= w || w + 32 * fields.len() <= p,
        forall|j: int| 0 <= j < fields.len() ==> {
            let fp = #[trigger] load_u32(mem, p + 4 * j);
            &&& fp + 8 <= mem.len()
            &&& fp + 8 <= w || w + 32 * fields.len() <= fp
        },
    ensures
        run(env, fuel, b, i, s, l, mem) == run(env, fuel, b, i + 2 + 14 * fields.len(), s,
            packed_struct_locals(l, n, mem, p as int, w as int, r, fields, fields.len()),
            packed_fields(mem, p as int, w as int, fields, fields.len())),
{
    let code = pack_struct_code(fields, local, writer, cref, c, n);
    lemma_struct_fields_code_words(fields, local, cref, c, n);
    let sfc = struct_fields_code(fields, local, cref, c, n);
    assert(b.subrange(i + 2, i + 2 + 14 * fields.len()) =~= sfc) by {
        assert forall|u: int| 0 <= u < sfc.len() implies #[trigger] b.subrange(i + 2, i + 2 + 14 * fields.len())[u] == sfc[u] by {
            assert(b.subrange(i, i + 2 + 14 * fields.len())[u + 2] == b[i + 2 + u]);
            assert(code[u + 2] == sfc[u]);
        }
    }
    assert(b.subrange(i, i + 2 + 14 * fields.len())[0] == b[i]);
    assert(b.subrange(i, i + 2 + 14 * fields.len())[1] == b[i + 1]);
    assert(b[i] == InstrView::LocalGet(writer));
    assert(b[i + 1] == InstrView::LocalSet((n + 3) as u32));
    assert(s.push(Value::I32(w)).drop_last() =~= s);
    assert(run(env, fuel, b, i, s, l, mem) == run(env, fuel, b, i + 1, s.push(Value::I32(w)), l, mem));
    assert(run(env, fuel, b, i + 1, s.push(Value::I32(w)), l, mem) == run(env, fuel, b, i + 2, s, l.update(n + 3, Value::I32(w)), mem));
    assert(packed_fields(mem, p as int, w as int, fields, 0) == mem);
    lemma_pack_struct_fields_from(env, fuel, b, i, s, l, mem, fields, local, cref, c, n, p, w, r, 0);
}

impl IStruct {
    /// Appends the instructions that pack this struct, at the address in local `local`, as the
    /// tuple of its fields expanded in place at the writer pointer in local `writer_pointer`
    /// (see `pack_struct_code`): a static field is written in its word, a dynamic one writes
    /// there the offset of its data from the calldata reference in local
    /// `calldata_reference_pointer`. The fresh locals are added to `locals`, after
    /// `first_local` parameters; the callees are `callees` and the module's enums those of
    /// `compilation_ctx`.
    #[verifier::rlimit(60)]
    pub fn add_pack_instructions<M, F>(
        &self,
        block: &mut Vec<Instr>,
        locals: &mut Vec<ValType>,
        first_local: u32,
        local: u32,
        writer_pointer: u32,
        calldata_reference_pointer: u32,
        compilation_ctx: &CompilationContext<M, F>,
        callees: AbiCallees,
    )
        requires
            struct_packable(self@.fields, compilation_ctx.root_module_data.enums.enums@),
            self@.fields.len() <= 0x1000_0000,
            first_local + old(locals)@.len() + pack_struct_locals(self@.fields).len() <= u32::MAX,
        ensures
            instrs_view(final(block)@) == instrs_view(old(block)@) + pack_struct_code(
                self@.fields,
                local,
                writer_pointer,
                calldata_reference_pointer,
                callees,
                first_local + old(locals)@.len(),
            ),
            final(locals)@ == old(locals)@ + pack_struct_locals(self@.fields),
    {
        let ghost n: int = first_local + locals@.len();
        let ghost locals0 = locals@;
        let ghost before = instrs_view(block@);
        let ghost fields = self@.fields;
        let ghost enums = compilation_ctx.root_module_data.enums.enums@;
        proof {
            lemma_itype_seq_view(self.fields@);
        }
        let val_32 = add_local(locals, first_local, ValType::I32);
        let val_64 = add_local(locals, first_local, ValType::I64);
        add_local(locals, first_local, ValType::I32);
        let data_ptr = add_local(locals, first_local, ValType::I32);
        let inner_data_reference = add_local(locals, first_local, ValType::I32);
        push_instr(block, Instr::LocalGet(writer_pointer));
        push_instr(block, Instr::LocalSet(data_ptr));
        proof {
            assert(locals@ =~= locals0 + seq![ValType::I32, ValType::I64, ValType::I32, ValType::I32, ValType::I32]);
            assert(fields.take(0) =~= Seq::<IType>::empty());
            assert(instrs_view(block@) =~= before + seq![InstrView::LocalGet(writer_pointer), InstrView::LocalSet((n + 3) as u32)]
                + struct_fields_code(fields.take(0), local, calldata_reference_pointer, callees, n));
        }
        let mut index: usize = 0;
        while index < self.fields.len()
            invariant
                0 <= index <= self.fields@.len(),
                fields == itype_seq_view(self.fields@),
                fields.len() == self.fields@.len(),
                forall|j: int| 0 <= j < self.fields@.len() ==> #[trigger] fields[j] == self.fields@[j]@,
                fields.len() <= 0x1000_0000,
                struct_packable(fields, enums),
                enums == compilation_ctx.root_module_data.enums.enums@,
                n == first_local + locals0.len(),
                n + pack_struct_locals(fields).len() <= u32::MAX,
                val_32 == n,
                val_64 == n + 1,
                data_ptr == n + 3,
                inner_data_reference == n + 4,
                locals@ == locals0 + seq![ValType::I32, ValType::I64, ValType::I32, ValType::I32, ValType::I32]
                    + struct_fields_locals(fields.take(index as int)),
                instrs_view(block@) == before + seq![InstrView::LocalGet(writer_pointer), InstrView::LocalSet((n + 3) as u32)]
                    + struct_fields_code(fields.take(index as int), local, calldata_reference_pointer, callees, n),
            decreases self.fields@.len() - index,
        {
            let field = &self.fields[index];
            let ghost t = fields[index as int];
            let ghost prefix = fields.take(index as int);
            let ghost m = n + 5 + struct_fields_locals(prefix).len();
            let ghost start = instrs_view(block@);
            proof {
                assert(fields.take(index + 1).drop_last() =~= prefix);
                assert(fields.take(index + 1).last() == t);
                lemma_struct_fields_locals_prefix(fields, index + 1);
                assert(struct_fields_locals(fields.take(index + 1)) == struct_fields_locals(prefix) + pack_locals(t));
            }
            // The field's pointer, and its value for an immediate value
            push_instr(block, Instr::LocalGet(local));
            push_instr(block, Instr::Load(ValType::I32, index as u32 * 4));
            let field_local = match field {
                IntermediateType::IBool | IntermediateType::IU8 | IntermediateType::IU16 | IntermediateType::IU32 => {
                    push_instr(block, Instr::Load(ValType::I32, 0));
                    push_instr(block, Instr::LocalSet(val_32));
                    val_32
                },
                IntermediateType::IU64 => {
                    push_instr(block, Instr::Load(ValType::I64, 0));
                    push_instr(block, Instr::LocalSet(val_64));
                    val_64
                },
                _ => {
                    push_instr(block, Instr::LocalSet(val_32));
                    val_32
                },
            };
            push_instr(block, Instr::LocalGet(calldata_reference_pointer));
            push_instr(block, Instr::LocalSet(inner_data_reference));
            proof {
                assert(instrs_view(block@) =~= start + struct_field_load_code(local, index as int, t, n)
                    + seq![InstrView::LocalGet(calldata_reference_pointer), InstrView::LocalSet((n + 4) as u32)]);
                assert(packable(t, enums));
            }
            let ghost mid = instrs_view(block@);
            field.add_pack_instructions(
                block,
                locals,
                first_local,
                field_local,
                data_ptr,
                inner_data_reference,
                compilation_ctx,
                callees,
            );
            push_instr(block, Instr::I32Const(32));
            push_instr(block, Instr::LocalGet(data_ptr));
            push_instr(block, Instr::Binop(BinaryOp::I32Add));
            push_instr(block, Instr::LocalSet(data_ptr));
            proof {
                assert(instrs_view(block@) =~= start + struct_field_code(t, index as int, local, calldata_reference_pointer, callees, n, m));
                assert(instrs_view(block@) =~= before + seq![InstrView::LocalGet(writer_pointer), InstrView::LocalSet((n + 3) as u32)]
                    + struct_fields_code(fields.take(index + 1), local, calldata_reference_pointer, callees, n));
                assert(locals@ =~= locals0 + seq![ValType::I32, ValType::I64, ValType::I32, ValType::I32, ValType::I32]
                    + struct_fields_locals(fields.take(index + 1)));
            }
            index = index + 1;
        }
        proof {
            assert(fields.take(index as int) =~= fields);
        }
    }
}

} // verus!

verus! {

/// The fields of the first struct with definition index `index` of module `module_id` in the
/// compilation context.
pub open spec fn context_struct_fields<M, F>(ctx: &CompilationContext<M, F>, module_id: ModuleIdView, index: u16) -> Seq<IType> {
    let structs = ctx.struct_module(module_id).structs.structs@;
    structs[choose|k: int| is_first_struct(structs, k, index)]@.fields
}

/// Whether a function's returned values, of types `ts`, are a single struct of the compilation
/// context that can be packed.
pub open spec fn single_struct_return<M, F>(ctx: &CompilationContext<M, F>, ts: Seq<IType>) -> bool {
    &&& ts.len() == 1
    &&& ts[0] matches IType::Struct { module_id, index } && {
        let fields = context_struct_fields(ctx, module_id, index);
        &&& has_struct(ctx.struct_module(module_id).structs.structs@, index)
        &&& struct_packable(fields, ctx.root_module_data.enums.enums@)
        &&& fields.len() <= 0x100_0000
    }
}

/// The fields of the struct that a function returns, when it returns a single struct (see
/// `single_struct_return`).
pub open spec fn returned_struct_fields<M, F>(ctx: &CompilationContext<M, F>, ts: Seq<IType>) -> Seq<IType> {
    match ts[0] {
        IType::Struct { module_id, index } => context_struct_fields(ctx, module_id, index),
        _ => Seq::empty(),
    }
}

/// The instructions that pack a returned struct with fields of types `fields`, the only
/// returned value, with fresh locals from `n`: the struct's address is popped into local `n`,
/// the tuple of its fields, 32 bytes for each, is allocated (its start in local `n + 1`, also
/// the writer pointer `n + 3` and the calldata reference `n + 4`), the struct is expanded in
/// place (see `pack_struct_code`), and the length of the encoded data, the allocator's next
/// address less the tuple's start, is kept in local `n + 2`.
pub open spec fn build_pack_struct_code(fields: Seq<IType>, c: AbiCallees, n: int) -> Seq<InstrView> {
    let size = (32 * fields.len()) as u32;
    seq![
        InstrView::LocalSet(n as u32),
        InstrView::I32Const(size),
        InstrView::Call(c.allocator),
        InstrView::LocalTee((n + 1) as u32),
        InstrView::LocalSet((n + 3) as u32),
        InstrView::LocalGet((n + 1) as u32),
        InstrView::LocalSet((n + 4) as u32),
    ] + pack_struct_code(fields, n as u32, (n + 3) as u32, (n + 4) as u32, c, n + 5) + seq![
        InstrView::LocalGet((n + 3) as u32),
        InstrView::I32Const(size),
        InstrView::Binop(BinaryOp::I32Add),
        InstrView::LocalSet((n + 3) as u32),
        InstrView::I32Const(0),
        InstrView::Call(c.allocator),
        InstrView::LocalGet((n + 1) as u32),
        InstrView::Binop(BinaryOp::I32Sub),
        InstrView::LocalSet((n + 2) as u32),
    ]
}

/// The locals that `build_pack_struct_code` adds.
pub open spec fn build_pack_struct_locals(fields: Seq<IType>) -> Seq<ValType> {
    seq![ValType::I32, ValType::I32, ValType::I32, ValType::I32, ValType::I32] + pack_struct_locals(fields)
}

/// Two positions that are each the first of a struct with the same index are the same.
proof fn lemma_first_struct_unique(structs: Seq<IStruct>, k1: int, k2: int, index: u16)
    requires
        is_first_struct(structs, k1, index),
        is_first_struct(structs, k2, index),
    ensures
        k1 == k2,
{
    if k1 < k2 {
        assert(structs[k1].struct_definition_index != index);
    } else if k2 < k1 {
        assert(structs[k2].struct_definition_index != index);
    }
}

/// Appends the instructions that pack the struct `index` of module `module_id`, the only value
/// a function returns and loaded on the stack, as the tuple of its fields expanded in place
/// (see `build_pack_struct_code`). Returns the locals that hold the encoded data's address and
/// its length.
#[verifier::rlimit(100)]
#[verifier::spinoff_prover]
pub fn build_pack_struct_return<M, F>(
    block: &mut Vec<Instr>,
    module_id: &ModuleId,
    index: u16,
    locals: &mut Vec<ValType>,
    first_local: u32,
    compilation_ctx: &CompilationContext<M, F>,
    callees: AbiCallees,
) -> (r: (u32, u32))
    requires
        single_struct_return(compilation_ctx, seq![IType::Struct { module_id: module_id@, index }]),
        first_local + old(locals)@.len() + build_pack_struct_locals(context_struct_fields(compilation_ctx, module_id@, index)).len() <= u32::MAX,
    ensures
        instrs_view(final(block)@) == instrs_view(old(block)@) + build_pack_struct_code(
            context_struct_fields(compilation_ctx, module_id@, index),
            callees,
            first_local + old(locals)@.len(),
        ),
        final(locals)@ == old(locals)@ + build_pack_struct_locals(context_struct_fields(compilation_ctx, module_id@, index)),
        r.0 == first_local + old(locals)@.len() + 1,
        r.1 == first_local + old(locals)@.len() + 2,
{
    let ghost n: int = first_local + locals@.len();
    let ghost locals0 = locals@;
    let ghost before = instrs_view(block@);
    let ghost structs = compilation_ctx.struct_module(module_id@).structs.structs@;
    let ghost fields = context_struct_fields(compilation_ctx, module_id@, index);
    let ghost ts = seq![IType::Struct { module_id: module_id@, index }];
    assert(ts[0] == IType::Struct { module_id: module_id@, index });
    assert(has_struct(structs, index));
    assert(struct_packable(fields, compilation_ctx.root_module_data.enums.enums@));
    assert(fields.len() <= 0x100_0000);
    let strct = match compilation_ctx.get_struct_by_index(module_id, index) {
        Ok(s) => s,
        Err(_) => {
            proof {
                assert(false);
            }
            return (0, 0);
        },
    };
    proof {
        let k = choose|k: int| is_first_struct(structs, k, index) && *strct == structs[k];
        let k2 = choose|k: int| is_first_struct(structs, k, index);
        lemma_first_struct_unique(structs, k, k2, index);
        assert(strct@.fields == fields);
        lemma_itype_seq_view(strct.fields@);
    }
    let value = add_local(locals, first_local, ValType::I32);
    let pointer = add_local(locals, first_local, ValType::I32);
    let pointer_end = add_local(locals, first_local, ValType::I32);
    let writer_pointer = add_local(locals, first_local, ValType::I32);
    let calldata_reference_pointer = add_local(locals, first_local, ValType::I32);
    let size = 32 * strct.fields.len() as u32;
    push_instr(block, Instr::LocalSet(value));
    push_instr(block, Instr::I32Const(size));
    push_instr(block, Instr::Call(callees.allocator));
    push_instr(block, Instr::LocalTee(pointer));
    push_instr(block, Instr::LocalSet(writer_pointer));
    // Offsets are counted from the start of the tuple
    push_instr(block, Instr::LocalGet(pointer));
    push_instr(block, Instr::LocalSet(calldata_reference_pointer));
    proof {
        lemma_itype_seq_view(strct.fields@);
        assert(locals@ =~= locals0 + seq![ValType::I32, ValType::I32, ValType::I32, ValType::I32, ValType::I32]);
    }
    let ghost mid = instrs_view(block@);
    strct.add_pack_instructions(
        block,
        locals,
        first_local,
        value,
        writer_pointer,
        calldata_reference_pointer,
        compilation_ctx,
        callees,
    );
    push_instr(block, Instr::LocalGet(writer_pointer));
    push_instr(block, Instr::I32Const(size));
    push_instr(block, Instr::Binop(BinaryOp::I32Add));
    push_instr(block, Instr::LocalSet(writer_pointer));
    // The length of the encoded data
    push_instr(block, Instr::I32Const(0));
    push_instr(block, Instr::Call(callees.allocator));
    push_instr(block, Instr::LocalGet(pointer));
    push_instr(block, Instr::Binop(BinaryOp::I32Sub));
    push_instr(block, Instr::LocalSet(pointer_end));
    proof {
        assert(instrs_view(block@) =~= before + build_pack_struct_code(fields, callees, n));
        assert(locals@ =~= locals0 + build_pack_struct_locals(fields));
    }
    (pointer, pointer_end)
}

} // verus!
