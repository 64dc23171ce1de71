//! Runtime functions that copy a `u128` or a `u256` in memory to a newly allocated place.
use vstd::prelude::*;

use crate::runtime::{RuntimeFunction, runtime_function_name};
use crate::wasm::{
    Completion, FunctionBody, FunctionView, Instr, InstrView, ValType, Value, args1,
    decode, invoke, lemma_call_first, lemma_encode_decode, lemma_write_bytes,
    push_instr, run, write_bytes, zeros,
};

verus! {

/// Loading part `o` of the number at the address in local 0, with the address in local 1
/// pushed under it.
#[verifier::rlimit(30)]
proof fn lemma_load_part(env: Seq<FunctionView>, fuel: nat, b: Seq<InstrView>, i: int, s: Seq<Value>, l: Seq<Value>, m: Seq<u8>, src: u32, dst: u32, o: u32)
    requires
        0 <= i,
        i + 3 <= b.len(),
        b[i] == InstrView::LocalGet(1),
        b[i + 1] == InstrView::LocalGet(0),
        b[i + 2] == InstrView::Load(ValType::I64, o),
        l.len() == 2,
        l[0] == Value::I32(src),
        l[1] == Value::I32(dst),
        src + o + 8 <= m.len(),
    ensures
        run(env, fuel, b, i, s, l, m)
            == run(env, fuel, b, i + 3, s.push(Value::I32(dst)).push(decode(ValType::I64, m.subrange(src + o, src + o + 8))), l, m),
{
    let s1 = s.push(Value::I32(dst));
    let x = decode(ValType::I64, m.subrange(src + o, src + o + 8));
    assert(run(env, fuel, b, i, s, l, m) == run(env, fuel, b, i + 1, s1, l, m));
    assert(run(env, fuel, b, i + 1, s1, l, m) == run(env, fuel, b, i + 2, s1.push(Value::I32(src)), l, m));
    assert(s1.push(Value::I32(src)).drop_last() =~= s1);
    assert(run(env, fuel, b, i + 2, s1.push(Value::I32(src)), l, m) == run(env, fuel, b, i + 3, s1.push(x), l, m));
}

/// Storing a part loaded from `bytes` at offset `o` from the address under it.
proof fn lemma_store_part(env: Seq<FunctionView>, fuel: nat, b: Seq<InstrView>, i: int, s: Seq<Value>, l: Seq<Value>, m: Seq<u8>, dst: u32, o: u32, bytes: Seq<u8>)
    requires
        0 <= i < b.len(),
        b[i] == InstrView::Store(ValType::I64, o),
        bytes.len() == 8,
        dst + o + 8 <= m.len(),
    ensures
        run(env, fuel, b, i, s.push(Value::I32(dst)).push(decode(ValType::I64, bytes)), l, m)
            == run(env, fuel, b, i + 1, s, l, write_bytes(m, dst + o, bytes)),
{
    lemma_encode_decode(ValType::I64, bytes);
    assert(s.push(Value::I32(dst)).push(decode(ValType::I64, bytes)).drop_last().drop_last() =~= s);
}

/// The instructions of `copy_u128`.
pub open spec fn copy_u128_code() -> FunctionView {
    FunctionView {
        name: runtime_function_name(RuntimeFunction::CopyU128),
        params: seq![ValType::I32],
        results: seq![ValType::I32],
        locals: seq![ValType::I32],
        body: seq![
            InstrView::I32Const(16),
            InstrView::Call(0),
            InstrView::LocalSet(1),
            InstrView::LocalGet(1),
            InstrView::LocalGet(0),
            InstrView::Load(ValType::I64, 0),
            InstrView::LocalGet(1),
            InstrView::LocalGet(0),
            InstrView::Load(ValType::I64, 8),
            InstrView::Store(ValType::I64, 8),
            InstrView::Store(ValType::I64, 0),
            InstrView::LocalGet(1),
        ],
    }
}

/// `copy_u128` copies the 16 bytes at `src` to the address that the allocator, the first
/// function of `env`, returns for 16 bytes, and returns that address.
#[verifier::rlimit(30)]
pub proof fn law_copy_u128(env: Seq<FunctionView>, fuel: nat, mem: Seq<u8>, src: u32, dst: u32, m1: Seq<u8>)
    requires
        env.len() >= 1,
        env[0].params.len() == 1,
        invoke(env.take(0), fuel, env[0], args1(Value::I32(16)), mem) == Completion::Returned(args1(Value::I32(dst)), m1),
        src + 16 <= m1.len(),
        dst + 16 <= m1.len(),
    ensures
        invoke(env, fuel, copy_u128_code(), args1(Value::I32(src)), mem)
            == Completion::Returned(args1(Value::I32(dst)), write_bytes(m1, dst as int, m1.subrange(src as int, src + 16))),
{
    let code = copy_u128_code();
    let b = code.body;
    let e = Seq::<Value>::empty();
    let l0 = seq![Value::I32(src), Value::I32(0)];
    assert(args1(Value::I32(src)) + zeros(code.locals) =~= l0);
    assert(run(env, fuel, b, 0, e, l0, mem) == run(env, fuel, b, 1, e.push(Value::I32(16)), l0, mem));
    lemma_call_first(env, fuel, mem, b, 1, e, l0, Value::I32(16), Value::I32(dst), m1);
    let l1 = seq![Value::I32(src), Value::I32(dst)];
    assert(l0.update(1, Value::I32(dst)) =~= l1);
    assert(e.push(Value::I32(dst)).drop_last() =~= e);
    assert(run(env, fuel, b, 2, e.push(Value::I32(dst)), l0, m1) == run(env, fuel, b, 3, e, l1, m1));
    let p0 = m1.subrange(src as int, src + 8);
    let p1 = m1.subrange(src + 8, src + 16);
    let s1 = e.push(Value::I32(dst)).push(decode(ValType::I64, p0));
    let s2 = s1.push(Value::I32(dst)).push(decode(ValType::I64, p1));
    lemma_load_part(env, fuel, b, 3, e, l1, m1, src, dst, 0);
    lemma_load_part(env, fuel, b, 6, s1, l1, m1, src, dst, 8);
    lemma_store_part(env, fuel, b, 9, s1, l1, m1, dst, 8, p1);
    let ma = write_bytes(m1, dst + 8, p1);
    lemma_write_bytes(m1, dst + 8, p1);
    lemma_store_part(env, fuel, b, 10, e, l1, ma, dst, 0, p0);
    let mb = write_bytes(ma, dst as int, p0);
    lemma_write_bytes(ma, dst as int, p0);
    assert(run(env, fuel, b, 11, e, l1, mb) == run(env, fuel, b, 12, e.push(Value::I32(dst)), l1, mb));
    let target = write_bytes(m1, dst as int, m1.subrange(src as int, src + 16));
    lemma_write_bytes(m1, dst as int, m1.subrange(src as int, src + 16));
    assert(mb =~= target);
    assert(e.push(Value::I32(dst)) =~= args1(Value::I32(dst)));
}

/// The instructions of `copy_u256`.
pub open spec fn copy_u256_code() -> FunctionView {
    FunctionView {
        name: runtime_function_name(RuntimeFunction::CopyU256),
        params: seq![ValType::I32],
        results: seq![ValType::I32],
        locals: seq![ValType::I32],
        body: seq![
            InstrView::I32Const(32),
            InstrView::Call(0),
            InstrView::LocalSet(1),
            InstrView::LocalGet(1),
            InstrView::LocalGet(0),
            InstrView::Load(ValType::I64, 0),
            InstrView::LocalGet(1),
            InstrView::LocalGet(0),
            InstrView::Load(ValType::I64, 8),
            InstrView::LocalGet(1),
            InstrView::LocalGet(0),
            InstrView::Load(ValType::I64, 16),
            InstrView::LocalGet(1),
            InstrView::LocalGet(0),
            InstrView::Load(ValType::I64, 24),
            InstrView::Store(ValType::I64, 24),
            InstrView::Store(ValType::I64, 16),
            InstrView::Store(ValType::I64, 8),
            InstrView::Store(ValType::I64, 0),
            InstrView::LocalGet(1),
        ],
    }
}

/// `copy_u256` copies the 32 bytes at `src` to the address that the allocator, the first
/// function of `env`, returns for 32 bytes, and returns that address.
#[verifier::rlimit(80)]
pub proof fn law_copy_u256(env: Seq<FunctionView>, fuel: nat, mem: Seq<u8>, src: u32, dst: u32, m1: Seq<u8>)
    requires
        env.len() >= 1,
        env[0].params.len() == 1,
        invoke(env.take(0), fuel, env[0], args1(Value::I32(32)), mem) == Completion::Returned(args1(Value::I32(dst)), m1),
        src + 32 <= m1.len(),
        dst + 32 <= m1.len(),
    ensures
        invoke(env, fuel, copy_u256_code(), args1(Value::I32(src)), mem)
            == Completion::Returned(args1(Value::I32(dst)), write_bytes(m1, dst as int, m1.subrange(src as int, src + 32))),
{
    let code = copy_u256_code();
    let b = code.body;
    let e = Seq::<Value>::empty();
    let l0 = seq![Value::I32(src), Value::I32(0)];
    assert(args1(Value::I32(src)) + zeros(code.locals) =~= l0);
    assert(run(env, fuel, b, 0, e, l0, mem) == run(env, fuel, b, 1, e.push(Value::I32(32)), l0, mem));
    lemma_call_first(env, fuel, mem, b, 1, e, l0, Value::I32(32), Value::I32(dst), m1);
    let l1 = seq![Value::I32(src), Value::I32(dst)];
    assert(l0.update(1, Value::I32(dst)) =~= l1);
    assert(e.push(Value::I32(dst)).drop_last() =~= e);
    assert(run(env, fuel, b, 2, e.push(Value::I32(dst)), l0, m1) == run(env, fuel, b, 3, e, l1, m1));
    let p0 = m1.subrange(src as int, src + 8);
    let p1 = m1.subrange(src + 8, src + 16);
    let p2 = m1.subrange(src + 16, src + 24);
    let p3 = m1.subrange(src + 24, src + 32);
    let d = Value::I32(dst);
    let s1 = e.push(d).push(decode(ValType::I64, p0));
    let s2 = s1.push(d).push(decode(ValType::I64, p1));
    let s3 = s2.push(d).push(decode(ValType::I64, p2));
    lemma_load_part(env, fuel, b, 3, e, l1, m1, src, dst, 0);
    lemma_load_part(env, fuel, b, 6, s1, l1, m1, src, dst, 8);
    lemma_load_part(env, fuel, b, 9, s2, l1, m1, src, dst, 16);
    lemma_load_part(env, fuel, b, 12, s3, l1, m1, src, dst, 24);
    lemma_store_part(env, fuel, b, 15, s3, l1, m1, dst, 24, p3);
    let ma = write_bytes(m1, dst + 24, p3);
    lemma_write_bytes(m1, dst + 24, p3);
    lemma_store_part(env, fuel, b, 16, s2, l1, ma, dst, 16, p2);
    let mb = write_bytes(ma, dst + 16, p2);
    lemma_write_bytes(ma, dst + 16, p2);
    lemma_store_part(env, fuel, b, 17, s1, l1, mb, dst, 8, p1);
    let mc = write_bytes(mb, dst + 8, p1);
    lemma_write_bytes(mb, dst + 8, p1);
    lemma_store_part(env, fuel, b, 18, e, l1, mc, dst, 0, p0);
    let md = write_bytes(mc, dst as int, p0);
    lemma_write_bytes(mc, dst as int, p0);
    assert(run(env, fuel, b, 19, e, l1, md) == run(env, fuel, b, 20, e.push(d), l1, md));
    let target = write_bytes(m1, dst as int, m1.subrange(src as int, src + 32));
    lemma_write_bytes(m1, dst as int, m1.subrange(src as int, src + 32));
    assert(md =~= target);
    assert(e.push(d) =~= args1(d));
}

/// Builds the function that copies a `u128`: it allocates 16 bytes with the allocator, the
/// first function it calls, loads the two 8-byte parts of the number at the address it takes,
/// stores them at the new address, and returns the new address (`law_copy_u128` states what a
/// call does).
#[verifier::rlimit(30)]
pub fn copy_u128_function() -> (r: FunctionBody)
    ensures
        r@ == copy_u128_code(),
{
    let mut body: Vec<Instr> = Vec::new();
    push_instr(&mut body, Instr::I32Const(16));
    push_instr(&mut body, Instr::Call(0));
    push_instr(&mut body, Instr::LocalSet(1));
    // Load the parts, each above the destination address
    push_instr(&mut body, Instr::LocalGet(1));
    push_instr(&mut body, Instr::LocalGet(0));
    push_instr(&mut body, Instr::Load(ValType::I64, 0));
    push_instr(&mut body, Instr::LocalGet(1));
    push_instr(&mut body, Instr::LocalGet(0));
    push_instr(&mut body, Instr::Load(ValType::I64, 8));
    // Store them, the last loaded first
    push_instr(&mut body, Instr::Store(ValType::I64, 8));
    push_instr(&mut body, Instr::Store(ValType::I64, 0));
    push_instr(&mut body, Instr::LocalGet(1));
    let r = FunctionBody {
        name: String::from_str(RuntimeFunction::CopyU128.name()),
        params: vec![ValType::I32],
        results: vec![ValType::I32],
        locals: vec![ValType::I32],
        body,
    };
    proof {
        let code = copy_u128_code();
        assert(r@.params =~= code.params);
        assert(r@.results =~= code.results);
        assert(r@.locals =~= code.locals);
        assert(r@.body =~= code.body);
    }
    r
}

/// Builds the function that copies a `u256`: it allocates 32 bytes with the allocator, the
/// first function it calls, loads the four 8-byte parts of the number at the address it takes,
/// stores them at the new address, and returns the new address (`law_copy_u256` states what a
/// call does).
#[verifier::rlimit(30)]
pub fn copy_u256_function() -> (r: FunctionBody)
    ensures
        r@ == copy_u256_code(),
{
    let mut body: Vec<Instr> = Vec::new();
    push_instr(&mut body, Instr::I32Const(32));
    push_instr(&mut body, Instr::Call(0));
    push_instr(&mut body, Instr::LocalSet(1));
    // Load the parts, each above the destination address
    push_instr(&mut body, Instr::LocalGet(1));
    push_instr(&mut body, Instr::LocalGet(0));
    push_instr(&mut body, Instr::Load(ValType::I64, 0));
    push_instr(&mut body, Instr::LocalGet(1));
    push_instr(&mut body, Instr::LocalGet(0));
    push_instr(&mut body, Instr::Load(ValType::I64, 8));
    push_instr(&mut body, Instr::LocalGet(1));
    push_instr(&mut body, Instr::LocalGet(0));
    push_instr(&mut body, Instr::Load(ValType::I64, 16));
    push_instr(&mut body, Instr::LocalGet(1));
    push_instr(&mut body, Instr::LocalGet(0));
    push_instr(&mut body, Instr::Load(ValType::I64, 24));
    // Store them, the last loaded first
    push_instr(&mut body, Instr::Store(ValType::I64, 24));
    push_instr(&mut body, Instr::Store(ValType::I64, 16));
    push_instr(&mut body, Instr::Store(ValType::I64, 8));
    push_instr(&mut body, Instr::Store(ValType::I64, 0));
    push_instr(&mut body, Instr::LocalGet(1));
    let r = FunctionBody {
        name: String::from_str(RuntimeFunction::CopyU256.name()),
        params: vec![ValType::I32],
        results: vec![ValType::I32],
        locals: vec![ValType::I32],
        body,
    };
    proof {
        let code = copy_u256_code();
        assert(r@.params =~= code.params);
        assert(r@.results =~= code.results);
        assert(r@.locals =~= code.locals);
        assert(r@.body =~= code.body);
    }
    r
}

} // verus!
