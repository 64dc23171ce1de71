//! Runtime functions on vectors in memory. A vector is reached through a reference, the address
//! of a word that holds the vector's address; the vector starts with its length and capacity,
//! four bytes each, followed by its elements.
use vstd::prelude::*;

use crate::runtime::{RuntimeFunction, runtime_function_name};
use crate::wasm::{
    BinaryOp, Completion, FunctionBody, FunctionView, Instr, InstrView, Outcome, ValType, Value,
    args1, args2, byte_width, decode, instrs_view, invoke, le_bytes, lemma_le_bytes_len,
    lemma_le_value_fits, lemma_store_u32, lemma_write_bytes_elsewhere, load_u32, push_instr, run,
    store_u32, wrap32, zeros, zero, lemma_encode_decode, lemma_write_bytes, write_bytes,
    args3, args4, lemma_call_first, };
use crate::runtime::integers::{downcast_u64_to_u32_code, law_downcast_u64_to_u32};

verus! {

/// The instructions of the function `vec_increment_len`.
pub open spec fn increment_vec_len_code() -> FunctionView {
    FunctionView {
        name: runtime_function_name(RuntimeFunction::VecIncrementLen),
        params: seq![ValType::I32, ValType::I32],
        results: seq![],
        locals: seq![],
        body: seq![
            InstrView::LocalGet(0),
            InstrView::LocalGet(1),
            InstrView::I32Const(1),
            InstrView::Binop(BinaryOp::I32Add),
            InstrView::Store(ValType::I32, 0),
        ],
    }
}

/// The instructions that store `len - 1` or `len + 1` at the address in local 0, from position
/// `i` of `body` on.
#[verifier::rlimit(30)]
proof fn lemma_store_len(env: Seq<FunctionView>, fuel: nat, body: Seq<InstrView>, i: int, op: BinaryOp, mem: Seq<u8>, ptr: u32, len: u32, v: u32)
    requires
        0 <= i,
        body.len() == i + 5,
        body[i] == InstrView::LocalGet(0),
        body[i + 1] == InstrView::LocalGet(1),
        body[i + 2] == InstrView::I32Const(1),
        body[i + 3] == InstrView::Binop(op),
        body[i + 4] == InstrView::Store(ValType::I32, 0),
        op == BinaryOp::I32Add ==> v == wrap32(len + 1),
        op == BinaryOp::I32Sub ==> v == wrap32(len - 1),
        op == BinaryOp::I32Add || op == BinaryOp::I32Sub,
    ensures
        run(env, fuel, body, i, Seq::empty(), args2(Value::I32(ptr), Value::I32(len)), mem)
            == if ptr + 4 <= mem.len() {
                Outcome::Done(Seq::empty(), args2(Value::I32(ptr), Value::I32(len)), store_u32(mem, ptr as int, v))
            } else {
                Outcome::Trap
            },
{
    let e = Seq::<Value>::empty();
    let l = args2(Value::I32(ptr), Value::I32(len));
    let p = Value::I32(ptr);
    let n = Value::I32(len);
    let one = Value::I32(1);
    assert(run(env, fuel, body, i, e, l, mem) == run(env, fuel, body, i + 1, e.push(p), l, mem));
    assert(run(env, fuel, body, i + 1, e.push(p), l, mem) == run(env, fuel, body, i + 2, e.push(p).push(n), l, mem));
    assert(run(env, fuel, body, i + 2, e.push(p).push(n), l, mem)
        == run(env, fuel, body, i + 3, e.push(p).push(n).push(one), l, mem));
    assert(e.push(p).push(n).push(one).drop_last().drop_last() =~= e.push(p));
    assert(run(env, fuel, body, i + 3, e.push(p).push(n).push(one), l, mem)
        == run(env, fuel, body, i + 4, e.push(p).push(Value::I32(v)), l, mem));
    lemma_le_bytes_len(v as nat, 4);
    assert(e.push(p).push(Value::I32(v)).drop_last().drop_last() =~= e);
    if ptr + 4 <= mem.len() {
        let m = store_u32(mem, ptr as int, v);
        assert(run(env, fuel, body, i + 4, e.push(p).push(Value::I32(v)), l, mem) == run(env, fuel, body, i + 5, e, l, m));
        assert(run(env, fuel, body, i + 5, e, l, m) == Outcome::Done(e, l, m));
    }
}

/// `vec_increment_len` stores the length it is given plus one at the address it is given.
pub proof fn law_increment_vec_len(env: Seq<FunctionView>, fuel: nat, mem: Seq<u8>, ptr: u32, len: u32)
    ensures
        invoke(env, fuel, increment_vec_len_code(), args2(Value::I32(ptr), Value::I32(len)), mem)
            == if ptr + 4 <= mem.len() {
                Completion::Returned(Seq::empty(), store_u32(mem, ptr as int, wrap32(len + 1)))
            } else {
                Completion::Trapped
            },
{
    let f = increment_vec_len_code();
    assert(args2(Value::I32(ptr), Value::I32(len)) + zeros(f.locals) =~= args2(Value::I32(ptr), Value::I32(len)));
    lemma_store_len(env, fuel, f.body, 0, BinaryOp::I32Add, mem, ptr, len, wrap32(len + 1));
}

/// Builds the function that increments a vector's length: it takes the vector's address and
/// its length, and stores the length plus one.
#[verifier::rlimit(30)]
pub fn increment_vec_len_function() -> (r: FunctionBody)
    ensures
        r@ == increment_vec_len_code(),
        forall|env: Seq<FunctionView>, fuel: nat, mem: Seq<u8>, ptr: u32, len: u32|
            #[trigger] invoke(env, fuel, r@, args2(Value::I32(ptr), Value::I32(len)), mem)
            == if ptr + 4 <= mem.len() {
                Completion::Returned(Seq::empty(), store_u32(mem, ptr as int, wrap32(len + 1)))
            } else {
                Completion::Trapped
            },
{
    let mut body: Vec<Instr> = Vec::new();
    push_instr(&mut body, Instr::LocalGet(0));
    push_instr(&mut body, Instr::LocalGet(1));
    push_instr(&mut body, Instr::I32Const(1));
    push_instr(&mut body, Instr::Binop(BinaryOp::I32Add));
    push_instr(&mut body, Instr::Store(ValType::I32, 0));
    let r = FunctionBody {
        name: String::from_str(RuntimeFunction::VecIncrementLen.name()),
        params: vec![ValType::I32, ValType::I32],
        results: Vec::new(),
        locals: Vec::new(),
        body,
    };
    proof {
        let code = increment_vec_len_code();
        assert(r@.params =~= code.params);
        assert(r@.results =~= code.results);
        assert(r@.locals =~= code.locals);
        assert(r@.body =~= code.body);
        assert forall|env: Seq<FunctionView>, fuel: nat, mem: Seq<u8>, ptr: u32, len: u32|
            #[trigger] invoke(env, fuel, r@, args2(Value::I32(ptr), Value::I32(len)), mem)
            == if ptr + 4 <= mem.len() {
                Completion::Returned(Seq::empty(), store_u32(mem, ptr as int, wrap32(len + 1)))
            } else {
                Completion::Trapped
            } by {
            law_increment_vec_len(env, fuel, mem, ptr, len);
        }
    }
    r
}

/// The instructions of the function `vec_decrement_len`.
pub open spec fn decrement_vec_len_code() -> FunctionView {
    FunctionView {
        name: runtime_function_name(RuntimeFunction::VecDecrementLen),
        params: seq![ValType::I32, ValType::I32],
        results: seq![],
        locals: seq![],
        body: seq![
            InstrView::LocalGet(1),
            InstrView::I32Const(0),
            InstrView::Binop(BinaryOp::I32Eq),
            InstrView::IfElse(None, seq![InstrView::Unreachable], seq![]),
            InstrView::LocalGet(0),
            InstrView::LocalGet(1),
            InstrView::I32Const(1),
            InstrView::Binop(BinaryOp::I32Sub),
            InstrView::Store(ValType::I32, 0),
        ],
    }
}

/// Running `vec_decrement_len` on a vector's address and length.
#[verifier::rlimit(30)]
proof fn lemma_decrement_run(env: Seq<FunctionView>, fuel: nat, mem: Seq<u8>, ptr: u32, len: u32)
    ensures
        run(env, fuel, decrement_vec_len_code().body, 0, Seq::empty(), args2(Value::I32(ptr), Value::I32(len)), mem)
            == if len == 0 || ptr + 4 > mem.len() {
                Outcome::Trap
            } else {
                Outcome::Done(Seq::empty(), args2(Value::I32(ptr), Value::I32(len)), store_u32(mem, ptr as int, (len - 1) as u32))
            },
{
    let b = decrement_vec_len_code().body;
    let e = Seq::<Value>::empty();
    let l = args2(Value::I32(ptr), Value::I32(len));
    let n = Value::I32(len);
    let c = Value::I32(if len == 0 { 1 } else { 0 });
    assert(run(env, fuel, b, 0, e, l, mem) == run(env, fuel, b, 1, e.push(n), l, mem));
    assert(run(env, fuel, b, 1, e.push(n), l, mem) == run(env, fuel, b, 2, e.push(n).push(Value::I32(0)), l, mem));
    assert(e.push(n).push(Value::I32(0)).drop_last().drop_last() =~= e);
    assert(run(env, fuel, b, 2, e.push(n).push(Value::I32(0)), l, mem) == run(env, fuel, b, 3, e.push(c), l, mem));
    if len == 0 {
        assert(run(env, fuel, seq![InstrView::Unreachable], 0, e, l, mem) == Outcome::Trap);
    } else {
        assert(run(env, fuel, seq![], 0, e, l, mem) == Outcome::Done(e, l, mem));
        assert(e.push(c).drop_last() + e =~= e);
        assert(run(env, fuel, b, 3, e.push(c), l, mem) == run(env, fuel, b, 4, e, l, mem));
        lemma_store_len(env, fuel, b, 4, BinaryOp::I32Sub, mem, ptr, len, (len - 1) as u32);
    }
}

/// `vec_decrement_len` traps on a length of zero, and otherwise stores the length it is given
/// minus one at the address it is given.
pub proof fn law_decrement_vec_len(env: Seq<FunctionView>, fuel: nat, mem: Seq<u8>, ptr: u32, len: u32)
    ensures
        invoke(env, fuel, decrement_vec_len_code(), args2(Value::I32(ptr), Value::I32(len)), mem)
            == if len == 0 || ptr + 4 > mem.len() {
                Completion::Trapped
            } else {
                Completion::Returned(Seq::empty(), store_u32(mem, ptr as int, (len - 1) as u32))
            },
{
    let l = args2(Value::I32(ptr), Value::I32(len));
    assert(l + zeros(decrement_vec_len_code().locals) =~= l);
    lemma_decrement_run(env, fuel, mem, ptr, len);
}

/// A call of `vec_decrement_len`, the first function of `env`, on the address and length on top
/// of the stack.
proof fn lemma_call_decrement(env: Seq<FunctionView>, fuel: nat, mem: Seq<u8>, b: Seq<InstrView>, i: int, below: Seq<Value>, l: Seq<Value>, ptr: u32, len: u32)
    requires
        env.len() >= 1,
        env[0] == decrement_vec_len_code(),
        0 <= i < b.len(),
        b[i] == InstrView::Call(0),
    ensures
        run(env, fuel, b, i, below.push(Value::I32(ptr)).push(Value::I32(len)), l, mem)
            == if len == 0 || ptr + 4 > mem.len() {
                Outcome::Trap
            } else {
                run(env, fuel, b, i + 1, below, l, store_u32(mem, ptr as int, (len - 1) as u32))
            },
{
    let stack = below.push(Value::I32(ptr)).push(Value::I32(len));
    let args = args2(Value::I32(ptr), Value::I32(len));
    assert(stack.subrange(below.len() as int, stack.len() as int) + zeros(decrement_vec_len_code().locals) =~= args);
    lemma_decrement_run(env.take(0), fuel, mem, ptr, len);
    assert(stack.subrange(0, below.len() as int) + Seq::<Value>::empty() =~= below);
}

/// Builds the function that decrements a vector's length: it takes the vector's address and its
/// length, traps when the length is zero, and otherwise stores the length minus one.
#[verifier::rlimit(30)]
pub fn decrement_vec_len_function() -> (r: FunctionBody)
    ensures
        r@ == decrement_vec_len_code(),
        forall|env: Seq<FunctionView>, fuel: nat, mem: Seq<u8>, ptr: u32, len: u32|
            #[trigger] invoke(env, fuel, r@, args2(Value::I32(ptr), Value::I32(len)), mem)
            == if len == 0 || ptr + 4 > mem.len() {
                Completion::Trapped
            } else {
                Completion::Returned(Seq::empty(), store_u32(mem, ptr as int, (len - 1) as u32))
            },
{
    let mut then_: Vec<Instr> = Vec::new();
    push_instr(&mut then_, Instr::Unreachable);
    let mut body: Vec<Instr> = Vec::new();
    // Trap when the vector is empty
    push_instr(&mut body, Instr::LocalGet(1));
    push_instr(&mut body, Instr::I32Const(0));
    push_instr(&mut body, Instr::Binop(BinaryOp::I32Eq));
    push_instr(&mut body, Instr::IfElse(None, then_, Vec::new()));
    push_instr(&mut body, Instr::LocalGet(0));
    push_instr(&mut body, Instr::LocalGet(1));
    push_instr(&mut body, Instr::I32Const(1));
    push_instr(&mut body, Instr::Binop(BinaryOp::I32Sub));
    push_instr(&mut body, Instr::Store(ValType::I32, 0));
    let r = FunctionBody {
        name: String::from_str(RuntimeFunction::VecDecrementLen.name()),
        params: vec![ValType::I32, ValType::I32],
        results: Vec::new(),
        locals: Vec::new(),
        body,
    };
    proof {
        let code = decrement_vec_len_code();
        assert(r@.params =~= code.params);
        assert(r@.results =~= code.results);
        assert(r@.locals =~= code.locals);
        assert(instrs_view(Seq::<Instr>::empty()) =~= seq![]);
        assert(r@.body =~= code.body);
        assert forall|env: Seq<FunctionView>, fuel: nat, mem: Seq<u8>, ptr: u32, len: u32|
            #[trigger] invoke(env, fuel, r@, args2(Value::I32(ptr), Value::I32(len)), mem)
            == if len == 0 || ptr + 4 > mem.len() {
                Completion::Trapped
            } else {
                Completion::Returned(Seq::empty(), store_u32(mem, ptr as int, (len - 1) as u32))
            } by {
            law_decrement_vec_len(env, fuel, mem, ptr, len);
        }
    }
    r
}

/// The instructions that push the address of element `idx` of the vector at `vec`, the index
/// and the address in locals and the element size given by `size`: the address is past the
/// vector's length and capacity, at `idx` times the size.
pub open spec fn vec_elem_ptr_code(vec: u32, idx: u32, size: InstrView) -> Seq<InstrView> {
    seq![
        InstrView::LocalGet(vec),
        InstrView::I32Const(8),
        InstrView::Binop(BinaryOp::I32Add),
        InstrView::LocalGet(idx),
        size,
        InstrView::Binop(BinaryOp::I32Mul),
        InstrView::Binop(BinaryOp::I32Add),
    ]
}

/// Whether `size` pushes the `i32` `z`, as a constant or from a local.
pub open spec fn pushes_size(size: InstrView, l: Seq<Value>, z: u32) -> bool {
    ||| size == InstrView::I32Const(z)
    ||| (size matches InstrView::LocalGet(s) && s < l.len() && l[s as int] == Value::I32(z))
}

/// Running the instructions of `vec_elem_ptr_code` pushes the element's address, when it does
/// not pass 2^32.
#[verifier::rlimit(80)]
proof fn lemma_vec_elem_ptr(env: Seq<FunctionView>, fuel: nat, b: Seq<InstrView>, i: int, stack: Seq<Value>, l: Seq<Value>, mem: Seq<u8>, vec: u32, idx: u32, size: InstrView, v: u32, k: u32, z: u32)
    requires
        0 <= i,
        i + 7 <= b.len(),
        b.subrange(i, i + 7) == vec_elem_ptr_code(vec, idx, size),
        vec < l.len(),
        idx < l.len(),
        l[vec as int] == Value::I32(v),
        l[idx as int] == Value::I32(k),
        pushes_size(size, l, z),
        v + 8 + k * z <= u32::MAX,
    ensures
        run(env, fuel, b, i, stack, l, mem) == run(env, fuel, b, i + 7, stack.push(Value::I32((v + 8 + k * z) as u32)), l, mem),
{
    let code = vec_elem_ptr_code(vec, idx, size);
    assert forall|j: int| 0 <= j < 7 implies b[i + j] == code[j] by {
        assert(b.subrange(i, i + 7)[j] == b[i + j]);
    }
    assert(0 <= k * z <= u32::MAX) by (nonlinear_arith)
        requires
            v + 8 + k * z <= u32::MAX,
            0 <= k,
            0 <= z,
    ;
    let base = Value::I32((v + 8) as u32);
    let off = Value::I32((k * z) as u32);
    let s1 = stack.push(Value::I32(v));
    let s2 = s1.push(Value::I32(8));
    assert(run(env, fuel, b, i, stack, l, mem) == run(env, fuel, b, i + 1, s1, l, mem));
    assert(run(env, fuel, b, i + 1, s1, l, mem) == run(env, fuel, b, i + 2, s2, l, mem));
    assert(s2.drop_last().drop_last() =~= stack);
    assert(run(env, fuel, b, i + 2, s2, l, mem) == run(env, fuel, b, i + 3, stack.push(base), l, mem));
    let s3 = stack.push(base).push(Value::I32(k));
    let s4 = s3.push(Value::I32(z));
    assert(run(env, fuel, b, i + 3, stack.push(base), l, mem) == run(env, fuel, b, i + 4, s3, l, mem));
    assert(run(env, fuel, b, i + 4, s3, l, mem) == run(env, fuel, b, i + 5, s4, l, mem)) by {
        if size == InstrView::I32Const(z) {
        } else {
            assert(b[i + 4] == size);
        }
    }
    assert(s4.drop_last().drop_last() =~= stack.push(base));
    assert(run(env, fuel, b, i + 5, s4, l, mem) == run(env, fuel, b, i + 6, stack.push(base).push(off), l, mem));
    assert(stack.push(base).push(off).drop_last().drop_last() =~= stack);
    assert(run(env, fuel, b, i + 6, stack.push(base).push(off), l, mem)
        == run(env, fuel, b, i + 7, stack.push(Value::I32((v + 8 + k * z) as u32)), l, mem));
}

/// Appends the instructions that push the address of element `idx` of the vector at `vec`, for
/// elements of `size` bytes; the three are locals but the size.
pub fn vec_elem_ptr(instrs: &mut Vec<Instr>, vec: u32, idx: u32, size: u32)
    ensures
        instrs_view(final(instrs)@) == instrs_view(old(instrs)@) + vec_elem_ptr_code(vec, idx, InstrView::I32Const(size)),
{
    let ghost before = instrs_view(instrs@);
    push_instr(instrs, Instr::LocalGet(vec));
    push_instr(instrs, Instr::I32Const(8));
    push_instr(instrs, Instr::Binop(BinaryOp::I32Add));
    push_instr(instrs, Instr::LocalGet(idx));
    push_instr(instrs, Instr::I32Const(size));
    push_instr(instrs, Instr::Binop(BinaryOp::I32Mul));
    push_instr(instrs, Instr::Binop(BinaryOp::I32Add));
    assert(instrs_view(instrs@) =~= before + vec_elem_ptr_code(vec, idx, InstrView::I32Const(size)));
}

/// Appends the instructions that push the address of element `idx` of the vector at `vec`, for
/// elements whose size is in the local `size`.
pub fn vec_elem_ptr_dynamic(instrs: &mut Vec<Instr>, vec: u32, idx: u32, size: u32)
    ensures
        instrs_view(final(instrs)@) == instrs_view(old(instrs)@) + vec_elem_ptr_code(vec, idx, InstrView::LocalGet(size)),
{
    let ghost before = instrs_view(instrs@);
    push_instr(instrs, Instr::LocalGet(vec));
    push_instr(instrs, Instr::I32Const(8));
    push_instr(instrs, Instr::Binop(BinaryOp::I32Add));
    push_instr(instrs, Instr::LocalGet(idx));
    push_instr(instrs, Instr::LocalGet(size));
    push_instr(instrs, Instr::Binop(BinaryOp::I32Mul));
    push_instr(instrs, Instr::Binop(BinaryOp::I32Add));
    assert(instrs_view(instrs@) =~= before + vec_elem_ptr_code(vec, idx, InstrView::LocalGet(size)));
}

/// The instructions of `vec_pop_back_32` (`t` is `i32`) or `vec_pop_back_64` (`t` is `i64`).
pub open spec fn vec_pop_back_code(f: RuntimeFunction, t: ValType) -> FunctionView {
    FunctionView {
        name: runtime_function_name(f),
        params: seq![ValType::I32],
        results: seq![t],
        locals: seq![ValType::I32],
        body: seq![
            InstrView::LocalGet(0),
            InstrView::Load(ValType::I32, 0),
            InstrView::LocalTee(0),
            InstrView::Load(ValType::I32, 0),
            InstrView::LocalSet(1),
            InstrView::LocalGet(0),
            InstrView::LocalGet(1),
            InstrView::Call(0),
            InstrView::LocalGet(0),
            InstrView::Load(ValType::I32, 0),
            InstrView::LocalSet(1),
        ] + vec_elem_ptr_code(0, 1, InstrView::I32Const(byte_width(t) as u32)) + seq![InstrView::Load(t, 0)],
    }
}

/// The address of the vector that the reference at `r` refers to.
pub open spec fn vec_at(mem: Seq<u8>, r: u32) -> u32 {
    load_u32(mem, r as int)
}

/// The length of the vector at `v`.
pub open spec fn vec_len(mem: Seq<u8>, v: u32) -> u32 {
    load_u32(mem, v as int)
}

/// The address of element `k` of the vector at `v`, for elements of `w` bytes.
pub open spec fn elem_addr(v: u32, k: int, w: int) -> int {
    v + 8 + k * w
}

/// Whether the reference at `r` and the vector it refers to, with elements of `w` bytes, lie in
/// the memory below 2^32.
pub open spec fn vec_in_memory(mem: Seq<u8>, r: u32, w: int) -> bool {
    &&& r + 4 <= mem.len()
    &&& vec_at(mem, r) + 4 <= mem.len()
    &&& elem_addr(vec_at(mem, r), vec_len(mem, vec_at(mem, r)) as int, w) <= mem.len()
    &&& elem_addr(vec_at(mem, r), vec_len(mem, vec_at(mem, r)) as int, w) <= u32::MAX
}

/// What popping the last element of the vector that the reference at `r` refers to gives, for
/// elements of type `t`: a trap when the vector is empty, and otherwise the last element, with
/// the length minus one stored.
pub open spec fn pop_back_result(mem: Seq<u8>, r: u32, t: ValType) -> Completion {
    let v = vec_at(mem, r);
    let len = vec_len(mem, v);
    let a = elem_addr(v, len - 1, byte_width(t) as int);
    if len == 0 {
        Completion::Trapped
    } else {
        Completion::Returned(args1(decode(t, mem.subrange(a, a + byte_width(t)))), store_u32(mem, v as int, (len - 1) as u32))
    }
}

/// Popping the last element of the vector that the reference at `r` refers to: trap when the
/// vector is empty, and otherwise store the length minus one and return the last element.
#[verifier::rlimit(100)]
pub proof fn law_vec_pop_back(env: Seq<FunctionView>, fuel: nat, mem: Seq<u8>, f: RuntimeFunction, t: ValType, r: u32)
    requires
        env.len() >= 1,
        env[0] == decrement_vec_len_code(),
        vec_in_memory(mem, r, byte_width(t) as int),
    ensures
        invoke(env, fuel, vec_pop_back_code(f, t), args1(Value::I32(r)), mem) == pop_back_result(mem, r, t),
{
    let code = vec_pop_back_code(f, t);
    let b = code.body;
    let w = byte_width(t);
    let e = Seq::<Value>::empty();
    let v = vec_at(mem, r);
    let len = vec_len(mem, v);
    lemma_le_value_fits(mem.subrange(r as int, r + 4));
    lemma_le_value_fits(mem.subrange(v as int, v + 4));
    let l0 = seq![Value::I32(r), Value::I32(0)];
    assert(args1(Value::I32(r)) + zeros(code.locals) =~= l0);
    let l1 = seq![Value::I32(v), Value::I32(0)];
    let l2 = seq![Value::I32(v), Value::I32(len)];
    assert(run(env, fuel, b, 0, e, l0, mem) == run(env, fuel, b, 1, e.push(Value::I32(r)), l0, mem));
    assert(e.push(Value::I32(r)).drop_last() =~= e);
    assert(run(env, fuel, b, 1, e.push(Value::I32(r)), l0, mem) == run(env, fuel, b, 2, e.push(Value::I32(v)), l0, mem));
    assert(l0.update(0, Value::I32(v)) =~= l1);
    assert(run(env, fuel, b, 2, e.push(Value::I32(v)), l0, mem) == run(env, fuel, b, 3, e.push(Value::I32(v)), l1, mem));
    assert(e.push(Value::I32(v)).drop_last() =~= e);
    assert(run(env, fuel, b, 3, e.push(Value::I32(v)), l1, mem) == run(env, fuel, b, 4, e.push(Value::I32(len)), l1, mem));
    assert(l1.update(1, Value::I32(len)) =~= l2);
    assert(e.push(Value::I32(len)).drop_last() =~= e);
    assert(run(env, fuel, b, 4, e.push(Value::I32(len)), l1, mem) == run(env, fuel, b, 5, e, l2, mem));
    assert(run(env, fuel, b, 5, e, l2, mem) == run(env, fuel, b, 6, e.push(Value::I32(v)), l2, mem));
    assert(run(env, fuel, b, 6, e.push(Value::I32(v)), l2, mem)
        == run(env, fuel, b, 7, e.push(Value::I32(v)).push(Value::I32(len)), l2, mem));
    lemma_call_decrement(env, fuel, mem, b, 7, e, l2, v, len);
    if len != 0 {
        let m = store_u32(mem, v as int, (len - 1) as u32);
        let n = (len - 1) as u32;
        let l3 = seq![Value::I32(v), Value::I32(n)];
        lemma_store_u32(mem, v as int, n);
        lemma_le_value_fits(m.subrange(v as int, v + 4));
        assert(run(env, fuel, b, 8, e, l2, m) == run(env, fuel, b, 9, e.push(Value::I32(v)), l2, m));
        assert(run(env, fuel, b, 9, e.push(Value::I32(v)), l2, m) == run(env, fuel, b, 10, e.push(Value::I32(n)), l2, m));
        assert(l2.update(1, Value::I32(n)) =~= l3);
        assert(e.push(Value::I32(n)).drop_last() =~= e);
        assert(run(env, fuel, b, 10, e.push(Value::I32(n)), l2, m) == run(env, fuel, b, 11, e, l3, m));
        assert(n * w <= len * w) by (nonlinear_arith)
            requires
                n < len,
                w >= 0,
        ;
        assert(b.subrange(11, 18) =~= vec_elem_ptr_code(0, 1, InstrView::I32Const(w as u32)));
        lemma_vec_elem_ptr(env, fuel, b, 11, e, l3, m, 0, 1, InstrView::I32Const(w as u32), v, n, w as u32);
        let a = (v + 8 + n * w) as u32;
        assert(a + w <= elem_addr(v, len as int, w as int)) by (nonlinear_arith)
            requires
                a == v + 8 + n * w,
                n + 1 == len,
        ;
        lemma_le_bytes_len(n as nat, 4);
        lemma_write_bytes_elsewhere(mem, v as int, le_bytes(n as nat, 4), a as int, w as int);
        let x = decode(t, mem.subrange(a as int, a + w));
        assert(e.push(Value::I32(a)).drop_last() =~= e);
        assert(run(env, fuel, b, 18, e.push(Value::I32(a)), l3, m) == run(env, fuel, b, 19, e.push(x), l3, m));
        assert(e.push(x) =~= args1(x));
    }
}

/// Builds the function that pops the last element of a vector of elements of type `t`.
#[verifier::rlimit(30)]
fn vec_pop_back_function(f: RuntimeFunction, t: ValType) -> (r: FunctionBody)
    ensures
        r@ == vec_pop_back_code(f, t),
{
    let mut body: Vec<Instr> = Vec::new();
    // Load the vector's address and its length
    push_instr(&mut body, Instr::LocalGet(0));
    push_instr(&mut body, Instr::Load(ValType::I32, 0));
    push_instr(&mut body, Instr::LocalTee(0));
    push_instr(&mut body, Instr::Load(ValType::I32, 0));
    push_instr(&mut body, Instr::LocalSet(1));
    // Decrement the length
    push_instr(&mut body, Instr::LocalGet(0));
    push_instr(&mut body, Instr::LocalGet(1));
    push_instr(&mut body, Instr::Call(0));
    // Load the new length
    push_instr(&mut body, Instr::LocalGet(0));
    push_instr(&mut body, Instr::Load(ValType::I32, 0));
    push_instr(&mut body, Instr::LocalSet(1));
    let size: u32 = match t {
        ValType::I32 => 4,
        ValType::I64 => 8,
    };
    vec_elem_ptr(&mut body, 0, 1, size);
    push_instr(&mut body, Instr::Load(t, 0));
    let r = FunctionBody {
        name: String::from_str(f.name()),
        params: vec![ValType::I32],
        results: vec![t],
        locals: vec![ValType::I32],
        body,
    };
    proof {
        let code = vec_pop_back_code(f, t);
        assert(r@.params =~= code.params);
        assert(r@.results =~= code.results);
        assert(r@.locals =~= code.locals);
        assert(r@.body =~= code.body);
    }
    r
}

/// Builds the function that pops the last element of a vector of 4-byte elements: it takes a
/// reference to the vector, traps when the vector is empty, and otherwise decrements the length,
/// with `vec_decrement_len`, the first function it calls, and returns the element.
pub fn vec_pop_back_32_function() -> (r: FunctionBody)
    ensures
        r@ == vec_pop_back_code(RuntimeFunction::VecPopBack32, ValType::I32),
        forall|env: Seq<FunctionView>, fuel: nat, mem: Seq<u8>, vr: u32|
            env.len() >= 1 && env[0] == decrement_vec_len_code() && vec_in_memory(mem, vr, 4)
            ==> #[trigger] invoke(env, fuel, r@, args1(Value::I32(vr)), mem) == pop_back_result(mem, vr, ValType::I32),
{
    let r = vec_pop_back_function(RuntimeFunction::VecPopBack32, ValType::I32);
    proof {
        assert forall|env: Seq<FunctionView>, fuel: nat, mem: Seq<u8>, vr: u32|
            env.len() >= 1 && env[0] == decrement_vec_len_code() && vec_in_memory(mem, vr, 4)
            implies #[trigger] invoke(env, fuel, r@, args1(Value::I32(vr)), mem) == pop_back_result(mem, vr, ValType::I32) by {
            law_vec_pop_back(env, fuel, mem, RuntimeFunction::VecPopBack32, ValType::I32, vr);
        }
    }
    r
}

/// Builds the function that pops the last element of a vector of 8-byte elements: it takes a
/// reference to the vector, traps when the vector is empty, and otherwise decrements the length,
/// with `vec_decrement_len`, the first function it calls, and returns the element.
pub fn vec_pop_back_64_function() -> (r: FunctionBody)
    ensures
        r@ == vec_pop_back_code(RuntimeFunction::VecPopBack64, ValType::I64),
        forall|env: Seq<FunctionView>, fuel: nat, mem: Seq<u8>, vr: u32|
            env.len() >= 1 && env[0] == decrement_vec_len_code() && vec_in_memory(mem, vr, 8)
            ==> #[trigger] invoke(env, fuel, r@, args1(Value::I32(vr)), mem) == pop_back_result(mem, vr, ValType::I64),
{
    let r = vec_pop_back_function(RuntimeFunction::VecPopBack64, ValType::I64);
    proof {
        assert forall|env: Seq<FunctionView>, fuel: nat, mem: Seq<u8>, vr: u32|
            env.len() >= 1 && env[0] == decrement_vec_len_code() && vec_in_memory(mem, vr, 8)
            implies #[trigger] invoke(env, fuel, r@, args1(Value::I32(vr)), mem) == pop_back_result(mem, vr, ValType::I64) by {
            law_vec_pop_back(env, fuel, mem, RuntimeFunction::VecPopBack64, ValType::I64, vr);
        }
    }
    r
}

/// A call of `downcast_u64_to_u32`, the first function of `env`, on the `u64` on top of the
/// stack.
proof fn lemma_call_downcast(env: Seq<FunctionView>, fuel: nat, mem: Seq<u8>, b: Seq<InstrView>, i: int, below: Seq<Value>, l: Seq<Value>, n: u64)
    requires
        env.len() >= 1,
        env[0] == downcast_u64_to_u32_code(),
        0 <= i < b.len(),
        b[i] == InstrView::Call(0),
    ensures
        run(env, fuel, b, i, below.push(Value::I64(n)), l, mem)
            == if n > u32::MAX { Outcome::Trap } else { run(env, fuel, b, i + 1, below.push(Value::I32(n as u32)), l, mem) },
{
    let code = downcast_u64_to_u32_code();
    let stack = below.push(Value::I64(n));
    let args = args1(Value::I64(n));
    assert(stack.subrange(below.len() as int, stack.len() as int) =~= args);
    law_downcast_u64_to_u32(env.take(0), fuel, mem, n);
    let o = run(env.take(0), fuel, code.body, 0, Seq::empty(), args + zeros(code.locals), mem);
    assert(stack.subrange(0, below.len() as int) =~= below);
    match o {
        Outcome::Done(s, _, m) => {
            assert(below + s =~= below.push(Value::I32(n as u32)));
        },
        Outcome::Return(s, m) => {
            assert(below + s.subrange(s.len() - 1, s.len() as int) =~= below.push(Value::I32(n as u32)));
        },
        _ => {},
    }
}

/// The instructions that trap when the index in local `idx` is not below the length in local 5.
pub open spec fn trap_if_out_of_bounds(idx: u32) -> Seq<InstrView> {
    seq![
        InstrView::LocalGet(idx),
        InstrView::LocalGet(5),
        InstrView::Binop(BinaryOp::I32GeU),
        InstrView::IfElse(None, seq![InstrView::Unreachable], seq![]),
    ]
}

/// The block of `vec_swap_32` (`t` is `i32`) or `vec_swap_64` (`t` is `i64`) that checks both
/// indices against the length and then swaps the two elements when they are distinct.
pub open spec fn vec_swap_block(t: ValType) -> Seq<InstrView> {
    let size = InstrView::I32Const(byte_width(t) as u32);
    trap_if_out_of_bounds(4) + trap_if_out_of_bounds(3) + seq![
        InstrView::LocalGet(1),
        InstrView::LocalGet(2),
        InstrView::Binop(BinaryOp::I64Eq),
        InstrView::BrIf(0),
    ] + vec_elem_ptr_code(0, 4, size) + seq![InstrView::LocalSet(7)]
        + vec_elem_ptr_code(0, 3, size) + seq![
        InstrView::LocalSet(8),
        InstrView::LocalGet(7),
        InstrView::Load(t, 0),
        InstrView::LocalSet(6),
        InstrView::LocalGet(7),
        InstrView::LocalGet(8),
        InstrView::Load(t, 0),
        InstrView::Store(t, 0),
        InstrView::LocalGet(8),
        InstrView::LocalGet(6),
        InstrView::Store(t, 0),
    ]
}

/// The instructions of `vec_swap_32` (`t` is `i32`) or `vec_swap_64` (`t` is `i64`).
pub open spec fn vec_swap_code(f: RuntimeFunction, t: ValType) -> FunctionView {
    FunctionView {
        name: runtime_function_name(f),
        params: seq![ValType::I32, ValType::I64, ValType::I64],
        results: seq![],
        locals: seq![ValType::I32, ValType::I32, ValType::I32, t, ValType::I32, ValType::I32],
        body: seq![
            InstrView::LocalGet(1),
            InstrView::Call(0),
            InstrView::LocalSet(4),
            InstrView::LocalGet(2),
            InstrView::Call(0),
            InstrView::LocalSet(3),
            InstrView::LocalGet(0),
            InstrView::Load(ValType::I32, 0),
            InstrView::LocalTee(0),
            InstrView::Load(ValType::I32, 0),
            InstrView::LocalSet(5),
            InstrView::Block(vec_swap_block(t)),
        ],
    }
}

/// `mem` with the `w` bytes at `p1` and those at `p2` exchanged.
pub open spec fn swap_elems(mem: Seq<u8>, p1: int, p2: int, w: int) -> Seq<u8> {
    write_bytes(write_bytes(mem, p1, mem.subrange(p2, p2 + w)), p2, mem.subrange(p1, p1 + w))
}

/// What swapping elements `i1` and `i2` of the vector that the reference at `r` refers to
/// gives, for elements of `w` bytes: a trap when an index does not fit in a `u32` or is not
/// below the length, the memory unchanged when the indices are equal, and otherwise the memory
/// with the two elements exchanged.
pub open spec fn swap_result(mem: Seq<u8>, r: u32, i1: u64, i2: u64, w: int) -> Completion {
    let v = vec_at(mem, r);
    let len = vec_len(mem, v);
    if i1 > u32::MAX || i2 > u32::MAX {
        Completion::Trapped
    } else if i1 >= len || i2 >= len {
        Completion::Trapped
    } else if i1 == i2 {
        Completion::Returned(Seq::empty(), mem)
    } else {
        Completion::Returned(Seq::empty(), swap_elems(mem, elem_addr(v, i1 as int, w), elem_addr(v, i2 as int, w), w))
    }
}

/// An index check: run on to the next instruction when the index is below the length, else
/// trap.
#[verifier::rlimit(30)]
proof fn lemma_trap_if_out_of_bounds(env: Seq<FunctionView>, fuel: nat, b: Seq<InstrView>, i: int, l: Seq<Value>, mem: Seq<u8>, idx: u32, k: u32, len: u32)
    requires
        0 <= i,
        i + 4 <= b.len(),
        b.subrange(i, i + 4) == trap_if_out_of_bounds(idx),
        idx < l.len(),
        5 < l.len(),
        l[idx as int] == Value::I32(k),
        l[5] == Value::I32(len),
    ensures
        run(env, fuel, b, i, Seq::empty(), l, mem)
            == if k >= len { Outcome::Trap } else { run(env, fuel, b, i + 4, Seq::empty(), l, mem) },
{
    let code = trap_if_out_of_bounds(idx);
    assert forall|j: int| 0 <= j < 4 implies b[i + j] == code[j] by {
        assert(b.subrange(i, i + 4)[j] == b[i + j]);
    }
    let e = Seq::<Value>::empty();
    let c = Value::I32(if k >= len { 1 } else { 0 });
    assert(run(env, fuel, b, i, e, l, mem) == run(env, fuel, b, i + 1, e.push(Value::I32(k)), l, mem));
    assert(run(env, fuel, b, i + 1, e.push(Value::I32(k)), l, mem)
        == run(env, fuel, b, i + 2, e.push(Value::I32(k)).push(Value::I32(len)), l, mem));
    assert(e.push(Value::I32(k)).push(Value::I32(len)).drop_last().drop_last() =~= e);
    assert(run(env, fuel, b, i + 2, e.push(Value::I32(k)).push(Value::I32(len)), l, mem)
        == run(env, fuel, b, i + 3, e.push(c), l, mem));
    if k >= len {
        assert(run(env, fuel, seq![InstrView::Unreachable], 0, e, l, mem) == Outcome::Trap);
    } else {
        assert(run(env, fuel, seq![], 0, e, l, mem) == Outcome::Done(e, l, mem));
        assert(e.push(c).drop_last() + e =~= e);
    }
}

/// Running the swap block: trap when an index is not below the length, leave it when the
/// indices are equal, and otherwise exchange the two elements.
#[verifier::rlimit(100)]
proof fn lemma_vec_swap_block(env: Seq<FunctionView>, fuel: nat, mem: Seq<u8>, t: ValType, l: Seq<Value>, v: u32, i1: u64, i2: u64, len: u32)
    requires
        i1 <= u32::MAX,
        i2 <= u32::MAX,
        l.len() == 9,
        l[0] == Value::I32(v),
        l[1] == Value::I64(i1),
        l[2] == Value::I64(i2),
        l[3] == Value::I32(i2 as u32),
        l[4] == Value::I32(i1 as u32),
        l[5] == Value::I32(len),
        elem_addr(v, len as int, byte_width(t) as int) <= mem.len(),
        elem_addr(v, len as int, byte_width(t) as int) <= u32::MAX,
    ensures
        i1 >= len || i2 >= len ==> run(env, fuel, vec_swap_block(t), 0, Seq::empty(), l, mem) == Outcome::Trap,
        i1 == i2 && i1 < len ==> run(env, fuel, vec_swap_block(t), 0, Seq::empty(), l, mem) == Outcome::Break(0, l, mem),
        i1 != i2 && i1 < len && i2 < len ==> (run(env, fuel, vec_swap_block(t), 0, Seq::empty(), l, mem) matches Outcome::Done(s, _, m)
            && s.len() == 0 && m == swap_elems(mem, elem_addr(v, i1 as int, byte_width(t) as int), elem_addr(v, i2 as int, byte_width(t) as int), byte_width(t) as int)),
{
    let b = vec_swap_block(t);
    let w = byte_width(t);
    let e = Seq::<Value>::empty();
    let k1 = i1 as u32;
    let k2 = i2 as u32;
    let c = Value::I32(if i1 == i2 { 1 } else { 0 });
    assert(b.subrange(0, 4) =~= trap_if_out_of_bounds(4));
    lemma_trap_if_out_of_bounds(env, fuel, b, 0, l, mem, 4, k1, len);
    if k1 < len {
        assert(b.subrange(4, 8) =~= trap_if_out_of_bounds(3));
        lemma_trap_if_out_of_bounds(env, fuel, b, 4, l, mem, 3, k2, len);
        if k2 < len {
            assert(run(env, fuel, b, 8, e, l, mem) == run(env, fuel, b, 9, e.push(Value::I64(i1)), l, mem));
            assert(run(env, fuel, b, 9, e.push(Value::I64(i1)), l, mem)
                == run(env, fuel, b, 10, e.push(Value::I64(i1)).push(Value::I64(i2)), l, mem));
            assert(e.push(Value::I64(i1)).push(Value::I64(i2)).drop_last().drop_last() =~= e);
            assert(run(env, fuel, b, 10, e.push(Value::I64(i1)).push(Value::I64(i2)), l, mem) == run(env, fuel, b, 11, e.push(c), l, mem));
            assert(e.push(c).drop_last() =~= e);
            if i1 != i2 {
                assert(run(env, fuel, b, 11, e.push(c), l, mem) == run(env, fuel, b, 12, e, l, mem));
                let size = InstrView::I32Const(w as u32);
                assert(k1 * w <= len * w && k2 * w <= len * w) by (nonlinear_arith)
                    requires
                        k1 < len,
                        k2 < len,
                        w >= 0,
                ;
                let p1 = (v + 8 + k1 * w) as u32;
                let p2 = (v + 8 + k2 * w) as u32;
                assert(p1 + w <= elem_addr(v, len as int, w as int) && p2 + w <= elem_addr(v, len as int, w as int)) by (nonlinear_arith)
                    requires
                        p1 == v + 8 + k1 * w,
                        p2 == v + 8 + k2 * w,
                        k1 + 1 <= len,
                        k2 + 1 <= len,
                        w >= 0,
                ;
                assert(b.subrange(12, 19) =~= vec_elem_ptr_code(0, 4, size));
                lemma_vec_elem_ptr(env, fuel, b, 12, e, l, mem, 0, 4, size, v, k1, w as u32);
                let l1 = l.update(7, Value::I32(p1));
                assert(e.push(Value::I32(p1)).drop_last() =~= e);
                assert(run(env, fuel, b, 19, e.push(Value::I32(p1)), l, mem) == run(env, fuel, b, 20, e, l1, mem));
                assert(b.subrange(20, 27) =~= vec_elem_ptr_code(0, 3, size));
                lemma_vec_elem_ptr(env, fuel, b, 20, e, l1, mem, 0, 3, size, v, k2, w as u32);
                let l2 = l1.update(8, Value::I32(p2));
                assert(e.push(Value::I32(p2)).drop_last() =~= e);
                assert(run(env, fuel, b, 27, e.push(Value::I32(p2)), l1, mem) == run(env, fuel, b, 28, e, l2, mem));
                let xb = mem.subrange(p1 as int, p1 + w);
                let yb = mem.subrange(p2 as int, p2 + w);
                let x = decode(t, xb);
                let y = decode(t, yb);
                let l3 = l2.update(6, x);
                assert(run(env, fuel, b, 28, e, l2, mem) == run(env, fuel, b, 29, e.push(Value::I32(p1)), l2, mem));
                assert(run(env, fuel, b, 29, e.push(Value::I32(p1)), l2, mem) == run(env, fuel, b, 30, e.push(x), l2, mem));
                assert(e.push(x).drop_last() =~= e);
                assert(run(env, fuel, b, 30, e.push(x), l2, mem) == run(env, fuel, b, 31, e, l3, mem));
                assert(run(env, fuel, b, 31, e, l3, mem) == run(env, fuel, b, 32, e.push(Value::I32(p1)), l3, mem));
                let s2 = e.push(Value::I32(p1)).push(Value::I32(p2));
                assert(run(env, fuel, b, 32, e.push(Value::I32(p1)), l3, mem) == run(env, fuel, b, 33, s2, l3, mem));
                assert(s2.drop_last() =~= e.push(Value::I32(p1)));
                let s3 = e.push(Value::I32(p1)).push(y);
                assert(run(env, fuel, b, 33, s2, l3, mem) == run(env, fuel, b, 34, s3, l3, mem));
                lemma_encode_decode(t, yb);
                lemma_encode_decode(t, xb);
                let m1 = write_bytes(mem, p1 as int, yb);
                assert(s3.drop_last().drop_last() =~= e);
                assert(run(env, fuel, b, 34, s3, l3, mem) == run(env, fuel, b, 35, e, l3, m1));
                lemma_write_bytes(mem, p1 as int, yb);
                assert(run(env, fuel, b, 35, e, l3, m1) == run(env, fuel, b, 36, e.push(Value::I32(p2)), l3, m1));
                let s4 = e.push(Value::I32(p2)).push(x);
                assert(run(env, fuel, b, 36, e.push(Value::I32(p2)), l3, m1) == run(env, fuel, b, 37, s4, l3, m1));
                let m2 = write_bytes(m1, p2 as int, xb);
                assert(s4.drop_last().drop_last() =~= e);
                assert(run(env, fuel, b, 37, s4, l3, m1) == run(env, fuel, b, 38, e, l3, m2));
            }
        }
    }
}

/// Swapping elements `i1` and `i2` of the vector that the reference at `r` refers to, with
/// `downcast_u64_to_u32` as the first function of `env`: see `swap_result`.
#[verifier::rlimit(100)]
pub proof fn law_vec_swap(env: Seq<FunctionView>, fuel: nat, mem: Seq<u8>, f: RuntimeFunction, t: ValType, r: u32, i1: u64, i2: u64)
    requires
        env.len() >= 1,
        env[0] == downcast_u64_to_u32_code(),
        vec_in_memory(mem, r, byte_width(t) as int),
    ensures
        invoke(env, fuel, vec_swap_code(f, t), args3(Value::I32(r), Value::I64(i1), Value::I64(i2)), mem)
            == swap_result(mem, r, i1, i2, byte_width(t) as int),
{
    let code = vec_swap_code(f, t);
    let b = code.body;
    let e = Seq::<Value>::empty();
    let v = vec_at(mem, r);
    let len = vec_len(mem, v);
    let l0 = seq![Value::I32(r), Value::I64(i1), Value::I64(i2), Value::I32(0), Value::I32(0), Value::I32(0), zero(t), Value::I32(0), Value::I32(0)];
    assert(args3(Value::I32(r), Value::I64(i1), Value::I64(i2)) + zeros(code.locals) =~= l0);
    assert(run(env, fuel, b, 0, e, l0, mem) == run(env, fuel, b, 1, e.push(Value::I64(i1)), l0, mem));
    lemma_call_downcast(env, fuel, mem, b, 1, e, l0, i1);
    if i1 <= u32::MAX {
        let k1 = i1 as u32;
        let la = l0.update(4, Value::I32(k1));
        assert(e.push(Value::I32(k1)).drop_last() =~= e);
        assert(run(env, fuel, b, 2, e.push(Value::I32(k1)), l0, mem) == run(env, fuel, b, 3, e, la, mem));
        assert(run(env, fuel, b, 3, e, la, mem) == run(env, fuel, b, 4, e.push(Value::I64(i2)), la, mem));
        lemma_call_downcast(env, fuel, mem, b, 4, e, la, i2);
        if i2 <= u32::MAX {
            let k2 = i2 as u32;
            let lb = la.update(3, Value::I32(k2));
            assert(e.push(Value::I32(k2)).drop_last() =~= e);
            assert(run(env, fuel, b, 5, e.push(Value::I32(k2)), la, mem) == run(env, fuel, b, 6, e, lb, mem));
            lemma_le_value_fits(mem.subrange(r as int, r + 4));
            lemma_le_value_fits(mem.subrange(v as int, v + 4));
            assert(run(env, fuel, b, 6, e, lb, mem) == run(env, fuel, b, 7, e.push(Value::I32(r)), lb, mem));
            assert(e.push(Value::I32(r)).drop_last() =~= e);
            assert(run(env, fuel, b, 7, e.push(Value::I32(r)), lb, mem) == run(env, fuel, b, 8, e.push(Value::I32(v)), lb, mem));
            let lc = lb.update(0, Value::I32(v));
            assert(run(env, fuel, b, 8, e.push(Value::I32(v)), lb, mem) == run(env, fuel, b, 9, e.push(Value::I32(v)), lc, mem));
            assert(e.push(Value::I32(v)).drop_last() =~= e);
            assert(run(env, fuel, b, 9, e.push(Value::I32(v)), lc, mem) == run(env, fuel, b, 10, e.push(Value::I32(len)), lc, mem));
            let ld = lc.update(5, Value::I32(len));
            assert(e.push(Value::I32(len)).drop_last() =~= e);
            assert(run(env, fuel, b, 10, e.push(Value::I32(len)), lc, mem) == run(env, fuel, b, 11, e, ld, mem));
            lemma_vec_swap_block(env, fuel, mem, t, ld, v, i1, i2, len);
            let o = run(env, fuel, vec_swap_block(t), 0, e, ld, mem);
            match o {
                Outcome::Done(s, l2, m) => {
                    assert(e + s =~= e);
                    assert(run(env, fuel, b, 12, e, l2, m) == Outcome::Done(e, l2, m));
                },
                Outcome::Break(_, l2, m) => {
                    assert(run(env, fuel, b, 12, e, l2, m) == Outcome::Done(e, l2, m));
                },
                _ => {},
            }
        }
    }
}

/// Builds the function that swaps two elements of a vector of elements of type `t`.
#[verifier::rlimit(30)]
fn vec_swap_function(f: RuntimeFunction, t: ValType) -> (r: FunctionBody)
    ensures
        r@ == vec_swap_code(f, t),
{
    let size: u32 = match t {
        ValType::I32 => 4,
        ValType::I64 => 8,
    };
    let mut then1: Vec<Instr> = Vec::new();
    push_instr(&mut then1, Instr::Unreachable);
    let mut then2: Vec<Instr> = Vec::new();
    push_instr(&mut then2, Instr::Unreachable);
    let mut block: Vec<Instr> = Vec::new();
    // Trap when an index is out of bounds
    push_instr(&mut block, Instr::LocalGet(4));
    push_instr(&mut block, Instr::LocalGet(5));
    push_instr(&mut block, Instr::Binop(BinaryOp::I32GeU));
    push_instr(&mut block, Instr::IfElse(None, then1, Vec::new()));
    push_instr(&mut block, Instr::LocalGet(3));
    push_instr(&mut block, Instr::LocalGet(5));
    push_instr(&mut block, Instr::Binop(BinaryOp::I32GeU));
    push_instr(&mut block, Instr::IfElse(None, then2, Vec::new()));
    // Nothing more to do when the indices are equal
    push_instr(&mut block, Instr::LocalGet(1));
    push_instr(&mut block, Instr::LocalGet(2));
    push_instr(&mut block, Instr::Binop(BinaryOp::I64Eq));
    push_instr(&mut block, Instr::BrIf(0));
    // The elements' addresses
    vec_elem_ptr(&mut block, 0, 4, size);
    push_instr(&mut block, Instr::LocalSet(7));
    vec_elem_ptr(&mut block, 0, 3, size);
    push_instr(&mut block, Instr::LocalSet(8));
    // Keep the first element
    push_instr(&mut block, Instr::LocalGet(7));
    push_instr(&mut block, Instr::Load(t, 0));
    push_instr(&mut block, Instr::LocalSet(6));
    // Store the second element in place of the first
    push_instr(&mut block, Instr::LocalGet(7));
    push_instr(&mut block, Instr::LocalGet(8));
    push_instr(&mut block, Instr::Load(t, 0));
    push_instr(&mut block, Instr::Store(t, 0));
    // Store the first element in place of the second
    push_instr(&mut block, Instr::LocalGet(8));
    push_instr(&mut block, Instr::LocalGet(6));
    push_instr(&mut block, Instr::Store(t, 0));
    proof {
        assert(instrs_view(Seq::<Instr>::empty()) =~= seq![]);
        assert(instrs_view(block@) =~= vec_swap_block(t));
    }

    let mut body: Vec<Instr> = Vec::new();
    // The indices as `u32`
    push_instr(&mut body, Instr::LocalGet(1));
    push_instr(&mut body, Instr::Call(0));
    push_instr(&mut body, Instr::LocalSet(4));
    push_instr(&mut body, Instr::LocalGet(2));
    push_instr(&mut body, Instr::Call(0));
    push_instr(&mut body, Instr::LocalSet(3));
    // The vector's address and length
    push_instr(&mut body, Instr::LocalGet(0));
    push_instr(&mut body, Instr::Load(ValType::I32, 0));
    push_instr(&mut body, Instr::LocalTee(0));
    push_instr(&mut body, Instr::Load(ValType::I32, 0));
    push_instr(&mut body, Instr::LocalSet(5));
    push_instr(&mut body, Instr::Block(block));
    let r = FunctionBody {
        name: String::from_str(f.name()),
        params: vec![ValType::I32, ValType::I64, ValType::I64],
        results: Vec::new(),
        locals: vec![ValType::I32, ValType::I32, ValType::I32, t, ValType::I32, ValType::I32],
        body,
    };
    proof {
        let code = vec_swap_code(f, t);
        assert(r@.params =~= code.params);
        assert(r@.results =~= code.results);
        assert(r@.locals =~= code.locals);
        assert(r@.body =~= code.body);
    }
    r
}

/// Builds the function that swaps two elements of a vector of 4-byte elements: it takes a
/// reference to the vector and the two indices as `u64`, which it narrows with
/// `downcast_u64_to_u32`, the first function it calls; see `swap_result` for what it does.
pub fn vec_swap_32_function() -> (r: FunctionBody)
    ensures
        r@ == vec_swap_code(RuntimeFunction::VecSwap32, ValType::I32),
        forall|env: Seq<FunctionView>, fuel: nat, mem: Seq<u8>, vr: u32, i1: u64, i2: u64|
            env.len() >= 1 && env[0] == downcast_u64_to_u32_code() && vec_in_memory(mem, vr, 4)
            ==> #[trigger] invoke(env, fuel, r@, args3(Value::I32(vr), Value::I64(i1), Value::I64(i2)), mem) == swap_result(mem, vr, i1, i2, 4),
{
    let r = vec_swap_function(RuntimeFunction::VecSwap32, ValType::I32);
    proof {
        assert forall|env: Seq<FunctionView>, fuel: nat, mem: Seq<u8>, vr: u32, i1: u64, i2: u64|
            env.len() >= 1 && env[0] == downcast_u64_to_u32_code() && vec_in_memory(mem, vr, 4)
            implies #[trigger] invoke(env, fuel, r@, args3(Value::I32(vr), Value::I64(i1), Value::I64(i2)), mem) == swap_result(mem, vr, i1, i2, 4) by {
            law_vec_swap(env, fuel, mem, RuntimeFunction::VecSwap32, ValType::I32, vr, i1, i2);
        }
    }
    r
}

/// Builds the function that swaps two elements of a vector of 8-byte elements: it takes a
/// reference to the vector and the two indices as `u64`, which it narrows with
/// `downcast_u64_to_u32`, the first function it calls; see `swap_result` for what it does.
pub fn vec_swap_64_function() -> (r: FunctionBody)
    ensures
        r@ == vec_swap_code(RuntimeFunction::VecSwap64, ValType::I64),
        forall|env: Seq<FunctionView>, fuel: nat, mem: Seq<u8>, vr: u32, i1: u64, i2: u64|
            env.len() >= 1 && env[0] == downcast_u64_to_u32_code() && vec_in_memory(mem, vr, 8)
            ==> #[trigger] invoke(env, fuel, r@, args3(Value::I32(vr), Value::I64(i1), Value::I64(i2)), mem) == swap_result(mem, vr, i1, i2, 8),
{
    let r = vec_swap_function(RuntimeFunction::VecSwap64, ValType::I64);
    proof {
        assert forall|env: Seq<FunctionView>, fuel: nat, mem: Seq<u8>, vr: u32, i1: u64, i2: u64|
            env.len() >= 1 && env[0] == downcast_u64_to_u32_code() && vec_in_memory(mem, vr, 8)
            implies #[trigger] invoke(env, fuel, r@, args3(Value::I32(vr), Value::I64(i1), Value::I64(i2)), mem) == swap_result(mem, vr, i1, i2, 8) by {
            law_vec_swap(env, fuel, mem, RuntimeFunction::VecSwap64, ValType::I64, vr, i1, i2);
        }
    }
    r
}

/// The block of `vec_borrow` that traps unless the index is below the vector's length.
pub open spec fn vec_borrow_check() -> Seq<InstrView> {
    seq![
        InstrView::LocalGet(4),
        InstrView::Load(ValType::I32, 0),
        InstrView::LocalGet(1),
        InstrView::Binop(BinaryOp::I32GtU),
        InstrView::BrIf(0),
        InstrView::Unreachable,
    ]
}

/// The branch of `vec_borrow` for an element that is not on the heap: a reference to it is
/// allocated and returned.
pub open spec fn vec_borrow_wrap() -> Seq<InstrView> {
    seq![InstrView::I32Const(4), InstrView::Call(0), InstrView::LocalTee(5)]
        + vec_elem_ptr_code(4, 1, InstrView::LocalGet(3))
        + seq![InstrView::Store(ValType::I32, 0), InstrView::LocalGet(5)]
}

/// The instructions of the function `vec_borrow`.
pub open spec fn vec_borrow_code() -> FunctionView {
    FunctionView {
        name: runtime_function_name(RuntimeFunction::VecBorrow),
        params: seq![ValType::I32, ValType::I32, ValType::I32, ValType::I32],
        results: seq![ValType::I32],
        locals: seq![ValType::I32, ValType::I32],
        body: seq![
            InstrView::LocalGet(0),
            InstrView::Load(ValType::I32, 0),
            InstrView::LocalSet(4),
            InstrView::Block(vec_borrow_check()),
            InstrView::LocalGet(2),
            InstrView::IfElse(Some(ValType::I32), vec_elem_ptr_code(4, 1, InstrView::LocalGet(3)), vec_borrow_wrap()),
        ],
    }
}

/// `vec_borrow` on the reference `vr` to a vector, an index, whether the elements are on the
/// heap and the elements' size: it traps unless the index is below the length; for elements on
/// the heap it returns the element's address, which already holds a reference; otherwise it
/// allocates four bytes with the first function of `env`, stores the element's address there
/// and returns the allocated address.
#[verifier::rlimit(100)]
pub proof fn law_vec_borrow(env: Seq<FunctionView>, fuel: nat, mem: Seq<u8>, vr: u32, index: u32, is_heap: u32, size: u32, q: u32, m1: Seq<u8>)
    requires
        vec_in_memory(mem, vr, size as int),
    ensures
        ({
            let v = vec_at(mem, vr);
            let len = vec_len(mem, v);
            let a = elem_addr(v, index as int, size as int) as u32;
            let out = invoke(env, fuel, vec_borrow_code(), args4(Value::I32(vr), Value::I32(index), Value::I32(is_heap), Value::I32(size)), mem);
            &&& index >= len ==> out == Completion::Trapped
            &&& index < len && is_heap != 0 ==> out == Completion::Returned(args1(Value::I32(a)), mem)
            &&& index < len && is_heap == 0 && env.len() >= 1 && env[0].params.len() == 1
                && invoke(env.take(0), fuel, env[0], args1(Value::I32(4)), mem) == Completion::Returned(args1(Value::I32(q)), m1)
                && q + 4 <= m1.len()
                ==> out == Completion::Returned(args1(Value::I32(q)), store_u32(m1, q as int, a))
        }),
{
    let code = vec_borrow_code();
    let b = code.body;
    let e = Seq::<Value>::empty();
    let v = vec_at(mem, vr);
    let len = vec_len(mem, v);
    lemma_le_value_fits(mem.subrange(vr as int, vr + 4));
    lemma_le_value_fits(mem.subrange(v as int, v + 4));
    let l0 = seq![Value::I32(vr), Value::I32(index), Value::I32(is_heap), Value::I32(size), Value::I32(0), Value::I32(0)];
    assert(args4(Value::I32(vr), Value::I32(index), Value::I32(is_heap), Value::I32(size)) + zeros(code.locals) =~= l0);
    assert(run(env, fuel, b, 0, e, l0, mem) == run(env, fuel, b, 1, e.push(Value::I32(vr)), l0, mem));
    assert(e.push(Value::I32(vr)).drop_last() =~= e);
    assert(run(env, fuel, b, 1, e.push(Value::I32(vr)), l0, mem) == run(env, fuel, b, 2, e.push(Value::I32(v)), l0, mem));
    let l1 = l0.update(4, Value::I32(v));
    assert(e.push(Value::I32(v)).drop_last() =~= e);
    assert(run(env, fuel, b, 2, e.push(Value::I32(v)), l0, mem) == run(env, fuel, b, 3, e, l1, mem));
    // The bounds check
    let cb = vec_borrow_check();
    let c = Value::I32(if len > index { 1 } else { 0 });
    assert(run(env, fuel, cb, 0, e, l1, mem) == run(env, fuel, cb, 1, e.push(Value::I32(v)), l1, mem));
    assert(run(env, fuel, cb, 1, e.push(Value::I32(v)), l1, mem) == run(env, fuel, cb, 2, e.push(Value::I32(len)), l1, mem));
    assert(run(env, fuel, cb, 2, e.push(Value::I32(len)), l1, mem)
        == run(env, fuel, cb, 3, e.push(Value::I32(len)).push(Value::I32(index)), l1, mem));
    assert(e.push(Value::I32(len)).push(Value::I32(index)).drop_last().drop_last() =~= e);
    assert(run(env, fuel, cb, 3, e.push(Value::I32(len)).push(Value::I32(index)), l1, mem) == run(env, fuel, cb, 4, e.push(c), l1, mem));
    if index < len {
        assert(run(env, fuel, cb, 4, e.push(c), l1, mem) == Outcome::Break(0, l1, mem));
        assert(run(env, fuel, b, 3, e, l1, mem) == run(env, fuel, b, 4, e, l1, mem));
        assert(run(env, fuel, b, 4, e, l1, mem) == run(env, fuel, b, 5, e.push(Value::I32(is_heap)), l1, mem));
        assert(index * size <= len * size) by (nonlinear_arith)
            requires
                index < len,
        ;
        let a = (v + 8 + index * size) as u32;
        let ep = vec_elem_ptr_code(4, 1, InstrView::LocalGet(3));
        assert(e.push(Value::I32(is_heap)).drop_last() =~= e);
        if is_heap != 0 {
            assert(ep.subrange(0, 7) =~= ep);
            lemma_vec_elem_ptr(env, fuel, ep, 0, e, l1, mem, 4, 1, InstrView::LocalGet(3), v, index, size);
            assert(run(env, fuel, ep, 7, e.push(Value::I32(a)), l1, mem) == Outcome::Done(e.push(Value::I32(a)), l1, mem));
            assert(e + e.push(Value::I32(a)) =~= e.push(Value::I32(a)));
            assert(run(env, fuel, b, 6, e.push(Value::I32(a)), l1, mem) == Outcome::Done(e.push(Value::I32(a)), l1, mem));
            assert(e.push(Value::I32(a)) =~= args1(Value::I32(a)));
        } else if env.len() >= 1 && env[0].params.len() == 1
            && invoke(env.take(0), fuel, env[0], args1(Value::I32(4)), mem) == Completion::Returned(args1(Value::I32(q)), m1)
            && q + 4 <= m1.len() {
            let wb = vec_borrow_wrap();
            assert(run(env, fuel, wb, 0, e, l1, mem) == run(env, fuel, wb, 1, e.push(Value::I32(4)), l1, mem));
            lemma_call_first(env, fuel, mem, wb, 1, e, l1, Value::I32(4), Value::I32(q), m1);
            let l2 = l1.update(5, Value::I32(q));
            assert(run(env, fuel, wb, 2, e.push(Value::I32(q)), l1, m1) == run(env, fuel, wb, 3, e.push(Value::I32(q)), l2, m1));
            assert(wb.subrange(3, 10) =~= ep);
            lemma_vec_elem_ptr(env, fuel, wb, 3, e.push(Value::I32(q)), l2, m1, 4, 1, InstrView::LocalGet(3), v, index, size);
            let s2 = e.push(Value::I32(q)).push(Value::I32(a));
            lemma_le_bytes_len(a as nat, 4);
            let m2 = store_u32(m1, q as int, a);
            assert(s2.drop_last().drop_last() =~= e);
            assert(run(env, fuel, wb, 10, s2, l2, m1) == run(env, fuel, wb, 11, e, l2, m2));
            assert(run(env, fuel, wb, 11, e, l2, m2) == run(env, fuel, wb, 12, e.push(Value::I32(q)), l2, m2));
            assert(run(env, fuel, wb, 12, e.push(Value::I32(q)), l2, m2) == Outcome::Done(e.push(Value::I32(q)), l2, m2));
            assert(e + e.push(Value::I32(q)) =~= e.push(Value::I32(q)));
            assert(run(env, fuel, b, 6, e.push(Value::I32(q)), l2, m2) == Outcome::Done(e.push(Value::I32(q)), l2, m2));
            assert(e.push(Value::I32(q)) =~= args1(Value::I32(q)));
        }
    } else {
        assert(e.push(c).drop_last() =~= e);
        assert(run(env, fuel, cb, 4, e.push(c), l1, mem) == run(env, fuel, cb, 5, e, l1, mem));
        assert(run(env, fuel, cb, 5, e, l1, mem) == Outcome::Trap);
    }
}

/// Builds the function that borrows an element of a vector: it takes a reference to the
/// vector, the index, whether the elements are on the heap and the elements' size, and returns
/// a reference to the element; where one must be allocated, it calls the allocator, the first
/// function it calls (`law_vec_borrow` states that case).
#[verifier::rlimit(30)]
pub fn vec_borrow_function() -> (r: FunctionBody)
    ensures
        r@ == vec_borrow_code(),
        forall|env: Seq<FunctionView>, fuel: nat, mem: Seq<u8>, vr: u32, index: u32, is_heap: u32, size: u32|
            vec_in_memory(mem, vr, size as int) ==> ({
                let v = vec_at(mem, vr);
                let out = #[trigger] invoke(env, fuel, r@, args4(Value::I32(vr), Value::I32(index), Value::I32(is_heap), Value::I32(size)), mem);
                &&& index >= vec_len(mem, v) ==> out == Completion::Trapped
                &&& index < vec_len(mem, v) && is_heap != 0
                    ==> out == Completion::Returned(args1(Value::I32(elem_addr(v, index as int, size as int) as u32)), mem)
            }),
{
    let mut check: Vec<Instr> = Vec::new();
    push_instr(&mut check, Instr::LocalGet(4));
    push_instr(&mut check, Instr::Load(ValType::I32, 0));
    push_instr(&mut check, Instr::LocalGet(1));
    push_instr(&mut check, Instr::Binop(BinaryOp::I32GtU));
    push_instr(&mut check, Instr::BrIf(0));
    push_instr(&mut check, Instr::Unreachable);
    assert(instrs_view(check@) =~= vec_borrow_check());
    // On the heap, the element's address is already a reference
    let mut then_: Vec<Instr> = Vec::new();
    vec_elem_ptr_dynamic(&mut then_, 4, 1, 3);
    // Otherwise wrap the element's address in a new reference
    let mut else_: Vec<Instr> = Vec::new();
    push_instr(&mut else_, Instr::I32Const(4));
    push_instr(&mut else_, Instr::Call(0));
    push_instr(&mut else_, Instr::LocalTee(5));
    vec_elem_ptr_dynamic(&mut else_, 4, 1, 3);
    push_instr(&mut else_, Instr::Store(ValType::I32, 0));
    push_instr(&mut else_, Instr::LocalGet(5));
    proof {
        assert(instrs_view(Seq::<Instr>::empty()) =~= seq![]);
        assert(instrs_view(then_@) =~= vec_elem_ptr_code(4, 1, InstrView::LocalGet(3)));
        assert(instrs_view(else_@) =~= vec_borrow_wrap());
    }
    let mut body: Vec<Instr> = Vec::new();
    // Load the vector's address
    push_instr(&mut body, Instr::LocalGet(0));
    push_instr(&mut body, Instr::Load(ValType::I32, 0));
    push_instr(&mut body, Instr::LocalSet(4));
    // Trap unless the index is below the length
    push_instr(&mut body, Instr::Block(check));
    push_instr(&mut body, Instr::LocalGet(2));
    push_instr(&mut body, Instr::IfElse(Some(ValType::I32), then_, else_));
    let r = FunctionBody {
        name: String::from_str(RuntimeFunction::VecBorrow.name()),
        params: vec![ValType::I32, ValType::I32, ValType::I32, ValType::I32],
        results: vec![ValType::I32],
        locals: vec![ValType::I32, ValType::I32],
        body,
    };
    proof {
        let code = vec_borrow_code();
        assert(r@.params =~= code.params);
        assert(r@.results =~= code.results);
        assert(r@.locals =~= code.locals);
        assert(r@.body =~= code.body);
        assert forall|env: Seq<FunctionView>, fuel: nat, mem: Seq<u8>, vr: u32, index: u32, is_heap: u32, size: u32|
            vec_in_memory(mem, vr, size as int) implies ({
                let v = vec_at(mem, vr);
                let out = #[trigger] invoke(env, fuel, r@, args4(Value::I32(vr), Value::I32(index), Value::I32(is_heap), Value::I32(size)), mem);
                &&& index >= vec_len(mem, v) ==> out == Completion::Trapped
                &&& index < vec_len(mem, v) && is_heap != 0
                    ==> out == Completion::Returned(args1(Value::I32(elem_addr(v, index as int, size as int) as u32)), mem)
            }) by {
            law_vec_borrow(env, fuel, mem, vr, index, is_heap, size, 0, mem);
        }
    }
    r
}

} // verus!
