//! The runtime function that tells whether two values kept in memory are equal.
use vstd::prelude::*;

use crate::runtime::{RuntimeFunction, runtime_function_name};
use crate::wasm::{
    BinaryOp, Completion, FunctionBody, FunctionView, Instr, InstrView, Outcome, ValType, Value, args1,
    args3, args4, instrs_view, invoke, lemma_call_returning, lemma_le_bytes_of_value,
    lemma_le_value_fits, load_u32, push_instr, run, wrap32, zeros,
};

verus! {

/// The locals of the comparison: the two addresses, the size, and the offset reached.
pub open spec fn eq_locals(a: u32, b: u32, size: u32, o: u32) -> Seq<Value> {
    seq![Value::I32(a), Value::I32(b), Value::I32(size), Value::I32(o)]
}

/// One pass of the comparison loop, at the offset in local 3: leave the block once the offset
/// reaches the size, return false at the first four bytes that differ, and otherwise go on four
/// bytes further.
pub open spec fn a_equals_b_loop() -> Seq<InstrView> {
    seq![
        InstrView::LocalGet(3),
        InstrView::LocalGet(2),
        InstrView::Binop(BinaryOp::I32Eq),
        InstrView::BrIf(1),
        InstrView::LocalGet(0),
        InstrView::LocalGet(3),
        InstrView::Binop(BinaryOp::I32Add),
        InstrView::Load(ValType::I32, 0),
        InstrView::LocalGet(1),
        InstrView::LocalGet(3),
        InstrView::Binop(BinaryOp::I32Add),
        InstrView::Load(ValType::I32, 0),
        InstrView::Binop(BinaryOp::I32Ne),
        InstrView::IfElse(None, seq![InstrView::I32Const(0), InstrView::Return], seq![]),
        InstrView::LocalGet(3),
        InstrView::I32Const(4),
        InstrView::Binop(BinaryOp::I32Add),
        InstrView::LocalSet(3),
        InstrView::Br(0),
    ]
}

/// The block of the comparison: leave it at once when the addresses are equal, and otherwise
/// compare four bytes at a time.
pub open spec fn a_equals_b_block() -> Seq<InstrView> {
    seq![
        InstrView::LocalGet(0),
        InstrView::LocalGet(1),
        InstrView::Binop(BinaryOp::I32Eq),
        InstrView::BrIf(0),
        InstrView::Loop(a_equals_b_loop()),
    ]
}

/// The instructions of the function `heap_type_equality`.
pub open spec fn a_equals_b_code() -> FunctionView {
    FunctionView {
        name: runtime_function_name(RuntimeFunction::HeapTypeEquality),
        params: seq![ValType::I32, ValType::I32, ValType::I32],
        results: seq![ValType::I32],
        locals: seq![ValType::I32],
        body: seq![InstrView::Block(a_equals_b_block()), InstrView::I32Const(1)],
    }
}

/// Whether the bytes at `a + j` and `b + j` are equal for each `j` from `from` to `to`.
pub open spec fn same_bytes(mem: Seq<u8>, a: int, b: int, from: int, to: int) -> bool {
    forall|j: int| from <= j < to ==> #[trigger] mem[a + j] == mem[b + j]
}

/// Two four-byte chunks load as the same `u32` exactly when their bytes are the same.
proof fn lemma_chunks_equal(mem: Seq<u8>, a: int, b: int)
    requires
        0 <= a,
        0 <= b,
        a + 4 <= mem.len(),
        b + 4 <= mem.len(),
    ensures
        (load_u32(mem, a) == load_u32(mem, b)) == same_bytes(mem, a, b, 0, 4),
{
    let x = mem.subrange(a, a + 4);
    let y = mem.subrange(b, b + 4);
    lemma_le_value_fits(x);
    lemma_le_value_fits(y);
    lemma_le_bytes_of_value(x);
    lemma_le_bytes_of_value(y);
    if same_bytes(mem, a, b, 0, 4) {
        assert forall|j: int| 0 <= j < 4 implies x[j] == y[j] by {
            assert(mem[a + j] == mem[b + j]);
        }
        assert(x =~= y);
    }
    if load_u32(mem, a) == load_u32(mem, b) {
        assert(x == y);
        assert forall|j: int| 0 <= j < 4 implies #[trigger] mem[a + j] == mem[b + j] by {
            assert(x[j] == mem[a + j]);
            assert(y[j] == mem[b + j]);
        }
    }
}

/// The loads of a pass of the comparison loop at offset `o`: they leave whether the four bytes
/// at `a + o` and `b + o` differ.
#[verifier::rlimit(80)]
proof fn lemma_a_equals_b_loads(env: Seq<FunctionView>, fuel: nat, mem: Seq<u8>, a: u32, b: u32, size: u32, o: u32)
    requires
        o + 4 <= size,
        a + size <= mem.len(),
        b + size <= mem.len(),
        a + size <= u32::MAX,
        b + size <= u32::MAX,
    ensures
        run(env, fuel, a_equals_b_loop(), 4, Seq::empty(), eq_locals(a, b, size, o), mem)
            == run(env, fuel, a_equals_b_loop(), 13, seq![Value::I32(if same_bytes(mem, a + o, b + o, 0, 4) { 0 } else { 1 })], eq_locals(a, b, size, o), mem),
{
    let lb = a_equals_b_loop();
    let e = Seq::<Value>::empty();
    let l = eq_locals(a, b, size, o);
    let pa = (a + o) as u32;
    let pb = (b + o) as u32;
    lemma_le_value_fits(mem.subrange(pa as int, pa + 4));
    lemma_le_value_fits(mem.subrange(pb as int, pb + 4));
    let x = load_u32(mem, pa as int);
    let y = load_u32(mem, pb as int);
    assert(run(env, fuel, lb, 4, e, l, mem) == run(env, fuel, lb, 5, e.push(Value::I32(a)), l, mem));
    assert(run(env, fuel, lb, 5, e.push(Value::I32(a)), l, mem) == run(env, fuel, lb, 6, e.push(Value::I32(a)).push(Value::I32(o)), l, mem));
    assert(e.push(Value::I32(a)).push(Value::I32(o)).drop_last().drop_last() =~= e);
    assert(run(env, fuel, lb, 6, e.push(Value::I32(a)).push(Value::I32(o)), l, mem) == run(env, fuel, lb, 7, e.push(Value::I32(pa)), l, mem));
    assert(e.push(Value::I32(pa)).drop_last() =~= e);
    assert(run(env, fuel, lb, 7, e.push(Value::I32(pa)), l, mem) == run(env, fuel, lb, 8, e.push(Value::I32(x)), l, mem));
    let sx = e.push(Value::I32(x));
    assert(run(env, fuel, lb, 8, sx, l, mem) == run(env, fuel, lb, 9, sx.push(Value::I32(b)), l, mem));
    assert(run(env, fuel, lb, 9, sx.push(Value::I32(b)), l, mem) == run(env, fuel, lb, 10, sx.push(Value::I32(b)).push(Value::I32(o)), l, mem));
    assert(sx.push(Value::I32(b)).push(Value::I32(o)).drop_last().drop_last() =~= sx);
    assert(run(env, fuel, lb, 10, sx.push(Value::I32(b)).push(Value::I32(o)), l, mem) == run(env, fuel, lb, 11, sx.push(Value::I32(pb)), l, mem));
    assert(sx.push(Value::I32(pb)).drop_last() =~= sx);
    assert(run(env, fuel, lb, 11, sx.push(Value::I32(pb)), l, mem) == run(env, fuel, lb, 12, sx.push(Value::I32(y)), l, mem));
    let d = Value::I32(if x != y { 1 } else { 0 });
    assert(sx.push(Value::I32(y)).drop_last().drop_last() =~= e);
    assert(run(env, fuel, lb, 12, sx.push(Value::I32(y)), l, mem) == run(env, fuel, lb, 13, e.push(d), l, mem));
    lemma_chunks_equal(mem, pa as int, pb as int);
    assert(e.push(d) =~= seq![d]);
}

/// One pass of the comparison loop at offset `o`.
#[verifier::rlimit(80)]
proof fn lemma_a_equals_b_pass(env: Seq<FunctionView>, fuel: nat, mem: Seq<u8>, a: u32, b: u32, size: u32, o: u32)
    requires
        o <= size,
        a + size <= mem.len(),
        b + size <= mem.len(),
        a + size <= u32::MAX,
        b + size <= u32::MAX,
        o < size ==> o + 4 <= size,
    ensures
        run(env, fuel, a_equals_b_loop(), 0, Seq::empty(), eq_locals(a, b, size, o), mem)
            == if o == size {
                Outcome::Break(1, eq_locals(a, b, size, o), mem)
            } else if !same_bytes(mem, a + o, b + o, 0, 4) {
                Outcome::Return(seq![Value::I32(0)], mem)
            } else {
                Outcome::Break(0, eq_locals(a, b, size, (o + 4) as u32), mem)
            },
{
    let lb = a_equals_b_loop();
    let e = Seq::<Value>::empty();
    let l = eq_locals(a, b, size, o);
    let c = Value::I32(if o == size { 1 } else { 0 });
    assert(run(env, fuel, lb, 0, e, l, mem) == run(env, fuel, lb, 1, e.push(Value::I32(o)), l, mem));
    assert(run(env, fuel, lb, 1, e.push(Value::I32(o)), l, mem) == run(env, fuel, lb, 2, e.push(Value::I32(o)).push(Value::I32(size)), l, mem));
    assert(e.push(Value::I32(o)).push(Value::I32(size)).drop_last().drop_last() =~= e);
    assert(run(env, fuel, lb, 2, e.push(Value::I32(o)).push(Value::I32(size)), l, mem) == run(env, fuel, lb, 3, e.push(c), l, mem));
    if o != size {
        assert(e.push(c).drop_last() =~= e);
        assert(run(env, fuel, lb, 3, e.push(c), l, mem) == run(env, fuel, lb, 4, e, l, mem));
        lemma_a_equals_b_loads(env, fuel, mem, a, b, size, o);
        let d = Value::I32(if same_bytes(mem, a + o, b + o, 0, 4) { 0 } else { 1 });
        if !same_bytes(mem, a + o, b + o, 0, 4) {
            let tb = seq![InstrView::I32Const(0), InstrView::Return];
            assert(run(env, fuel, tb, 0, e, l, mem) == run(env, fuel, tb, 1, e.push(Value::I32(0)), l, mem));
            assert(run(env, fuel, tb, 1, e.push(Value::I32(0)), l, mem) == Outcome::Return(e.push(Value::I32(0)), mem));
            assert(e.push(Value::I32(0)) =~= seq![Value::I32(0)]);
        } else {
            assert(run(env, fuel, seq![], 0, e, l, mem) == Outcome::Done(e, l, mem));
            assert(e.push(d).drop_last() + e =~= e);
            assert(run(env, fuel, lb, 13, e.push(d), l, mem) == run(env, fuel, lb, 14, e, l, mem));
            let n = (o + 4) as u32;
            assert(run(env, fuel, lb, 14, e, l, mem) == run(env, fuel, lb, 15, e.push(Value::I32(o)), l, mem));
            assert(run(env, fuel, lb, 15, e.push(Value::I32(o)), l, mem) == run(env, fuel, lb, 16, e.push(Value::I32(o)).push(Value::I32(4)), l, mem));
            assert(e.push(Value::I32(o)).push(Value::I32(4)).drop_last().drop_last() =~= e);
            assert(run(env, fuel, lb, 16, e.push(Value::I32(o)).push(Value::I32(4)), l, mem) == run(env, fuel, lb, 17, e.push(Value::I32(n)), l, mem));
            assert(e.push(Value::I32(n)).drop_last() =~= e);
            assert(l.update(3, Value::I32(n)) =~= eq_locals(a, b, size, n));
            assert(run(env, fuel, lb, 17, e.push(Value::I32(n)), l, mem) == run(env, fuel, lb, 18, e, eq_locals(a, b, size, n), mem));
        }
    }
}

/// The comparison loop from offset `o` on: it leaves the block when every remaining four bytes
/// are equal, and returns false at the first that differ.
proof fn lemma_a_equals_b_loop(env: Seq<FunctionView>, fuel: nat, mem: Seq<u8>, a: u32, b: u32, size: u32, o: u32)
    requires
        o <= size,
        o % 4 == 0,
        size % 4 == 0,
        a + size <= mem.len(),
        b + size <= mem.len(),
        a + size <= u32::MAX,
        b + size <= u32::MAX,
        fuel * 4 + o >= size,
    ensures
        run(env, fuel, a_equals_b_block(), 4, Seq::empty(), eq_locals(a, b, size, o), mem)
            == if same_bytes(mem, a as int, b as int, o as int, size as int) {
                Outcome::Break(0, eq_locals(a, b, size, size), mem)
            } else {
                Outcome::Return(seq![Value::I32(0)], mem)
            },
    decreases size - o,
{
    lemma_a_equals_b_pass(env, fuel, mem, a, b, size, o);
    if o < size {
        let chunk = same_bytes(mem, a + o, b + o, 0, 4);
        if !chunk {
            let j = choose|j: int| 0 <= j < 4 && #[trigger] mem[(a + o) + j] != mem[(b + o) + j];
            assert(mem[a + (o + j)] != mem[b + (o + j)]);
        } else {
            let n = (o + 4) as u32;
            assert(fuel > 0);
            lemma_a_equals_b_loop(env, (fuel - 1) as nat, mem, a, b, size, n);
            if same_bytes(mem, a as int, b as int, n as int, size as int) {
                assert forall|j: int| o <= j < size implies #[trigger] mem[a + j] == mem[b + j] by {
                    if j < n {
                        assert(mem[(a + o) + (j - o)] == mem[(b + o) + (j - o)]);
                    }
                }
            } else {
                let j = choose|j: int| n <= j < size && #[trigger] mem[a + j] != mem[b + j];
                assert(mem[a + j] != mem[b + j]);
            }
        }
    }
}

/// `heap_type_equality` on the values of `size` bytes at `a` and `b` returns 1 when they are
/// the same address or hold the same bytes, and 0 otherwise, leaving the memory as it is.
#[verifier::rlimit(30)]
pub proof fn law_a_equals_b(env: Seq<FunctionView>, fuel: nat, mem: Seq<u8>, a: u32, b: u32, size: u32)
    requires
        size % 4 == 0,
        a + size <= mem.len(),
        b + size <= mem.len(),
        a + size <= u32::MAX,
        b + size <= u32::MAX,
        fuel * 4 >= size,
    ensures
        invoke(env, fuel, a_equals_b_code(), args3(Value::I32(a), Value::I32(b), Value::I32(size)), mem)
            == Completion::Returned(
                args1(Value::I32(if a == b || same_bytes(mem, a as int, b as int, 0, size as int) { 1 } else { 0 })),
                mem,
            ),
{
    let code = a_equals_b_code();
    let e = Seq::<Value>::empty();
    let l0 = eq_locals(a, b, size, 0);
    assert(args3(Value::I32(a), Value::I32(b), Value::I32(size)) + zeros(code.locals) =~= l0);
    let bb = a_equals_b_block();
    let c = Value::I32(if a == b { 1 } else { 0 });
    assert(run(env, fuel, bb, 0, e, l0, mem) == run(env, fuel, bb, 1, e.push(Value::I32(a)), l0, mem));
    assert(run(env, fuel, bb, 1, e.push(Value::I32(a)), l0, mem) == run(env, fuel, bb, 2, e.push(Value::I32(a)).push(Value::I32(b)), l0, mem));
    assert(e.push(Value::I32(a)).push(Value::I32(b)).drop_last().drop_last() =~= e);
    assert(run(env, fuel, bb, 2, e.push(Value::I32(a)).push(Value::I32(b)), l0, mem) == run(env, fuel, bb, 3, e.push(c), l0, mem));
    let one = seq![Value::I32(1)];
    if a == b {
        assert(run(env, fuel, code.body, 1, e, l0, mem) == run(env, fuel, code.body, 2, e.push(Value::I32(1)), l0, mem));
        assert(e.push(Value::I32(1)) =~= one);
    } else {
        assert(e.push(c).drop_last() =~= e);
        assert(run(env, fuel, bb, 3, e.push(c), l0, mem) == run(env, fuel, bb, 4, e, l0, mem));
        lemma_a_equals_b_loop(env, fuel, mem, a, b, size, 0);
        if same_bytes(mem, a as int, b as int, 0, size as int) {
            let l1 = eq_locals(a, b, size, size);
            assert(e + e =~= e);
            assert(run(env, fuel, code.body, 1, e, l1, mem) == run(env, fuel, code.body, 2, e.push(Value::I32(1)), l1, mem));
            assert(e.push(Value::I32(1)) =~= one);
        } else {
            let z = seq![Value::I32(0)];
            assert(z.subrange(z.len() - 1, z.len() as int) =~= z);
        }
    }
}

/// Builds the function that tells whether two values kept in memory are equal: it takes their
/// addresses and their size in bytes, returns 1 at once for the same address, and otherwise
/// compares them four bytes at a time, returning 0 at the first four that differ and 1 when
/// none do.
#[verifier::rlimit(30)]
pub fn a_equals_b() -> (r: FunctionBody)
    ensures
        r@ == a_equals_b_code(),
        forall|env: Seq<FunctionView>, fuel: nat, mem: Seq<u8>, a: u32, b: u32, size: u32|
            size % 4 == 0 && a + size <= mem.len() && b + size <= mem.len() && a + size <= u32::MAX
                && b + size <= u32::MAX && fuel * 4 >= size
            ==> #[trigger] invoke(env, fuel, r@, args3(Value::I32(a), Value::I32(b), Value::I32(size)), mem)
            == Completion::Returned(
                args1(Value::I32(if a == b || same_bytes(mem, a as int, b as int, 0, size as int) { 1 } else { 0 })),
                mem,
            ),
{
    let mut then_: Vec<Instr> = Vec::new();
    push_instr(&mut then_, Instr::I32Const(0));
    push_instr(&mut then_, Instr::Return);
    assert(instrs_view(then_@) =~= seq![InstrView::I32Const(0), InstrView::Return]);
    assert(instrs_view(Seq::<Instr>::empty()) =~= seq![]);
    let mut lb: Vec<Instr> = Vec::new();
    // Leave once every part was compared
    push_instr(&mut lb, Instr::LocalGet(3));
    push_instr(&mut lb, Instr::LocalGet(2));
    push_instr(&mut lb, Instr::Binop(BinaryOp::I32Eq));
    push_instr(&mut lb, Instr::BrIf(1));
    // Compare the four bytes at the offset, and return false when they differ
    push_instr(&mut lb, Instr::LocalGet(0));
    push_instr(&mut lb, Instr::LocalGet(3));
    push_instr(&mut lb, Instr::Binop(BinaryOp::I32Add));
    push_instr(&mut lb, Instr::Load(ValType::I32, 0));
    push_instr(&mut lb, Instr::LocalGet(1));
    push_instr(&mut lb, Instr::LocalGet(3));
    push_instr(&mut lb, Instr::Binop(BinaryOp::I32Add));
    push_instr(&mut lb, Instr::Load(ValType::I32, 0));
    push_instr(&mut lb, Instr::Binop(BinaryOp::I32Ne));
    push_instr(&mut lb, Instr::IfElse(None, then_, Vec::new()));
    // Go on four bytes further
    push_instr(&mut lb, Instr::LocalGet(3));
    push_instr(&mut lb, Instr::I32Const(4));
    push_instr(&mut lb, Instr::Binop(BinaryOp::I32Add));
    push_instr(&mut lb, Instr::LocalSet(3));
    push_instr(&mut lb, Instr::Br(0));
    proof {
        assert(instrs_view(Seq::<Instr>::empty()) =~= seq![]);
    }
    assert(instrs_view(lb@) =~= a_equals_b_loop());
    let mut block: Vec<Instr> = Vec::new();
    // The same address holds the same value
    push_instr(&mut block, Instr::LocalGet(0));
    push_instr(&mut block, Instr::LocalGet(1));
    push_instr(&mut block, Instr::Binop(BinaryOp::I32Eq));
    push_instr(&mut block, Instr::BrIf(0));
    push_instr(&mut block, Instr::Loop(lb));
    assert(instrs_view(block@) =~= a_equals_b_block());
    let mut body: Vec<Instr> = Vec::new();
    push_instr(&mut body, Instr::Block(block));
    // Every part was equal
    push_instr(&mut body, Instr::I32Const(1));
    let r = FunctionBody {
        name: String::from_str(RuntimeFunction::HeapTypeEquality.name()),
        params: vec![ValType::I32, ValType::I32, ValType::I32],
        results: vec![ValType::I32],
        locals: vec![ValType::I32],
        body,
    };
    proof {
        let code = a_equals_b_code();
        assert(r@.params =~= code.params);
        assert(r@.results =~= code.results);
        assert(r@.locals =~= code.locals);
        assert(r@.body =~= code.body);
        assert forall|env: Seq<FunctionView>, fuel: nat, mem: Seq<u8>, a: u32, b: u32, size: u32|
            size % 4 == 0 && a + size <= mem.len() && b + size <= mem.len() && a + size <= u32::MAX
                && b + size <= u32::MAX && fuel * 4 >= size
            implies #[trigger] invoke(env, fuel, r@, args3(Value::I32(a), Value::I32(b), Value::I32(size)), mem)
            == Completion::Returned(
                args1(Value::I32(if a == b || same_bytes(mem, a as int, b as int, 0, size as int) { 1 } else { 0 })),
                mem,
            ) by {
            law_a_equals_b(env, fuel, mem, a, b, size);
        }
    }
    r
}

/// The locals of the vector comparison: the addresses of the two vectors' elements, the
/// length, the size of the values the elements point to, the result so far, the offset reached
/// and the size of the elements.
pub open spec fn vec_eq_locals(p1: u32, p2: u32, length: u32, ths: u32, res: u32, o: u32, size: u32) -> Seq<Value> {
    seq![
        Value::I32(p1), Value::I32(p2), Value::I32(length), Value::I32(ths), Value::I32(res), Value::I32(o),
        Value::I32(size),
    ]
}

/// When the two values are equal: go on with the next pair of elements.
pub open spec fn vec_eq_next() -> Seq<InstrView> {
    seq![
        InstrView::LocalGet(5),
        InstrView::I32Const(4),
        InstrView::Binop(BinaryOp::I32Add),
        InstrView::LocalSet(5),
        InstrView::Br(1),
    ]
}

/// When the two values differ: set the result to false and leave the block.
pub open spec fn vec_eq_stop() -> Seq<InstrView> {
    seq![InstrView::I32Const(0), InstrView::LocalSet(4), InstrView::Br(2)]
}

/// One pass of the vector comparison, at the offset in local 5: leave the block once the
/// offset reaches the size of the elements, and otherwise compare the two values that the
/// elements at the offset point to with `heap_type_equality`, the first callee.
pub open spec fn vec_eq_loop() -> Seq<InstrView> {
    seq![
        InstrView::LocalGet(6),
        InstrView::LocalGet(5),
        InstrView::Binop(BinaryOp::I32Eq),
        InstrView::BrIf(1),
        InstrView::LocalGet(0),
        InstrView::LocalGet(5),
        InstrView::Binop(BinaryOp::I32Add),
        InstrView::Load(ValType::I32, 0),
        InstrView::LocalGet(1),
        InstrView::LocalGet(5),
        InstrView::Binop(BinaryOp::I32Add),
        InstrView::Load(ValType::I32, 0),
        InstrView::LocalGet(3),
        InstrView::Call(0),
        InstrView::IfElse(None, vec_eq_next(), vec_eq_stop()),
    ]
}

/// The instructions of the function `vec_equality_heap_type`.
pub open spec fn vec_equality_heap_type_code() -> FunctionView {
    FunctionView {
        name: runtime_function_name(RuntimeFunction::VecEqualityHeapType),
        params: seq![ValType::I32, ValType::I32, ValType::I32, ValType::I32],
        results: seq![ValType::I32],
        locals: seq![ValType::I32, ValType::I32, ValType::I32],
        body: seq![
            InstrView::I32Const(1),
            InstrView::LocalSet(4),
            InstrView::I32Const(0),
            InstrView::LocalSet(5),
            InstrView::LocalGet(0),
            InstrView::I32Const(8),
            InstrView::Binop(BinaryOp::I32Add),
            InstrView::LocalSet(0),
            InstrView::LocalGet(1),
            InstrView::I32Const(8),
            InstrView::Binop(BinaryOp::I32Add),
            InstrView::LocalSet(1),
            InstrView::LocalGet(2),
            InstrView::I32Const(4),
            InstrView::Binop(BinaryOp::I32Mul),
            InstrView::LocalSet(6),
            InstrView::Block(seq![InstrView::Loop(vec_eq_loop())]),
            InstrView::LocalGet(4),
        ],
    }
}

/// The value that element `k` of the elements at `p` points to.
pub open spec fn elem_ptr(mem: Seq<u8>, p: u32, k: int) -> u32 {
    load_u32(mem, p + 4 * k)
}

/// Whether the values that elements `k` of the elements at `p1` and at `p2` point to, of `ths`
/// bytes, are equal, as `heap_type_equality` tells.
pub open spec fn elems_equal_at(mem: Seq<u8>, p1: u32, p2: u32, ths: u32, k: int) -> bool {
    let a = elem_ptr(mem, p1, k);
    let b = elem_ptr(mem, p2, k);
    a == b || same_bytes(mem, a as int, b as int, 0, ths as int)
}

/// Whether the values that the elements from `from` to `to` point to are pairwise equal.
pub open spec fn elems_equal(mem: Seq<u8>, p1: u32, p2: u32, ths: u32, from: int, to: int) -> bool {
    forall|k: int| from <= k < to ==> #[trigger] elems_equal_at(mem, p1, p2, ths, k)
}

/// Whether the elements from `p1` and `p2` on, `length` of each, and the values of `ths` bytes
/// they point to lie in the memory below 2^32.
pub open spec fn elems_in_memory(mem: Seq<u8>, p1: u32, p2: u32, length: u32, ths: u32) -> bool {
    &&& p1 + 4 * length <= mem.len()
    &&& p2 + 4 * length <= mem.len()
    &&& p1 + 4 * length <= u32::MAX
    &&& p2 + 4 * length <= u32::MAX
    &&& ths % 4 == 0
    &&& forall|k: int| 0 <= k < length ==> {
        &&& #[trigger] elem_ptr(mem, p1, k) + ths <= mem.len()
        &&& elem_ptr(mem, p1, k) + ths <= u32::MAX
        &&& elem_ptr(mem, p2, k) + ths <= mem.len()
        &&& elem_ptr(mem, p2, k) + ths <= u32::MAX
    }
}

/// The load of the pointer of the element at offset `o` of the vector whose elements are at the
/// address in local `lp`, at position `j` of a pass of the vector comparison.
#[verifier::rlimit(40)]
proof fn lemma_vec_eq_load_pointer(env: Seq<FunctionView>, fuel: nat, mem: Seq<u8>, j: int, lp: u32, s: Seq<Value>, l: Seq<Value>, p: u32, o: u32)
    requires
        j == 4 || j == 8,
        lp == (j - 4) / 4,
        l.len() == 7,
        l[lp as int] == Value::I32(p),
        l[5] == Value::I32(o),
        p + o + 4 <= mem.len(),
        p + o <= u32::MAX,
    ensures
        run(env, fuel, vec_eq_loop(), j, s, l, mem) == run(env, fuel, vec_eq_loop(), j + 4, s.push(Value::I32(load_u32(mem, p + o))), l, mem),
{
    let lb = vec_eq_loop();
    let a = (p + o) as u32;
    lemma_le_value_fits(mem.subrange(a as int, a + 4));
    assert(run(env, fuel, lb, j, s, l, mem) == run(env, fuel, lb, j + 1, s.push(Value::I32(p)), l, mem));
    assert(run(env, fuel, lb, j + 1, s.push(Value::I32(p)), l, mem) == run(env, fuel, lb, j + 2, s.push(Value::I32(p)).push(Value::I32(o)), l, mem));
    assert(s.push(Value::I32(p)).push(Value::I32(o)).drop_last().drop_last() =~= s);
    assert(run(env, fuel, lb, j + 2, s.push(Value::I32(p)).push(Value::I32(o)), l, mem) == run(env, fuel, lb, j + 3, s.push(Value::I32(a)), l, mem));
    assert(s.push(Value::I32(a)).drop_last() =~= s);
}

/// The loads of the pointers of the elements at offset `o` of both vectors, in a pass of the
/// vector comparison.
#[verifier::rlimit(60)]
proof fn lemma_vec_eq_load_pointers(env: Seq<FunctionView>, fuel: nat, mem: Seq<u8>, p1: u32, p2: u32, length: u32, ths: u32, o: u32)
    requires
        o + 4 <= 4 * length,
        o % 4 == 0,
        elems_in_memory(mem, p1, p2, length, ths),
    ensures
        run(env, fuel, vec_eq_loop(), 4, Seq::empty(), vec_eq_locals(p1, p2, length, ths, 1, o, (4 * length) as u32), mem)
            == run(env, fuel, vec_eq_loop(), 12, seq![
                Value::I32(elem_ptr(mem, p1, (o / 4) as int)),
                Value::I32(elem_ptr(mem, p2, (o / 4) as int)),
            ], vec_eq_locals(p1, p2, length, ths, 1, o, (4 * length) as u32), mem),
{
    let e = Seq::<Value>::empty();
    let l = vec_eq_locals(p1, p2, length, ths, 1, o, (4 * length) as u32);
    let k = (o / 4) as int;
    assert(o == 4 * k);
    assert(0 <= k < length);
    let x = elem_ptr(mem, p1, k);
    let y = elem_ptr(mem, p2, k);
    lemma_vec_eq_load_pointer(env, fuel, mem, 4, 0, e, l, p1, o);
    lemma_vec_eq_load_pointer(env, fuel, mem, 8, 1, e.push(Value::I32(x)), l, p2, o);
    assert(e.push(Value::I32(x)).push(Value::I32(y)) =~= seq![Value::I32(x), Value::I32(y)]);
}

/// The comparison of the values that the elements at offset `o` point to, up to the call of
/// `heap_type_equality`: it leaves whether they are equal.
#[verifier::rlimit(60)]
proof fn lemma_vec_eq_compare(env: Seq<FunctionView>, fuel: nat, mem: Seq<u8>, p1: u32, p2: u32, length: u32, ths: u32, o: u32)
    requires
        env.len() >= 1,
        env[0] == a_equals_b_code(),
        o + 4 <= 4 * length,
        o % 4 == 0,
        elems_in_memory(mem, p1, p2, length, ths),
        fuel * 4 >= ths,
    ensures
        run(env, fuel, vec_eq_loop(), 4, Seq::empty(), vec_eq_locals(p1, p2, length, ths, 1, o, (4 * length) as u32), mem)
            == run(env, fuel, vec_eq_loop(), 14, seq![Value::I32(if elems_equal_at(mem, p1, p2, ths, (o / 4) as int) { 1 } else { 0 })],
                vec_eq_locals(p1, p2, length, ths, 1, o, (4 * length) as u32), mem),
{
    let lb = vec_eq_loop();
    let e = Seq::<Value>::empty();
    let size = (4 * length) as u32;
    let l = vec_eq_locals(p1, p2, length, ths, 1, o, size);
    let k = (o / 4) as int;
    assert(o == 4 * k);
    assert(0 <= k < length);
    let x = elem_ptr(mem, p1, k);
    let y = elem_ptr(mem, p2, k);
    assert(x + ths <= mem.len() && y + ths <= mem.len());
    lemma_vec_eq_load_pointers(env, fuel, mem, p1, p2, length, ths, o);
    let sy = seq![Value::I32(x), Value::I32(y)];
    assert(run(env, fuel, lb, 12, sy, l, mem) == run(env, fuel, lb, 13, sy.push(Value::I32(ths)), l, mem));
    let r = Value::I32(if x == y || same_bytes(mem, x as int, y as int, 0, ths as int) { 1 } else { 0 });
    law_a_equals_b(env.take(0), fuel, mem, x, y, ths);
    assert(e + args3(Value::I32(x), Value::I32(y), Value::I32(ths)) =~= sy.push(Value::I32(ths)));
    assert(e + args1(r) =~= seq![r]);
    lemma_call_returning(env, fuel, mem, lb, 13, e, l, 0, args3(Value::I32(x), Value::I32(y), Value::I32(ths)), args1(r), mem);
}

/// The branch of a pass where the two values are equal: on to the next pair.
#[verifier::rlimit(40)]
proof fn lemma_vec_eq_next(env: Seq<FunctionView>, fuel: nat, mem: Seq<u8>, p1: u32, p2: u32, length: u32, ths: u32, o: u32)
    requires
        o + 4 <= 4 * length,
        4 * length <= u32::MAX,
    ensures
        run(env, fuel, vec_eq_next(), 0, Seq::empty(), vec_eq_locals(p1, p2, length, ths, 1, o, (4 * length) as u32), mem)
            == Outcome::Break(1, vec_eq_locals(p1, p2, length, ths, 1, (o + 4) as u32, (4 * length) as u32), mem),
{
    let e = Seq::<Value>::empty();
    let size = (4 * length) as u32;
    let l = vec_eq_locals(p1, p2, length, ths, 1, o, size);
    let nb = vec_eq_next();
    let n = (o + 4) as u32;
    assert(run(env, fuel, nb, 0, e, l, mem) == run(env, fuel, nb, 1, e.push(Value::I32(o)), l, mem));
    assert(run(env, fuel, nb, 1, e.push(Value::I32(o)), l, mem) == run(env, fuel, nb, 2, e.push(Value::I32(o)).push(Value::I32(4)), l, mem));
    assert(e.push(Value::I32(o)).push(Value::I32(4)).drop_last().drop_last() =~= e);
    assert(run(env, fuel, nb, 2, e.push(Value::I32(o)).push(Value::I32(4)), l, mem) == run(env, fuel, nb, 3, e.push(Value::I32(n)), l, mem));
    assert(e.push(Value::I32(n)).drop_last() =~= e);
    assert(l.update(5, Value::I32(n)) =~= vec_eq_locals(p1, p2, length, ths, 1, n, size));
    assert(run(env, fuel, nb, 3, e.push(Value::I32(n)), l, mem) == run(env, fuel, nb, 4, e, vec_eq_locals(p1, p2, length, ths, 1, n, size), mem));
}

/// The branch of a pass where the two values differ: the result is false and the block is left.
#[verifier::rlimit(40)]
proof fn lemma_vec_eq_stop(env: Seq<FunctionView>, fuel: nat, mem: Seq<u8>, p1: u32, p2: u32, length: u32, ths: u32, o: u32)
    ensures
        run(env, fuel, vec_eq_stop(), 0, Seq::empty(), vec_eq_locals(p1, p2, length, ths, 1, o, (4 * length) as u32), mem)
            == Outcome::Break(2, vec_eq_locals(p1, p2, length, ths, 0, o, (4 * length) as u32), mem),
{
    let e = Seq::<Value>::empty();
    let size = (4 * length) as u32;
    let l = vec_eq_locals(p1, p2, length, ths, 1, o, size);
    let sb = vec_eq_stop();
    assert(run(env, fuel, sb, 0, e, l, mem) == run(env, fuel, sb, 1, e.push(Value::I32(0)), l, mem));
    assert(e.push(Value::I32(0)).drop_last() =~= e);
    assert(l.update(4, Value::I32(0)) =~= vec_eq_locals(p1, p2, length, ths, 0, o, size));
    assert(run(env, fuel, sb, 1, e.push(Value::I32(0)), l, mem) == run(env, fuel, sb, 2, e, vec_eq_locals(p1, p2, length, ths, 0, o, size), mem));
}

/// One pass of the vector comparison at offset `o`: leave the block at the end, leave it with
/// the result false at a pair of values that differ, and otherwise go on with the next pair.
#[verifier::rlimit(100)]
proof fn lemma_vec_eq_pass(env: Seq<FunctionView>, fuel: nat, mem: Seq<u8>, p1: u32, p2: u32, length: u32, ths: u32, o: u32)
    requires
        env.len() >= 1,
        env[0] == a_equals_b_code(),
        o <= 4 * length,
        o % 4 == 0,
        elems_in_memory(mem, p1, p2, length, ths),
        fuel * 4 >= ths,
    ensures
        ({
            let size = (4 * length) as u32;
            run(env, fuel, vec_eq_loop(), 0, Seq::empty(), vec_eq_locals(p1, p2, length, ths, 1, o, size), mem)
                == if o == size {
                    Outcome::Break(1, vec_eq_locals(p1, p2, length, ths, 1, o, size), mem)
                } else if !elems_equal_at(mem, p1, p2, ths, (o / 4) as int) {
                    Outcome::Break(1, vec_eq_locals(p1, p2, length, ths, 0, o, size), mem)
                } else {
                    Outcome::Break(0, vec_eq_locals(p1, p2, length, ths, 1, (o + 4) as u32, size), mem)
                }
        }),
{
    let lb = vec_eq_loop();
    let e = Seq::<Value>::empty();
    let size = (4 * length) as u32;
    let l = vec_eq_locals(p1, p2, length, ths, 1, o, size);
    let c = Value::I32(if size == o { 1 } else { 0 });
    assert(run(env, fuel, lb, 0, e, l, mem) == run(env, fuel, lb, 1, e.push(Value::I32(size)), l, mem));
    assert(run(env, fuel, lb, 1, e.push(Value::I32(size)), l, mem) == run(env, fuel, lb, 2, e.push(Value::I32(size)).push(Value::I32(o)), l, mem));
    assert(e.push(Value::I32(size)).push(Value::I32(o)).drop_last().drop_last() =~= e);
    assert(run(env, fuel, lb, 2, e.push(Value::I32(size)).push(Value::I32(o)), l, mem) == run(env, fuel, lb, 3, e.push(c), l, mem));
    if o != size {
        assert(e.push(c).drop_last() =~= e);
        assert(run(env, fuel, lb, 3, e.push(c), l, mem) == run(env, fuel, lb, 4, e, l, mem));
        lemma_vec_eq_compare(env, fuel, mem, p1, p2, length, ths, o);
        let eq = elems_equal_at(mem, p1, p2, ths, (o / 4) as int);
        let r = Value::I32(if eq { 1 } else { 0 });
        assert(seq![r] =~= e.push(r));
        assert(e.push(r).drop_last() =~= e);
        if eq {
            lemma_vec_eq_next(env, fuel, mem, p1, p2, length, ths, o);
        } else {
            lemma_vec_eq_stop(env, fuel, mem, p1, p2, length, ths, o);
        }
    }
}

/// The vector comparison from offset `o` on: the block is left with the result true when every
/// remaining pair of values is equal, and false otherwise.
#[verifier::rlimit(60)]
proof fn lemma_vec_eq_loop(env: Seq<FunctionView>, fuel: nat, mem: Seq<u8>, p1: u32, p2: u32, length: u32, ths: u32, o: u32)
    requires
        env.len() >= 1,
        env[0] == a_equals_b_code(),
        o <= 4 * length,
        o % 4 == 0,
        elems_in_memory(mem, p1, p2, length, ths),
        fuel * 4 + o >= 4 * length + ths,
    ensures
        run(env, fuel, seq![InstrView::Loop(vec_eq_loop())], 0, Seq::empty(), vec_eq_locals(p1, p2, length, ths, 1, o, (4 * length) as u32), mem)
            matches Outcome::Break(d, l2, m) && d == 0 && m == mem && l2.len() == 7
            && l2[4] == Value::I32(if elems_equal(mem, p1, p2, ths, (o / 4) as int, length as int) { 1 } else { 0 }),
    decreases 4 * length - o,
{
    let size = (4 * length) as u32;
    let lp = seq![InstrView::Loop(vec_eq_loop())];
    lemma_vec_eq_pass(env, fuel, mem, p1, p2, length, ths, o);
    let k = (o / 4) as int;
    if o < size {
        if elems_equal_at(mem, p1, p2, ths, k) {
            let n = (o + 4) as u32;
            assert(fuel > 0);
            lemma_vec_eq_loop(env, (fuel - 1) as nat, mem, p1, p2, length, ths, n);
            assert((n / 4) as int == k + 1);
            if elems_equal(mem, p1, p2, ths, k + 1, length as int) {
                assert forall|j: int| k <= j < length implies #[trigger] elems_equal_at(mem, p1, p2, ths, j) by {
                    if j > k {
                        assert(elems_equal_at(mem, p1, p2, ths, j));
                    }
                }
            } else {
                let j = choose|j: int| k + 1 <= j < length && !#[trigger] elems_equal_at(mem, p1, p2, ths, j);
                assert(!elems_equal_at(mem, p1, p2, ths, j));
            }
        } else {
            assert(!elems_equal(mem, p1, p2, ths, k, length as int));
        }
    }
}

/// The first part of the start of `vec_equality_heap_type`: the result starts true, the offset
/// at zero, and the first address moves past its vector's header.
#[verifier::rlimit(60)]
proof fn lemma_vec_eq_setup_first(env: Seq<FunctionView>, fuel: nat, mem: Seq<u8>, v1: u32, v2: u32, length: u32, ths: u32)
    requires
        v1 + 8 <= u32::MAX,
    ensures
        run(env, fuel, vec_equality_heap_type_code().body, 0, Seq::empty(),
            seq![Value::I32(v1), Value::I32(v2), Value::I32(length), Value::I32(ths), Value::I32(0), Value::I32(0), Value::I32(0)], mem)
            == run(env, fuel, vec_equality_heap_type_code().body, 8, Seq::empty(),
            seq![Value::I32((v1 + 8) as u32), Value::I32(v2), Value::I32(length), Value::I32(ths), Value::I32(1), Value::I32(0), Value::I32(0)], mem),
{
    let code = vec_equality_heap_type_code();
    let b = code.body;
    let e = Seq::<Value>::empty();
    let p1 = (v1 + 8) as u32;
    let i32v = |x: u32| Value::I32(x);
    let l0 = seq![i32v(v1), i32v(v2), i32v(length), i32v(ths), i32v(0), i32v(0), i32v(0)];
    let la = l0.update(4, i32v(1));
    assert(run(env, fuel, b, 0, e, l0, mem) == run(env, fuel, b, 1, e.push(i32v(1)), l0, mem));
    assert(e.push(i32v(1)).drop_last() =~= e);
    assert(run(env, fuel, b, 1, e.push(i32v(1)), l0, mem) == run(env, fuel, b, 2, e, la, mem));
    assert(run(env, fuel, b, 2, e, la, mem) == run(env, fuel, b, 3, e.push(i32v(0)), la, mem));
    assert(e.push(i32v(0)).drop_last() =~= e);
    let lb = la.update(5, i32v(0));
    assert(run(env, fuel, b, 3, e.push(i32v(0)), la, mem) == run(env, fuel, b, 4, e, lb, mem));
    // Skip the first vector's header
    assert(run(env, fuel, b, 4, e, lb, mem) == run(env, fuel, b, 5, e.push(i32v(v1)), lb, mem));
    assert(run(env, fuel, b, 5, e.push(i32v(v1)), lb, mem) == run(env, fuel, b, 6, e.push(i32v(v1)).push(i32v(8)), lb, mem));
    assert(e.push(i32v(v1)).push(i32v(8)).drop_last().drop_last() =~= e);
    assert(run(env, fuel, b, 6, e.push(i32v(v1)).push(i32v(8)), lb, mem) == run(env, fuel, b, 7, e.push(i32v(p1)), lb, mem));
    assert(e.push(i32v(p1)).drop_last() =~= e);
    let lc = lb.update(0, i32v(p1));
    assert(lc =~= seq![i32v(p1), i32v(v2), i32v(length), i32v(ths), i32v(1), i32v(0), i32v(0)]);
}

/// The second part of the start of `vec_equality_heap_type`: the second address moves past its
/// vector's header, and the size of the elements is computed.
#[verifier::rlimit(60)]
proof fn lemma_vec_eq_setup_second(env: Seq<FunctionView>, fuel: nat, mem: Seq<u8>, p1: u32, v2: u32, length: u32, ths: u32)
    requires
        v2 + 8 <= u32::MAX,
        4 * length <= u32::MAX,
    ensures
        run(env, fuel, vec_equality_heap_type_code().body, 8, Seq::empty(),
            seq![Value::I32(p1), Value::I32(v2), Value::I32(length), Value::I32(ths), Value::I32(1), Value::I32(0), Value::I32(0)], mem)
            == run(env, fuel, vec_equality_heap_type_code().body, 16, Seq::empty(),
            vec_eq_locals(p1, (v2 + 8) as u32, length, ths, 1, 0, (4 * length) as u32), mem),
{
    let code = vec_equality_heap_type_code();
    let b = code.body;
    let e = Seq::<Value>::empty();
    let p2 = (v2 + 8) as u32;
    let size = (4 * length) as u32;
    let i32v = |x: u32| Value::I32(x);
    let lc = seq![i32v(p1), i32v(v2), i32v(length), i32v(ths), i32v(1), i32v(0), i32v(0)];
    // Skip the second vector's header
    assert(run(env, fuel, b, 8, e, lc, mem) == run(env, fuel, b, 9, e.push(i32v(v2)), lc, mem));
    assert(run(env, fuel, b, 9, e.push(i32v(v2)), lc, mem) == run(env, fuel, b, 10, e.push(i32v(v2)).push(i32v(8)), lc, mem));
    assert(e.push(i32v(v2)).push(i32v(8)).drop_last().drop_last() =~= e);
    assert(run(env, fuel, b, 10, e.push(i32v(v2)).push(i32v(8)), lc, mem) == run(env, fuel, b, 11, e.push(i32v(p2)), lc, mem));
    assert(e.push(i32v(p2)).drop_last() =~= e);
    let ld = lc.update(1, i32v(p2));
    assert(run(env, fuel, b, 11, e.push(i32v(p2)), lc, mem) == run(env, fuel, b, 12, e, ld, mem));
    // The size of the elements
    assert(run(env, fuel, b, 12, e, ld, mem) == run(env, fuel, b, 13, e.push(i32v(length)), ld, mem));
    assert(run(env, fuel, b, 13, e.push(i32v(length)), ld, mem) == run(env, fuel, b, 14, e.push(i32v(length)).push(i32v(4)), ld, mem));
    assert(e.push(i32v(length)).push(i32v(4)).drop_last().drop_last() =~= e);
    assert(wrap32(length * 4) == size);
    assert(run(env, fuel, b, 14, e.push(i32v(length)).push(i32v(4)), ld, mem) == run(env, fuel, b, 15, e.push(i32v(size)), ld, mem));
    assert(e.push(i32v(size)).drop_last() =~= e);
    let le = ld.update(6, i32v(size));
    assert(le =~= vec_eq_locals(p1, p2, length, ths, 1, 0, size));
    assert(run(env, fuel, b, 15, e.push(i32v(size)), ld, mem) == run(env, fuel, b, 16, e, le, mem));
}

/// The start of `vec_equality_heap_type`: the result starts true, the offset at zero, the
/// addresses past the vectors' headers, and the size of the elements is computed.
proof fn lemma_vec_eq_setup(env: Seq<FunctionView>, fuel: nat, mem: Seq<u8>, v1: u32, v2: u32, length: u32, ths: u32)
    requires
        v1 + 8 <= u32::MAX,
        v2 + 8 <= u32::MAX,
        4 * length <= u32::MAX,
    ensures
        run(env, fuel, vec_equality_heap_type_code().body, 0, Seq::empty(),
            seq![Value::I32(v1), Value::I32(v2), Value::I32(length), Value::I32(ths), Value::I32(0), Value::I32(0), Value::I32(0)], mem)
            == run(env, fuel, vec_equality_heap_type_code().body, 16, Seq::empty(),
            vec_eq_locals((v1 + 8) as u32, (v2 + 8) as u32, length, ths, 1, 0, (4 * length) as u32), mem),
{
    lemma_vec_eq_setup_first(env, fuel, mem, v1, v2, length, ths);
    lemma_vec_eq_setup_second(env, fuel, mem, (v1 + 8) as u32, v2, length, ths);
}

/// `vec_equality_heap_type` on the vectors at `v1` and `v2`, of `length` elements that point to
/// values of `ths` bytes, with `heap_type_equality` as its callee: it returns 1 when each pair
/// of values is equal, as `heap_type_equality` tells, and 0 otherwise, leaving the memory as it
/// is. The elements follow each vector's length and capacity.
#[verifier::rlimit(100)]
pub proof fn law_vec_equality_heap_type(env: Seq<FunctionView>, fuel: nat, mem: Seq<u8>, v1: u32, v2: u32, length: u32, ths: u32)
    requires
        env.len() >= 1,
        env[0] == a_equals_b_code(),
        v1 + 8 <= u32::MAX,
        v2 + 8 <= u32::MAX,
        elems_in_memory(mem, (v1 + 8) as u32, (v2 + 8) as u32, length, ths),
        fuel * 4 >= 4 * length + ths,
    ensures
        invoke(env, fuel, vec_equality_heap_type_code(), args4(Value::I32(v1), Value::I32(v2), Value::I32(length), Value::I32(ths)), mem)
            == Completion::Returned(
                args1(Value::I32(if elems_equal(mem, (v1 + 8) as u32, (v2 + 8) as u32, ths, 0, length as int) { 1 } else { 0 })),
                mem,
            ),
{
    let code = vec_equality_heap_type_code();
    let b = code.body;
    let e = Seq::<Value>::empty();
    let p1 = (v1 + 8) as u32;
    let p2 = (v2 + 8) as u32;
    let size = (4 * length) as u32;
    let i32v = |x: u32| Value::I32(x);
    let l0 = seq![i32v(v1), i32v(v2), i32v(length), i32v(ths), i32v(0), i32v(0), i32v(0)];
    assert(args4(i32v(v1), i32v(v2), i32v(length), i32v(ths)) + zeros(code.locals) =~= l0);
    lemma_vec_eq_setup(env, fuel, mem, v1, v2, length, ths);
    let le = vec_eq_locals(p1, p2, length, ths, 1, 0, size);
    lemma_vec_eq_loop(env, fuel, mem, p1, p2, length, ths, 0);
    let o = run(env, fuel, seq![InstrView::Loop(vec_eq_loop())], 0, e, le, mem);
    match o {
        Outcome::Break(_, l2, m) => {
            assert(run(env, fuel, b, 17, e, l2, m) == run(env, fuel, b, 18, e.push(l2[4]), l2, m));
            assert(e.push(l2[4]) =~= args1(l2[4]));
        },
        _ => {},
    }
}

/// Appends the instructions that push the address of the first element of the vector at the
/// address in local `vec`, past its length and capacity.
pub fn skip_vec_header(instrs: &mut Vec<Instr>, vec: u32)
    ensures
        instrs_view(final(instrs)@) == instrs_view(old(instrs)@)
            + seq![InstrView::LocalGet(vec), InstrView::I32Const(8), InstrView::Binop(BinaryOp::I32Add)],
{
    let ghost before = instrs_view(instrs@);
    push_instr(instrs, Instr::LocalGet(vec));
    push_instr(instrs, Instr::I32Const(8));
    push_instr(instrs, Instr::Binop(BinaryOp::I32Add));
    assert(instrs_view(instrs@) =~= before + seq![InstrView::LocalGet(vec), InstrView::I32Const(8), InstrView::Binop(BinaryOp::I32Add)]);
}

/// Builds the function that tells whether two vectors of values kept in memory are equal: it
/// takes the two vectors' addresses, their length and the size of the values their elements
/// point to, and compares each pair of values with `heap_type_equality`, its callee, stopping
/// at the first pair that differs: it returns 1 when each pair of values is equal and 0
/// otherwise, and leaves the memory as it is (see `law_vec_equality_heap_type`).
#[verifier::rlimit(30)]
pub fn vec_equality_heap_type() -> (r: FunctionBody)
    ensures
        r@ == vec_equality_heap_type_code(),
        forall|env: Seq<FunctionView>, fuel: nat, mem: Seq<u8>, v1: u32, v2: u32, length: u32, ths: u32|
            env.len() >= 1 && env[0] == a_equals_b_code() && v1 + 8 <= u32::MAX && v2 + 8 <= u32::MAX
                && elems_in_memory(mem, (v1 + 8) as u32, (v2 + 8) as u32, length, ths) && fuel * 4 >= 4 * length + ths
            ==> #[trigger] invoke(env, fuel, r@, args4(Value::I32(v1), Value::I32(v2), Value::I32(length), Value::I32(ths)), mem)
            == Completion::Returned(
                args1(Value::I32(if elems_equal(mem, (v1 + 8) as u32, (v2 + 8) as u32, ths, 0, length as int) { 1 } else { 0 })),
                mem,
            ),
{
    let mut next: Vec<Instr> = Vec::new();
    push_instr(&mut next, Instr::LocalGet(5));
    push_instr(&mut next, Instr::I32Const(4));
    push_instr(&mut next, Instr::Binop(BinaryOp::I32Add));
    push_instr(&mut next, Instr::LocalSet(5));
    push_instr(&mut next, Instr::Br(1));
    assert(instrs_view(next@) =~= vec_eq_next());
    let mut stop: Vec<Instr> = Vec::new();
    push_instr(&mut stop, Instr::I32Const(0));
    push_instr(&mut stop, Instr::LocalSet(4));
    push_instr(&mut stop, Instr::Br(2));
    assert(instrs_view(stop@) =~= vec_eq_stop());
    let mut lb: Vec<Instr> = Vec::new();
    // At the end, leave with the result true
    push_instr(&mut lb, Instr::LocalGet(6));
    push_instr(&mut lb, Instr::LocalGet(5));
    push_instr(&mut lb, Instr::Binop(BinaryOp::I32Eq));
    push_instr(&mut lb, Instr::BrIf(1));
    // Load both pointers
    push_instr(&mut lb, Instr::LocalGet(0));
    push_instr(&mut lb, Instr::LocalGet(5));
    push_instr(&mut lb, Instr::Binop(BinaryOp::I32Add));
    push_instr(&mut lb, Instr::Load(ValType::I32, 0));
    push_instr(&mut lb, Instr::LocalGet(1));
    push_instr(&mut lb, Instr::LocalGet(5));
    push_instr(&mut lb, Instr::Binop(BinaryOp::I32Add));
    push_instr(&mut lb, Instr::Load(ValType::I32, 0));
    // Compare what they point to: go on when equal, else leave with the result false
    push_instr(&mut lb, Instr::LocalGet(3));
    push_instr(&mut lb, Instr::Call(0));
    push_instr(&mut lb, Instr::IfElse(None, next, stop));
    assert(instrs_view(lb@) =~= vec_eq_loop());
    let mut block: Vec<Instr> = Vec::new();
    push_instr(&mut block, Instr::Loop(lb));
    assert(instrs_view(block@) =~= seq![InstrView::Loop(vec_eq_loop())]);
    let mut body: Vec<Instr> = Vec::new();
    // The result starts true and the offset at zero
    push_instr(&mut body, Instr::I32Const(1));
    push_instr(&mut body, Instr::LocalSet(4));
    push_instr(&mut body, Instr::I32Const(0));
    push_instr(&mut body, Instr::LocalSet(5));
    // Skip the length and capacity of the vectors
    skip_vec_header(&mut body, 0);
    push_instr(&mut body, Instr::LocalSet(0));
    skip_vec_header(&mut body, 1);
    push_instr(&mut body, Instr::LocalSet(1));
    // The size of the elements: the length times the size of a pointer
    push_instr(&mut body, Instr::LocalGet(2));
    push_instr(&mut body, Instr::I32Const(4));
    push_instr(&mut body, Instr::Binop(BinaryOp::I32Mul));
    push_instr(&mut body, Instr::LocalSet(6));
    push_instr(&mut body, Instr::Block(block));
    push_instr(&mut body, Instr::LocalGet(4));
    let r = FunctionBody {
        name: String::from_str(RuntimeFunction::VecEqualityHeapType.name()),
        params: vec![ValType::I32, ValType::I32, ValType::I32, ValType::I32],
        results: vec![ValType::I32],
        locals: vec![ValType::I32, ValType::I32, ValType::I32],
        body,
    };
    proof {
        let code = vec_equality_heap_type_code();
        assert(r@.params =~= code.params);
        assert(r@.results =~= code.results);
        assert(r@.locals =~= code.locals);
        assert(r@.body =~= code.body);
        assert(r@ == code);
        assert forall|env: Seq<FunctionView>, fuel: nat, mem: Seq<u8>, v1: u32, v2: u32, length: u32, ths: u32|
            env.len() >= 1 && env[0] == a_equals_b_code() && v1 + 8 <= u32::MAX && v2 + 8 <= u32::MAX
                && elems_in_memory(mem, (v1 + 8) as u32, (v2 + 8) as u32, length, ths) && fuel * 4 >= 4 * length + ths
            implies #[trigger] invoke(env, fuel, r@, args4(Value::I32(v1), Value::I32(v2), Value::I32(length), Value::I32(ths)), mem)
            == Completion::Returned(
                args1(Value::I32(if elems_equal(mem, (v1 + 8) as u32, (v2 + 8) as u32, ths, 0, length as int) { 1 } else { 0 })),
                mem,
            ) by {
            law_vec_equality_heap_type(env, fuel, mem, v1, v2, length, ths);
        }
    }
    r
}

} // verus!
