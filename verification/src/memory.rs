//! The module's memory and its allocator.
//!
//! Memory is never freed: a contract's execution is short lived. The allocator hands out the
//! bytes after the last ones it handed out, without alignment, and grows the memory by whole
//! pages of 64 KiB when the pages it has are used up.
use vstd::prelude::*;

use crate::wasm::{
    BinaryOp, FunctionBody, FunctionView, Instr, InstrView, ValType, Value, binop_value, block_arity, instrs_view, push_instr,
    wrap32, zeros,
};

verus! {

/// The size of a page of memory.
pub const MEMORY_PAGE_SIZE: i32 = 65536;

/// The memory setup of a module: the initial values of its two globals, the next free address
/// (global 0) and the number of bytes left in the memory's pages (global 1), and the allocator,
/// which takes a number of bytes and returns their address.
pub struct MemorySetup {
    pub next_free_memory_pointer: i32,
    pub available_memory: i32,
    pub allocator: FunctionBody,
}

/// The instructions that grow the memory when the requested size (local 0) is larger than the
/// available memory (global 1) (see `grow_pages_code`).
pub open spec fn grow_memory_code() -> Seq<InstrView> {
    seq![
        InstrView::LocalGet(0),
        InstrView::GlobalGet(1),
        InstrView::Binop(BinaryOp::I32Sub),
        InstrView::LocalTee(1),
        InstrView::I32Const(0),
        InstrView::Binop(BinaryOp::I32LeS),
        InstrView::BrIf(0),
        InstrView::Block(grow_pages_code()),
    ]
}

/// The instructions that add the missing bytes (local 1), divided by the page size, plus one,
/// as pages (local 2) to the memory, and add them to the available memory (global 1); they trap
/// when the memory cannot grow.
pub open spec fn grow_pages_code() -> Seq<InstrView> {
    seq![
        InstrView::LocalGet(1),
        InstrView::I32Const(65536),
        InstrView::Binop(BinaryOp::I32DivU),
        InstrView::I32Const(1),
        InstrView::Binop(BinaryOp::I32Add),
        InstrView::LocalTee(2),
        InstrView::MemoryGrow,
        InstrView::I32Const(0),
        InstrView::Binop(BinaryOp::I32GtS),
        InstrView::IfElse(
            None,
            seq![
                InstrView::LocalGet(2),
                InstrView::I32Const(65536),
                InstrView::Binop(BinaryOp::I32Mul),
                InstrView::GlobalGet(1),
                InstrView::Binop(BinaryOp::I32Add),
                InstrView::GlobalSet(1),
            ],
            seq![InstrView::Unreachable],
        ),
    ]
}

/// The allocator: it grows the memory if needed (see `grow_memory_code`), then returns the
/// next free address (global 0, kept in local 3), which moves past the requested bytes, and
/// takes them off the available memory.
pub open spec fn allocator_code() -> FunctionView {
    FunctionView {
        name: "allocator"@,
        params: seq![ValType::I32],
        results: seq![ValType::I32],
        locals: seq![ValType::I32, ValType::I32, ValType::I32],
        body: seq![InstrView::Block(grow_memory_code())] + seq![
            InstrView::GlobalGet(0),
            InstrView::LocalTee(3),
            InstrView::LocalGet(0),
            InstrView::Binop(BinaryOp::I32Add),
            InstrView::GlobalSet(0),
            InstrView::GlobalGet(1),
            InstrView::LocalGet(0),
            InstrView::Binop(BinaryOp::I32Sub),
            InstrView::GlobalSet(1),
            InstrView::LocalGet(3),
        ],
    }
}

/// The state that the allocator reads and changes: the module's globals and the number of
/// pages of its memory, which may grow up to `max_pages`.
pub struct GlobalState {
    pub globals: Seq<Value>,
    pub pages: u32,
    pub max_pages: u32,
}

/// Where running instructions over the globals and the page count ends: with the operand
/// stack, the locals and the state; at a branch to the enclosing label of the given depth; at
/// a trap; or at an instruction that does not fit, or that this semantics leaves out (calls,
/// loops, returns and memory accesses, which the allocator does not use).
pub enum GlobalOutcome {
    Done(Seq<Value>, Seq<Value>, GlobalState),
    Break(nat, Seq<Value>, GlobalState),
    Trap,
    Invalid,
}

/// Where a nested sequence of instructions that leaves `arity` values ends, seen from the
/// sequence around it (as `wasm::leave_label`).
pub open spec fn leave_global_label(o: GlobalOutcome, below: Seq<Value>, arity: nat) -> GlobalOutcome {
    match o {
        GlobalOutcome::Done(s, l, g) => if s.len() == arity { GlobalOutcome::Done(below + s, l, g) } else { GlobalOutcome::Invalid },
        GlobalOutcome::Break(d, l, g) => if d == 0 {
            if arity == 0 { GlobalOutcome::Done(below, l, g) } else { GlobalOutcome::Invalid }
        } else {
            GlobalOutcome::Break((d - 1) as nat, l, g)
        },
        _ => o,
    }
}

/// Runs the instructions of `instrs` from position `i` on, over the globals and the page count
/// of `st`: `GlobalGet` and `GlobalSet` read and write a global, and `MemoryGrow` adds the
/// pages on top of the stack and leaves the former page count, or leaves -1 and adds nothing
/// when the memory would exceed `max_pages`. The other instructions behave as in `wasm::run`.
pub open spec fn run_with_globals(instrs: Seq<InstrView>, i: int, stack: Seq<Value>, locals: Seq<Value>, st: GlobalState) -> GlobalOutcome
    decreases instrs, instrs.len() - i,
{
    if i < 0 || i >= instrs.len() {
        GlobalOutcome::Done(stack, locals, st)
    } else {
        match instrs[i] {
            InstrView::LocalGet(l) => if l < locals.len() {
                run_with_globals(instrs, i + 1, stack.push(locals[l as int]), locals, st)
            } else {
                GlobalOutcome::Invalid
            },
            InstrView::LocalSet(l) => if l < locals.len() && stack.len() >= 1 {
                run_with_globals(instrs, i + 1, stack.drop_last(), locals.update(l as int, stack.last()), st)
            } else {
                GlobalOutcome::Invalid
            },
            InstrView::LocalTee(l) => if l < locals.len() && stack.len() >= 1 {
                run_with_globals(instrs, i + 1, stack, locals.update(l as int, stack.last()), st)
            } else {
                GlobalOutcome::Invalid
            },
            InstrView::I32Const(c) => run_with_globals(instrs, i + 1, stack.push(Value::I32(c)), locals, st),
            InstrView::Binop(op) => if stack.len() >= 2 {
                match binop_value(op, stack[stack.len() - 2], stack.last()) {
                    Some(v) => run_with_globals(instrs, i + 1, stack.drop_last().drop_last().push(v), locals, st),
                    None => GlobalOutcome::Invalid,
                }
            } else {
                GlobalOutcome::Invalid
            },
            InstrView::Unreachable => GlobalOutcome::Trap,
            InstrView::IfElse(t, then_, else_) => if stack.len() >= 1 {
                match stack.last() {
                    Value::I32(c) => {
                        let branch = if c != 0 { then_ } else { else_ };
                        match leave_global_label(run_with_globals(branch, 0, Seq::empty(), locals, st), stack.drop_last(), block_arity(t)) {
                            GlobalOutcome::Done(s, l, g) => run_with_globals(instrs, i + 1, s, l, g),
                            other => other,
                        }
                    },
                    Value::I64(_) => GlobalOutcome::Invalid,
                }
            } else {
                GlobalOutcome::Invalid
            },
            InstrView::Block(body) => match leave_global_label(run_with_globals(body, 0, Seq::empty(), locals, st), stack, 0) {
                GlobalOutcome::Done(s, l, g) => run_with_globals(instrs, i + 1, s, l, g),
                other => other,
            },
            InstrView::Br(d) => GlobalOutcome::Break(d as nat, locals, st),
            InstrView::BrIf(d) => if stack.len() >= 1 {
                match stack.last() {
                    Value::I32(c) => if c != 0 {
                        GlobalOutcome::Break(d as nat, locals, st)
                    } else {
                        run_with_globals(instrs, i + 1, stack.drop_last(), locals, st)
                    },
                    Value::I64(_) => GlobalOutcome::Invalid,
                }
            } else {
                GlobalOutcome::Invalid
            },
            InstrView::GlobalGet(k) => if k < st.globals.len() {
                run_with_globals(instrs, i + 1, stack.push(st.globals[k as int]), locals, st)
            } else {
                GlobalOutcome::Invalid
            },
            InstrView::GlobalSet(k) => if k < st.globals.len() && stack.len() >= 1 {
                run_with_globals(instrs, i + 1, stack.drop_last(), locals, GlobalState { globals: st.globals.update(k as int, stack.last()), ..st })
            } else {
                GlobalOutcome::Invalid
            },
            InstrView::MemoryGrow => if stack.len() >= 1 {
                match stack.last() {
                    Value::I32(d) => if st.pages + d <= st.max_pages {
                        run_with_globals(instrs, i + 1, stack.drop_last().push(Value::I32(st.pages)), locals,
                            GlobalState { pages: (st.pages + d) as u32, ..st })
                    } else {
                        run_with_globals(instrs, i + 1, stack.drop_last().push(Value::I32(0xffff_ffff)), locals, st)
                    },
                    Value::I64(_) => GlobalOutcome::Invalid,
                }
            } else {
                GlobalOutcome::Invalid
            },
            _ => GlobalOutcome::Invalid,
        }
    }
}

/// What a call of the allocator on `n` bytes gives, from the next free address `next`, the
/// available bytes `available` and the page count of `st`'s globals and memory: when the bytes
/// are available, `next`, with the next free address moved past them and the bytes taken off
/// the available ones; otherwise the memory first grows by the missing bytes divided by the page
/// size plus one pages, which become available, or the call traps when the memory cannot grow
/// that far.
pub open spec fn allocation(n: u32, next: u32, available: u32, st: GlobalState) -> Option<(u32, GlobalState)> {
    if n <= available {
        Some((next, GlobalState {
            globals: seq![Value::I32((next + n) as u32), Value::I32((available - n) as u32)],
            ..st
        }))
    } else {
        let add = (n - available) / 65536 + 1;
        if st.pages + add <= st.max_pages {
            Some((next, GlobalState {
                globals: seq![Value::I32((next + n) as u32), Value::I32((available + add * 65536 - n) as u32)],
                pages: (st.pages + add) as u32,
                ..st
            }))
        } else {
            None
        }
    }
}

/// The sign of a `u32` taken as an `i32`.
proof fn lemma_i32_sign(x: u32)
    ensures
        x < 0x8000_0000 ==> (x as i32) == x,
        x >= 0x8000_0000 ==> (x as i32) < 0,
{
    assert(x < 0x8000_0000 ==> (x as i32) == x) by (bit_vector);
    assert(x >= 0x8000_0000 ==> (x as i32) < 0) by (bit_vector);
}

/// The pages that the allocator adds to the memory when `n` bytes are requested and only
/// `available` are left.
pub open spec fn pages_to_add(n: u32, available: u32) -> int {
    (n - available) / 65536 + 1
}

/// Running `grow_pages_code` with `missing` (local 1) bytes missing: the memory grows by
/// `pages_to_add` pages, which become available, or the code traps.
#[verifier::rlimit(60)]
proof fn lemma_grow_pages(l: Seq<Value>, st: GlobalState, missing: u32, available: u32)
    requires
        l.len() == 4,
        l[1] == Value::I32(missing),
        0 < missing < 0x8000_0000,
        available < 0x8000_0000,
        st.globals.len() == 2,
        st.globals[1] == Value::I32(available),
        1 <= st.pages <= st.max_pages <= 65536,
    ensures
        ({
            let add = missing / 65536 + 1;
            let e = Seq::<Value>::empty();
            if st.pages + add <= st.max_pages {
                run_with_globals(grow_pages_code(), 0, e, l, st) == GlobalOutcome::Done(
                    e,
                    l.update(2, Value::I32(add as u32)),
                    GlobalState {
                        globals: st.globals.update(1, Value::I32((available + add * 65536) as u32)),
                        pages: (st.pages + add) as u32,
                        max_pages: st.max_pages,
                    },
                )
            } else {
                run_with_globals(grow_pages_code(), 0, e, l, st) == GlobalOutcome::Trap
            }
        }),
{
    let b = grow_pages_code();
    let e = Seq::<Value>::empty();
    let add: u32 = (missing / 65536 + 1) as u32;
    let q: u32 = (missing / 65536) as u32;
    assert(wrap32(q + 1) == add);
    let l2 = l.update(2, Value::I32(add));
    assert(run_with_globals(b, 0, e, l, st) == run_with_globals(b, 1, e.push(Value::I32(missing)), l, st));
    let s1 = e.push(Value::I32(missing)).push(Value::I32(65536));
    assert(run_with_globals(b, 1, e.push(Value::I32(missing)), l, st) == run_with_globals(b, 2, s1, l, st));
    assert(s1.drop_last().drop_last() =~= e);
    assert(run_with_globals(b, 2, s1, l, st) == run_with_globals(b, 3, e.push(Value::I32(q)), l, st));
    let s2 = e.push(Value::I32(q)).push(Value::I32(1));
    assert(run_with_globals(b, 3, e.push(Value::I32(q)), l, st) == run_with_globals(b, 4, s2, l, st));
    assert(s2.drop_last().drop_last() =~= e);
    assert(run_with_globals(b, 4, s2, l, st) == run_with_globals(b, 5, e.push(Value::I32(add)), l, st));
    assert(run_with_globals(b, 5, e.push(Value::I32(add)), l, st) == run_with_globals(b, 6, e.push(Value::I32(add)), l2, st));
    assert(e.push(Value::I32(add)).drop_last() =~= e);
    let grown = st.pages + add <= st.max_pages;
    let st2 = if grown { GlobalState { pages: (st.pages + add) as u32, ..st } } else { st };
    let r: u32 = if grown { st.pages } else { 0xffff_ffff };
    assert(run_with_globals(b, 6, e.push(Value::I32(add)), l2, st) == run_with_globals(b, 7, e.push(Value::I32(r)), l2, st2));
    let s3 = e.push(Value::I32(r)).push(Value::I32(0));
    assert(run_with_globals(b, 7, e.push(Value::I32(r)), l2, st2) == run_with_globals(b, 8, s3, l2, st2));
    lemma_i32_sign(r);
    lemma_i32_sign(0);
    let c: u32 = if grown { 1 } else { 0 };
    assert(s3.drop_last().drop_last() =~= e);
    assert(run_with_globals(b, 8, s3, l2, st2) == run_with_globals(b, 9, e.push(Value::I32(c)), l2, st2));
    let then_ = seq![
        InstrView::LocalGet(2),
        InstrView::I32Const(65536),
        InstrView::Binop(BinaryOp::I32Mul),
        InstrView::GlobalGet(1),
        InstrView::Binop(BinaryOp::I32Add),
        InstrView::GlobalSet(1),
    ];
    if grown {
        assert(add * 65536 <= missing + 65536) by (nonlinear_arith)
            requires
                add == missing / 65536 + 1,
        ;
        let bytes: u32 = (add * 65536) as u32;
        assert(wrap32(add * 65536) == bytes);
        let total: u32 = (available + add * 65536) as u32;
        assert(wrap32(bytes + available) == total);
        let st3 = GlobalState { globals: st2.globals.update(1, Value::I32(total)), ..st2 };
        assert(run_with_globals(then_, 0, e, l2, st2) == run_with_globals(then_, 1, e.push(Value::I32(add)), l2, st2));
        let t1 = e.push(Value::I32(add)).push(Value::I32(65536));
        assert(run_with_globals(then_, 1, e.push(Value::I32(add)), l2, st2) == run_with_globals(then_, 2, t1, l2, st2));
        assert(t1.drop_last().drop_last() =~= e);
        assert(run_with_globals(then_, 2, t1, l2, st2) == run_with_globals(then_, 3, e.push(Value::I32(bytes)), l2, st2));
        let t2 = e.push(Value::I32(bytes)).push(Value::I32(available));
        assert(run_with_globals(then_, 3, e.push(Value::I32(bytes)), l2, st2) == run_with_globals(then_, 4, t2, l2, st2));
        assert(t2.drop_last().drop_last() =~= e);
        assert(run_with_globals(then_, 4, t2, l2, st2) == run_with_globals(then_, 5, e.push(Value::I32(total)), l2, st2));
        assert(e.push(Value::I32(total)).drop_last() =~= e);
        assert(run_with_globals(then_, 5, e.push(Value::I32(total)), l2, st2) == run_with_globals(then_, 6, e, l2, st3));
        assert(e.push(Value::I32(c)).drop_last() + e =~= e);
        assert(run_with_globals(b, 9, e.push(Value::I32(c)), l2, st2) == run_with_globals(b, 10, e, l2, st3));
        assert(st3 == GlobalState {
            globals: st.globals.update(1, Value::I32((available + add * 65536) as u32)),
            pages: (st.pages + add) as u32,
            max_pages: st.max_pages,
        });
    } else {
        assert(run_with_globals(seq![InstrView::Unreachable], 0, e, l2, st2) == GlobalOutcome::Trap);
    }
}

/// Running `grow_memory_code` for `n` bytes (local 0) with `available` bytes available: it is
/// left at once when they are enough, else the memory grows (see `lemma_grow_pages`).
#[verifier::rlimit(60)]
proof fn lemma_grow_memory(l: Seq<Value>, st: GlobalState, n: u32, available: u32)
    requires
        l.len() == 4,
        l[0] == Value::I32(n),
        n < 0x8000_0000,
        available < 0x8000_0000,
        st.globals.len() == 2,
        st.globals[1] == Value::I32(available),
        1 <= st.pages <= st.max_pages <= 65536,
    ensures
        ({
            let e = Seq::<Value>::empty();
            let add = pages_to_add(n, available);
            let l1 = l.update(1, Value::I32(wrap32(n - available)));
            if n <= available {
                run_with_globals(grow_memory_code(), 0, e, l, st) == GlobalOutcome::Break(0, l1, st)
            } else if st.pages + add <= st.max_pages {
                run_with_globals(grow_memory_code(), 0, e, l, st) == GlobalOutcome::Done(
                    e,
                    l1.update(2, Value::I32(add as u32)),
                    GlobalState {
                        globals: st.globals.update(1, Value::I32((available + add * 65536) as u32)),
                        pages: (st.pages + add) as u32,
                        max_pages: st.max_pages,
                    },
                )
            } else {
                run_with_globals(grow_memory_code(), 0, e, l, st) == GlobalOutcome::Trap
            }
        }),
{
    let b = grow_memory_code();
    let e = Seq::<Value>::empty();
    let missing = wrap32(n - available);
    let l1 = l.update(1, Value::I32(missing));
    assert(run_with_globals(b, 0, e, l, st) == run_with_globals(b, 1, e.push(Value::I32(n)), l, st));
    let s1 = e.push(Value::I32(n)).push(Value::I32(available));
    assert(run_with_globals(b, 1, e.push(Value::I32(n)), l, st) == run_with_globals(b, 2, s1, l, st));
    assert(s1.drop_last().drop_last() =~= e);
    assert(run_with_globals(b, 2, s1, l, st) == run_with_globals(b, 3, e.push(Value::I32(missing)), l, st));
    assert(run_with_globals(b, 3, e.push(Value::I32(missing)), l, st) == run_with_globals(b, 4, e.push(Value::I32(missing)), l1, st));
    let s2 = e.push(Value::I32(missing)).push(Value::I32(0));
    assert(run_with_globals(b, 4, e.push(Value::I32(missing)), l1, st) == run_with_globals(b, 5, s2, l1, st));
    if n <= available {
        if n < available {
            assert(missing == n - available + 0x1_0000_0000);
        }
    } else {
        assert(missing == n - available);
    }
    lemma_i32_sign(missing);
    lemma_i32_sign(0);
    let c: u32 = if n <= available { 1 } else { 0 };
    assert(s2.drop_last().drop_last() =~= e);
    assert(run_with_globals(b, 5, s2, l1, st) == run_with_globals(b, 6, e.push(Value::I32(c)), l1, st));
    if n > available {
        assert(e.push(Value::I32(c)).drop_last() =~= e);
        assert(run_with_globals(b, 6, e.push(Value::I32(c)), l1, st) == run_with_globals(b, 7, e, l1, st));
        lemma_grow_pages(l1, st, missing, available);
        assert(l1[1] == Value::I32(missing));
        let o = run_with_globals(grow_pages_code(), 0, e, l1, st);
        match o {
            GlobalOutcome::Done(s, l2, g) => {
                assert(e + s =~= e);
                assert(run_with_globals(b, 8, e, l2, g) == GlobalOutcome::Done(e, l2, g));
            },
            _ => {},
        }
    }
}

/// The allocator, called on `n` bytes with the next free address `next` and `available` bytes
/// available in its globals, does what `allocation` says: it returns `next` and moves the
/// globals on, growing the memory first when the available bytes are too few, or traps when the
/// memory cannot grow that far.
#[verifier::rlimit(80)]
pub proof fn law_allocator(n: u32, next: u32, available: u32, st: GlobalState)
    requires
        st.globals == seq![Value::I32(next), Value::I32(available)],
        n < 0x8000_0000,
        available < 0x8000_0000,
        next + n <= u32::MAX,
        1 <= st.pages <= st.max_pages <= 65536,
    ensures
        ({
            let f = allocator_code();
            let o = run_with_globals(f.body, 0, Seq::empty(), seq![Value::I32(n)] + zeros(f.locals), st);
            match allocation(n, next, available, st) {
                Some((a, st2)) => o matches GlobalOutcome::Done(s, _, g) && s == seq![Value::I32(a)] && g == st2,
                None => o == GlobalOutcome::Trap,
            }
        }),
{
    let f = allocator_code();
    let b = f.body;
    let e = Seq::<Value>::empty();
    let l0 = seq![Value::I32(n), Value::I32(0), Value::I32(0), Value::I32(0)];
    assert(seq![Value::I32(n)] + zeros(f.locals) =~= l0);
    lemma_grow_memory(l0, st, n, available);
    let add = pages_to_add(n, available);
    let o1 = run_with_globals(grow_memory_code(), 0, e, l0, st);
    match leave_global_label(o1, e, 0) {
        GlobalOutcome::Done(s1, l1, g1) => {
            assert(s1 =~= e);
            let avail1: u32 = if n <= available { available } else { (available + add * 65536) as u32 };
            assert(g1.globals == seq![Value::I32(next), Value::I32(avail1)]);
            if n > available {
                assert(add * 65536 > n - available) by (nonlinear_arith)
                    requires
                        add == (n - available) / 65536 + 1,
                        n > available,
                ;
            }
            assert(avail1 >= n);
            let l2 = l1.update(3, Value::I32(next));
            assert(run_with_globals(b, 1, e, l1, g1) == run_with_globals(b, 2, e.push(Value::I32(next)), l1, g1));
            assert(run_with_globals(b, 2, e.push(Value::I32(next)), l1, g1) == run_with_globals(b, 3, e.push(Value::I32(next)), l2, g1));
            let s2 = e.push(Value::I32(next)).push(Value::I32(n));
            assert(run_with_globals(b, 3, e.push(Value::I32(next)), l2, g1) == run_with_globals(b, 4, s2, l2, g1));
            let nn: u32 = (next + n) as u32;
            assert(wrap32(next + n) == nn);
            assert(s2.drop_last().drop_last() =~= e);
            assert(run_with_globals(b, 4, s2, l2, g1) == run_with_globals(b, 5, e.push(Value::I32(nn)), l2, g1));
            let g2 = GlobalState { globals: g1.globals.update(0, Value::I32(nn)), ..g1 };
            assert(e.push(Value::I32(nn)).drop_last() =~= e);
            assert(run_with_globals(b, 5, e.push(Value::I32(nn)), l2, g1) == run_with_globals(b, 6, e, l2, g2));
            assert(g2.globals[1] == Value::I32(avail1));
            assert(run_with_globals(b, 6, e, l2, g2) == run_with_globals(b, 7, e.push(Value::I32(avail1)), l2, g2));
            let s3 = e.push(Value::I32(avail1)).push(Value::I32(n));
            assert(run_with_globals(b, 7, e.push(Value::I32(avail1)), l2, g2) == run_with_globals(b, 8, s3, l2, g2));
            let na: u32 = (avail1 - n) as u32;
            assert(wrap32(avail1 - n) == na);
            assert(s3.drop_last().drop_last() =~= e);
            assert(run_with_globals(b, 8, s3, l2, g2) == run_with_globals(b, 9, e.push(Value::I32(na)), l2, g2));
            let g3 = GlobalState { globals: g2.globals.update(1, Value::I32(na)), ..g2 };
            assert(e.push(Value::I32(na)).drop_last() =~= e);
            assert(run_with_globals(b, 9, e.push(Value::I32(na)), l2, g2) == run_with_globals(b, 10, e, l2, g3));
            assert(l2[3] == Value::I32(next));
            assert(run_with_globals(b, 10, e, l2, g3) == run_with_globals(b, 11, e.push(Value::I32(next)), l2, g3));
            assert(run_with_globals(b, 0, e, l0, st) == run_with_globals(b, 1, e, l1, g1));
            assert(e.push(Value::I32(next)) =~= seq![Value::I32(next)]);
            assert(g3.globals =~= seq![Value::I32(nn), Value::I32(na)]);
        },
        _ => {
            assert(run_with_globals(b, 0, e, l0, st) == GlobalOutcome::Trap);
        },
    }
}

/// Two allocations in a row never hand out the same byte: the second one starts where the
/// first one ends.
pub proof fn law_allocations_do_not_overlap(n1: u32, n2: u32, next: u32, available: u32, st: GlobalState)
    requires
        allocation(n1, next, available, st) is Some,
    ensures
        allocation(n1, next, available, st) matches Some((a1, st1)) && {
            let next1 = (next + n1) as u32;
            &&& a1 == next
            &&& st1.globals[0] == Value::I32(next1)
            &&& forall|available1: u32| #![trigger allocation(n2, next1, available1, st1)]
                st1.globals[1] == Value::I32(available1) ==> match allocation(n2, next1, available1, st1) {
                    Some((a2, _)) => a2 == next1,
                    None => true,
                }
        },
{
}

/// Whether `o`, where running the allocator ended, is what `allocation` says: the address
/// returned and the globals and pages after the call, or a trap.
pub open spec fn allocation_outcome(o: GlobalOutcome, expected: Option<(u32, GlobalState)>) -> bool {
    match expected {
        Some((a, st2)) => o matches GlobalOutcome::Done(s, _, g) && s == seq![Value::I32(a)] && g == st2,
        None => o == GlobalOutcome::Trap,
    }
}

/// Where calling `f` with the arguments `args` over the globals and pages of `st` ends.
pub open spec fn call_with_globals(f: FunctionView, args: Seq<Value>, st: GlobalState) -> GlobalOutcome {
    run_with_globals(f.body, 0, Seq::empty(), args + zeros(f.locals), st)
}

/// Whether `f` allocates as `allocation` says, from the next free address and the available
/// bytes held in the two globals, for every request and state that keep the arithmetic within
/// the range of an `i32`, with at least one page of memory.
pub open spec fn allocates(f: FunctionView) -> bool {
    forall|n: u32, st: GlobalState|
        st.globals.len() == 2 && (st.globals[0] is I32) && (st.globals[1] is I32) && n < 0x8000_0000
            && st.globals[1]->I32_0 < 0x8000_0000 && st.globals[0]->I32_0 + n <= u32::MAX
            && 1 <= st.pages <= st.max_pages <= 65536
        ==> allocation_outcome(
            #[trigger] call_with_globals(f, seq![Value::I32(n)], st),
            allocation(n, st.globals[0]->I32_0, st.globals[1]->I32_0, st),
        )
}

/// `allocator_code` allocates (see `allocates` and `law_allocator`).
pub proof fn lemma_allocator_allocates()
    ensures
        allocates(allocator_code()),
{
    assert forall|n: u32, st: GlobalState|
        st.globals.len() == 2 && (st.globals[0] is I32) && (st.globals[1] is I32) && n < 0x8000_0000
            && st.globals[1]->I32_0 < 0x8000_0000 && st.globals[0]->I32_0 + n <= u32::MAX
            && 1 <= st.pages <= st.max_pages <= 65536
        implies allocation_outcome(
            #[trigger] call_with_globals(allocator_code(), seq![Value::I32(n)], st),
            allocation(n, st.globals[0]->I32_0, st.globals[1]->I32_0, st),
        ) by {
        let next = st.globals[0]->I32_0;
        let available = st.globals[1]->I32_0;
        assert(st.globals =~= seq![Value::I32(next), Value::I32(available)]);
        law_allocator(n, next, available, st);
    }
}

/// The next free address that the allocator keeps in global 0.
pub open spec fn next_free(st: GlobalState) -> u32 {
    st.globals[0]->I32_0
}

/// The available bytes that the allocator keeps in global 1.
pub open spec fn available(st: GlobalState) -> u32 {
    st.globals[1]->I32_0
}

/// Whether the allocator's globals account for the whole memory: the next free address and
/// the available bytes add up to the size of the memory's pages, of which there is at least
/// one and at most `max_pages`, itself at most the 65536 pages of a 32-bit memory; the
/// available bytes stay within the range of an `i32`.
pub open spec fn memory_accounted(st: GlobalState) -> bool {
    &&& st.globals.len() == 2
    &&& st.globals[0] is I32
    &&& st.globals[1] is I32
    &&& next_free(st) + available(st) == st.pages * 65536
    &&& available(st) < 0x8000_0000
    &&& 1 <= st.pages <= st.max_pages <= 65536
}

/// The sum of `sizes`.
pub open spec fn sum_sizes(sizes: Seq<u32>) -> int
    decreases sizes.len(),
{
    if sizes.len() == 0 {
        0
    } else {
        sum_sizes(sizes.drop_last()) + sizes.last()
    }
}

/// The sum of a prefix of `sizes` is at most the sum of all of them.
proof fn lemma_sum_sizes_prefix(sizes: Seq<u32>, i: int)
    requires
        0 <= i <= sizes.len(),
    ensures
        0 <= sum_sizes(sizes.take(i)) <= sum_sizes(sizes),
    decreases sizes.len(),
{
    if i < sizes.len() {
        assert(sizes.drop_last().take(i) =~= sizes.take(i));
        lemma_sum_sizes_prefix(sizes.drop_last(), i);
    } else {
        assert(sizes.take(i) =~= sizes);
        if sizes.len() > 0 {
            lemma_sum_sizes_prefix(sizes.drop_last(), sizes.len() - 1);
        }
    }
}

/// Calling the allocator `f` on each of `sizes` in turn, from the globals and pages of `st`:
/// the addresses it returned and the state after the last call, or `None` when a call did
/// not return one address.
pub open spec fn allocator_calls(f: FunctionView, sizes: Seq<u32>, st: GlobalState) -> Option<(Seq<u32>, GlobalState)>
    decreases sizes.len(),
{
    if sizes.len() == 0 {
        Some((Seq::empty(), st))
    } else {
        match allocator_calls(f, sizes.drop_last(), st) {
            Some((addresses, g)) => match call_with_globals(f, seq![Value::I32(sizes.last())], g) {
                GlobalOutcome::Done(s, _, g2) => if s.len() == 1 && (s[0] is I32) {
                    Some((addresses.push(s[0]->I32_0), g2))
                } else {
                    None
                },
                _ => None,
            },
            None => None,
        }
    }
}

/// An allocator that allocates as `allocation` says hands out, over any sequence of calls
/// that all return, contiguous blocks: call `i` returns the first free address plus the sizes
/// requested before it, so no block overlaps another or is handed out again. After every call
/// the globals still account for the whole memory, so every block lies inside the memory. A
/// call fails only by trapping, when the memory cannot grow.
pub proof fn law_allocator_calls(f: FunctionView, sizes: Seq<u32>, st: GlobalState)
    requires
        allocates(f),
        memory_accounted(st),
        forall|i: int| 0 <= i < sizes.len() ==> #[trigger] sizes[i] < 0x8000_0000,
        next_free(st) + sum_sizes(sizes) <= u32::MAX,
    ensures
        match allocator_calls(f, sizes, st) {
            Some((addresses, st2)) => {
                &&& addresses.len() == sizes.len()
                &&& forall|i: int| 0 <= i < sizes.len() ==> {
                    &&& #[trigger] addresses[i] == next_free(st) + sum_sizes(sizes.take(i))
                    &&& addresses[i] + sizes[i] <= st2.pages * 65536
                }
                &&& memory_accounted(st2)
                &&& next_free(st2) == next_free(st) + sum_sizes(sizes)
                &&& st.pages <= st2.pages
                &&& st2.max_pages == st.max_pages
            },
            None => true,
        },
    decreases sizes.len(),
{
    if sizes.len() > 0 {
        let init = sizes.drop_last();
        let n = sizes.last();
        assert forall|i: int| 0 <= i < init.len() implies #[trigger] init[i] < 0x8000_0000 by {
            assert(init[i] == sizes[i]);
        }
        law_allocator_calls(f, init, st);
        match allocator_calls(f, init, st) {
            Some((addresses, g)) => {
                let next = next_free(g);
                let avail = available(g);
                assert(next + n <= u32::MAX);
                let o = call_with_globals(f, seq![Value::I32(n)], g);
                assert(allocation_outcome(o, allocation(n, next_free(g), available(g), g)));
                match allocation(n, next, avail, g) {
                    Some((a, g2)) => {
                        assert(a == next);
                        let add = (n - avail) / 65536 + 1;
                        if n > avail {
                            assert(add * 65536 > n - avail && add * 65536 <= n - avail + 65536) by (nonlinear_arith)
                                requires
                                    add == (n - avail) / 65536 + 1,
                                    n > avail,
                            ;
                            assert(g2.pages == g.pages + add);
                            assert((g.pages + add) * 65536 == g.pages * 65536 + add * 65536) by (nonlinear_arith);
                        }
                        assert(memory_accounted(g2));
                        let all = addresses.push(a);
                        assert(allocator_calls(f, sizes, st) == Some((all, g2)));
                        assert(g.pages * 65536 <= g2.pages * 65536) by (nonlinear_arith)
                            requires
                                g.pages <= g2.pages,
                        ;
                        assert forall|i: int| 0 <= i < sizes.len() implies {
                            &&& #[trigger] all[i] == next_free(st) + sum_sizes(sizes.take(i))
                            &&& all[i] + sizes[i] <= g2.pages * 65536
                        } by {
                            if i < init.len() {
                                assert(init.take(i) =~= sizes.take(i));
                                assert(all[i] == addresses[i]);
                                assert(init[i] == sizes[i]);
                            } else {
                                assert(sizes.take(i) =~= init);
                            }
                        }
                    },
                    None => {},
                }
            },
            None => {},
        }
    }
}

/// Appends `grow_memory_code`.
fn add_grow_memory(block: &mut Vec<Instr>)
    ensures
        instrs_view(final(block)@) == instrs_view(old(block)@) + grow_memory_code(),
{
    let ghost before = instrs_view(block@);
    // The missing bytes; nothing to do when there are none
    push_instr(block, Instr::LocalGet(0));
    push_instr(block, Instr::GlobalGet(1));
    push_instr(block, Instr::Binop(BinaryOp::I32Sub));
    push_instr(block, Instr::LocalTee(1));
    push_instr(block, Instr::I32Const(0));
    push_instr(block, Instr::Binop(BinaryOp::I32LeS));
    push_instr(block, Instr::BrIf(0));

    let mut grow: Vec<Instr> = Vec::new();
    // The pages to add, rounded up
    push_instr(&mut grow, Instr::LocalGet(1));
    push_instr(&mut grow, Instr::I32Const(65536));
    push_instr(&mut grow, Instr::Binop(BinaryOp::I32DivU));
    push_instr(&mut grow, Instr::I32Const(1));
    push_instr(&mut grow, Instr::Binop(BinaryOp::I32Add));
    push_instr(&mut grow, Instr::LocalTee(2));
    push_instr(&mut grow, Instr::MemoryGrow);
    push_instr(&mut grow, Instr::I32Const(0));
    push_instr(&mut grow, Instr::Binop(BinaryOp::I32GtS));
    let mut grown: Vec<Instr> = Vec::new();
    push_instr(&mut grown, Instr::LocalGet(2));
    push_instr(&mut grown, Instr::I32Const(65536));
    push_instr(&mut grown, Instr::Binop(BinaryOp::I32Mul));
    push_instr(&mut grown, Instr::GlobalGet(1));
    push_instr(&mut grown, Instr::Binop(BinaryOp::I32Add));
    push_instr(&mut grown, Instr::GlobalSet(1));
    // The memory could not grow
    let mut failed: Vec<Instr> = Vec::new();
    push_instr(&mut failed, Instr::Unreachable);
    proof {
        assert(instrs_view(grown@) =~= seq![
            InstrView::LocalGet(2),
            InstrView::I32Const(65536),
            InstrView::Binop(BinaryOp::I32Mul),
            InstrView::GlobalGet(1),
            InstrView::Binop(BinaryOp::I32Add),
            InstrView::GlobalSet(1),
        ]);
        assert(instrs_view(failed@) =~= seq![InstrView::Unreachable]);
    }
    push_instr(&mut grow, Instr::IfElse(None, grown, failed));
    assert(instrs_view(grow@) =~= grow_pages_code());
    push_instr(block, Instr::Block(grow));
    assert(instrs_view(block@) =~= before + grow_memory_code());
}

/// The memory setup of a module whose first free address is `initial_offset`, or 0: one page
/// is available, and the allocator is `allocator_code`, which allocates as `allocation` says.
#[verifier::rlimit(30)]
pub fn setup_module_memory(initial_offset: Option<i32>) -> (r: MemorySetup)
    ensures
        r.next_free_memory_pointer == match initial_offset {
            Some(o) => o,
            None => 0i32,
        },
        r.available_memory == MEMORY_PAGE_SIZE,
        r.allocator@ == allocator_code(),
        allocates(r.allocator@),
{
    let next_free_memory_pointer = match initial_offset {
        Some(o) => o,
        None => 0,
    };
    let mut grow: Vec<Instr> = Vec::new();
    add_grow_memory(&mut grow);
    let mut body: Vec<Instr> = Vec::new();
    push_instr(&mut body, Instr::Block(grow));
    // Hand out the next free address and move it past the requested bytes
    push_instr(&mut body, Instr::GlobalGet(0));
    push_instr(&mut body, Instr::LocalTee(3));
    push_instr(&mut body, Instr::LocalGet(0));
    push_instr(&mut body, Instr::Binop(BinaryOp::I32Add));
    push_instr(&mut body, Instr::GlobalSet(0));
    // Those bytes are no longer available
    push_instr(&mut body, Instr::GlobalGet(1));
    push_instr(&mut body, Instr::LocalGet(0));
    push_instr(&mut body, Instr::Binop(BinaryOp::I32Sub));
    push_instr(&mut body, Instr::GlobalSet(1));
    push_instr(&mut body, Instr::LocalGet(3));
    let allocator = FunctionBody {
        name: String::from_str("allocator"),
        params: vec![ValType::I32],
        results: vec![ValType::I32],
        locals: vec![ValType::I32, ValType::I32, ValType::I32],
        body,
    };
    proof {
        assert(allocator@.body =~= allocator_code().body);
        assert(allocator@.params =~= allocator_code().params);
        assert(allocator@.results =~= allocator_code().results);
        assert(allocator@.locals =~= allocator_code().locals);
        assert(allocator@ == allocator_code());
        lemma_allocator_allocates();
    }
    MemorySetup { next_free_memory_pointer, available_memory: MEMORY_PAGE_SIZE, allocator }
}

} // verus!
