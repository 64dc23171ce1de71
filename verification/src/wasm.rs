//! The WebAssembly functions that the compiler adds to a module, as plain values, and what
//! running them computes.
//!
//! A function is its name, the types of its parameters, results and further locals, and its
//! instructions. Locals are numbered parameters first. Values are held by their bits: an `i32`
//! as a `u32`, an `i64` as a `u64`. The linear memory is a sequence of bytes, and numbers are
//! stored in it little-endian. A branch names its target by depth: 0 is the innermost enclosing
//! `block`, `loop` or `if`. Globals are numbered among those of the module that the function is
//! added with; what running instructions computes is given for functions that use no globals
//! and do not grow the memory.
use vstd::prelude::*;

verus! {

broadcast use vstd::std_specs::vec::group_vec_axioms;

/// A value type.
#[derive(Debug, Clone, Copy, PartialEq, Eq, Structural)]
pub enum ValType {
    I32,
    I64,
}

/// A binary operator; comparisons give an `i32` that is 1 or 0.
#[derive(Debug, Clone, Copy, PartialEq, Eq, Structural)]
pub enum BinaryOp {
    I32Add,
    I32Sub,
    I32Mul,
    /// Unsigned division; dividing by zero traps.
    I32DivU,
    I32And,
    I32Or,
    I32Shl,
    I32ShrU,
    I32Eq,
    I32Ne,
    I32LtS,
    I32LtU,
    I32GtU,
    I32GtS,
    I32LeS,
    I32GeU,
    I64Add,
    I64Sub,
    I64Or,
    I64Shl,
    I64ShrU,
    I64Eq,
    I64Ne,
    I64LtU,
    I64LeU,
    I64GtU,
}

/// A unary operator.
#[derive(Debug, Clone, Copy, PartialEq, Eq, Structural)]
pub enum UnaryOp {
    /// The low 32 bits of an `i64`.
    I32WrapI64,
    /// An `i32` read as unsigned and widened to an `i64`.
    I64ExtendUI32,
}

/// An instruction.
#[derive(Debug)]
pub enum Instr {
    LocalGet(u32),
    LocalSet(u32),
    LocalTee(u32),
    /// An `i32` constant, by its bits.
    I32Const(u32),
    /// An `i64` constant, by its bits.
    I64Const(u64),
    Binop(BinaryOp),
    Unop(UnaryOp),
    /// A call of the function at this position of the list of callees that the function is
    /// emitted with.
    Call(u32),
    Unreachable,
    /// Pops an `i32` condition and runs the first block when it is nonzero, else the second;
    /// each block leaves one value of the given type, or none.
    IfElse(Option<ValType>, Vec<Instr>, Vec<Instr>),
    /// Pops an `i32` address and pushes the value of the given type stored at that address plus
    /// the offset.
    Load(ValType, u32),
    /// Pops a value of the given type and an `i32` address, and stores the value at that address
    /// plus the offset.
    Store(ValType, u32),
    /// A block that leaves no value; a branch to it ends it.
    Block(Vec<Instr>),
    /// A loop that leaves no value; a branch to it runs it again.
    Loop(Vec<Instr>),
    /// Branches to the enclosing block, loop or `if` of the given depth.
    Br(u32),
    /// Pops an `i32` condition and branches as `Br` when it is nonzero.
    BrIf(u32),
    /// Returns from the function with the values on top of the stack.
    Return,
    /// Pops a length, a source address and a destination address, all `i32`, and copies that
    /// many bytes from the source to the destination, as if through a buffer.
    MemoryCopy,
    /// Pushes the value of the global of the given number.
    GlobalGet(u32),
    /// Pops a value into the global of the given number.
    GlobalSet(u32),
    /// Pops a number of pages and grows the memory by that many, pushing the number of pages
    /// it had, or `-1` (all bits set) when it cannot grow.
    MemoryGrow,
}

/// The mathematical value of an `Instr`.
pub enum InstrView {
    LocalGet(u32),
    LocalSet(u32),
    LocalTee(u32),
    I32Const(u32),
    I64Const(u64),
    Binop(BinaryOp),
    Unop(UnaryOp),
    Call(u32),
    Unreachable,
    IfElse(Option<ValType>, Seq<InstrView>, Seq<InstrView>),
    Load(ValType, u32),
    Store(ValType, u32),
    Block(Seq<InstrView>),
    Loop(Seq<InstrView>),
    Br(u32),
    BrIf(u32),
    Return,
    MemoryCopy,
    GlobalGet(u32),
    GlobalSet(u32),
    MemoryGrow,
}

pub open spec fn instr_view(i: Instr) -> InstrView
    decreases i,
{
    match i {
        Instr::LocalGet(l) => InstrView::LocalGet(l),
        Instr::LocalSet(l) => InstrView::LocalSet(l),
        Instr::LocalTee(l) => InstrView::LocalTee(l),
        Instr::I32Const(c) => InstrView::I32Const(c),
        Instr::I64Const(c) => InstrView::I64Const(c),
        Instr::Binop(op) => InstrView::Binop(op),
        Instr::Unop(op) => InstrView::Unop(op),
        Instr::Call(f) => InstrView::Call(f),
        Instr::Unreachable => InstrView::Unreachable,
        Instr::IfElse(t, a, b) => InstrView::IfElse(t, instrs_view(a@), instrs_view(b@)),
        Instr::Load(t, o) => InstrView::Load(t, o),
        Instr::Store(t, o) => InstrView::Store(t, o),
        Instr::Block(b) => InstrView::Block(instrs_view(b@)),
        Instr::Loop(b) => InstrView::Loop(instrs_view(b@)),
        Instr::Br(d) => InstrView::Br(d),
        Instr::BrIf(d) => InstrView::BrIf(d),
        Instr::Return => InstrView::Return,
        Instr::MemoryCopy => InstrView::MemoryCopy,
        Instr::GlobalGet(g) => InstrView::GlobalGet(g),
        Instr::GlobalSet(g) => InstrView::GlobalSet(g),
        Instr::MemoryGrow => InstrView::MemoryGrow,
    }
}

/// The views of a sequence of instructions.
pub open spec fn instrs_view(s: Seq<Instr>) -> Seq<InstrView>
    decreases s,
{
    if s.len() == 0 {
        Seq::empty()
    } else {
        instrs_view(s.drop_last()).push(instr_view(s.last()))
    }
}

impl View for Instr {
    type V = InstrView;

    open spec fn view(&self) -> InstrView {
        instr_view(*self)
    }
}

/// A function to add to a module.
pub struct FunctionBody {
    /// The name it is added under.
    pub name: String,
    pub params: Vec<ValType>,
    pub results: Vec<ValType>,
    /// The types of the locals after the parameters.
    pub locals: Vec<ValType>,
    pub body: Vec<Instr>,
}

/// The mathematical value of a `FunctionBody`.
pub struct FunctionView {
    pub name: Seq<char>,
    pub params: Seq<ValType>,
    pub results: Seq<ValType>,
    pub locals: Seq<ValType>,
    pub body: Seq<InstrView>,
}

impl View for FunctionBody {
    type V = FunctionView;

    open spec fn view(&self) -> FunctionView {
        FunctionView {
            name: self.name@,
            params: self.params@,
            results: self.results@,
            locals: self.locals@,
            body: instrs_view(self.body@),
        }
    }
}

/// The views of the instructions of a sequence built by pushing: viewing the sequence with one
/// more instruction views that instruction.
pub proof fn lemma_instrs_view_push(s: Seq<Instr>, i: Instr)
    ensures
        instrs_view(s.push(i)) == instrs_view(s).push(i@),
{
    assert(s.push(i).drop_last() =~= s);
}

} // verus!

verus! {

/// A value, by its bits.
pub enum Value {
    I32(u32),
    I64(u64),
}

/// Where running instructions ends: with the operand stack, the locals and the memory; at a
/// branch to the enclosing label of the given depth; at a return, with the operand stack; at a
/// trap; at an instruction that does not fit the stack, the locals or the labels, or that
/// reads or writes a global or grows the memory, which this model leaves out; or when a loop
/// was to run again with no fuel left.
pub enum Outcome {
    Done(Seq<Value>, Seq<Value>, Seq<u8>),
    Break(nat, Seq<Value>, Seq<u8>),
    Return(Seq<Value>, Seq<u8>),
    Trap,
    Invalid,
    Exhausted,
}

/// Where a call of a function ends: returning its results and the memory, at a trap, invalid,
/// or out of fuel.
pub enum Completion {
    Returned(Seq<Value>, Seq<u8>),
    Trapped,
    Invalid,
    Exhausted,
}

/// The initial value of a local of type `t`.
pub open spec fn zero(t: ValType) -> Value {
    match t {
        ValType::I32 => Value::I32(0),
        ValType::I64 => Value::I64(0),
    }
}

/// The initial values of locals of the given types.
pub open spec fn zeros(ts: Seq<ValType>) -> Seq<Value> {
    ts.map_values(|t: ValType| zero(t))
}

/// The number of values that a block of type `t` leaves.
pub open spec fn block_arity(t: Option<ValType>) -> nat {
    match t {
        Some(_) => 1,
        None => 0,
    }
}

/// The number of bytes a value of type `t` takes in memory.
pub open spec fn byte_width(t: ValType) -> nat {
    match t {
        ValType::I32 => 4,
        ValType::I64 => 8,
    }
}

/// `x` modulo 2^32.
pub open spec fn wrap32(x: int) -> u32 {
    (x % 0x1_0000_0000) as u32
}

/// `x` modulo 2^64.
pub open spec fn wrap64(x: int) -> u64 {
    (x % 0x1_0000_0000_0000_0000) as u64
}

/// The number that the bytes encode, the first byte being the least significant.
pub open spec fn le_value(bytes: Seq<u8>) -> nat
    decreases bytes.len(),
{
    if bytes.len() == 0 {
        0
    } else {
        (bytes[0] + 256 * le_value(bytes.subrange(1, bytes.len() as int))) as nat
    }
}

/// The `n` bytes that encode `v` modulo 256^n, the first byte being the least significant.
pub open spec fn le_bytes(v: nat, n: nat) -> Seq<u8>
    decreases n,
{
    if n == 0 {
        Seq::empty()
    } else {
        seq![(v % 256) as u8] + le_bytes(v / 256, (n - 1) as nat)
    }
}

/// The value of type `t` that the bytes encode.
pub open spec fn decode(t: ValType, bytes: Seq<u8>) -> Value {
    match t {
        ValType::I32 => Value::I32(le_value(bytes) as u32),
        ValType::I64 => Value::I64(le_value(bytes) as u64),
    }
}

/// The bytes that encode `v`, when it has type `t`.
pub open spec fn encode(t: ValType, v: Value) -> Option<Seq<u8>> {
    match (t, v) {
        (ValType::I32, Value::I32(x)) => Some(le_bytes(x as nat, 4)),
        (ValType::I64, Value::I64(x)) => Some(le_bytes(x as nat, 8)),
        _ => None,
    }
}

/// The result of a binary operator on two values, or `None` when their types do not fit or an
/// `i32` is divided by zero (which traps; the functions this model runs do not divide by zero).
pub open spec fn binop_value(op: BinaryOp, a: Value, b: Value) -> Option<Value> {
    match (a, b) {
        (Value::I32(x), Value::I32(y)) => match op {
            BinaryOp::I32Add => Some(Value::I32(wrap32(x + y))),
            BinaryOp::I32Sub => Some(Value::I32(wrap32(x - y))),
            BinaryOp::I32Mul => Some(Value::I32(wrap32(x * y))),
            BinaryOp::I32DivU => if y == 0 { None } else { Some(Value::I32(x / y)) },
            BinaryOp::I32And => Some(Value::I32(x & y)),
            BinaryOp::I32Or => Some(Value::I32(x | y)),
            BinaryOp::I32Shl => Some(Value::I32(x << (y % 32))),
            BinaryOp::I32ShrU => Some(Value::I32(x >> (y % 32))),
            BinaryOp::I32Eq => Some(Value::I32(if x == y { 1 } else { 0 })),
            BinaryOp::I32Ne => Some(Value::I32(if x != y { 1 } else { 0 })),
            BinaryOp::I32LtS => Some(Value::I32(if (x as i32) < (y as i32) { 1 } else { 0 })),
            BinaryOp::I32LtU => Some(Value::I32(if x < y { 1 } else { 0 })),
            BinaryOp::I32GtU => Some(Value::I32(if x > y { 1 } else { 0 })),
            BinaryOp::I32GtS => Some(Value::I32(if (x as i32) > (y as i32) { 1 } else { 0 })),
            BinaryOp::I32LeS => Some(Value::I32(if (x as i32) <= (y as i32) { 1 } else { 0 })),
            BinaryOp::I32GeU => Some(Value::I32(if x >= y { 1 } else { 0 })),
            _ => None,
        },
        (Value::I64(x), Value::I64(y)) => match op {
            BinaryOp::I64Add => Some(Value::I64(wrap64(x + y))),
            BinaryOp::I64Sub => Some(Value::I64(wrap64(x - y))),
            BinaryOp::I64Or => Some(Value::I64(x | y)),
            BinaryOp::I64Shl => Some(Value::I64(x << (y % 64))),
            BinaryOp::I64ShrU => Some(Value::I64(x >> (y % 64))),
            BinaryOp::I64Eq => Some(Value::I32(if x == y { 1 } else { 0 })),
            BinaryOp::I64Ne => Some(Value::I32(if x != y { 1 } else { 0 })),
            BinaryOp::I64LtU => Some(Value::I32(if x < y { 1 } else { 0 })),
            BinaryOp::I64LeU => Some(Value::I32(if x <= y { 1 } else { 0 })),
            BinaryOp::I64GtU => Some(Value::I32(if x > y { 1 } else { 0 })),
            _ => None,
        },
        _ => None,
    }
}

/// The result of a unary operator on a value, or `None` when its type does not fit.
pub open spec fn unop_value(op: UnaryOp, a: Value) -> Option<Value> {
    match (op, a) {
        (UnaryOp::I32WrapI64, Value::I64(x)) => Some(Value::I32(wrap32(x as int))),
        (UnaryOp::I64ExtendUI32, Value::I32(x)) => Some(Value::I64(x as u64)),
        _ => None,
    }
}

/// Where a nested sequence of instructions that leaves `arity` values ends, seen from the
/// sequence around it: it continues with the operand stack `below` and what the nested
/// sequence left, a branch to the nested sequence's own label ends it there, and a branch to
/// an outer label moves one label out.
pub open spec fn leave_label(o: Outcome, below: Seq<Value>, arity: nat) -> Outcome {
    match o {
        Outcome::Done(s, l, m) => if s.len() == arity { Outcome::Done(below + s, l, m) } else { Outcome::Invalid },
        Outcome::Break(d, l, m) => if d == 0 {
            if arity == 0 { Outcome::Done(below, l, m) } else { Outcome::Invalid }
        } else {
            Outcome::Break((d - 1) as nat, l, m)
        },
        _ => o,
    }
}

/// Runs the instructions of `instrs` from position `i` on, with the given operand stack, locals
/// and memory. `env` holds the functions that `Call` refers to, by position; a called function
/// may only call the functions before it. A loop may run again `fuel` times.
pub open spec fn run(
    env: Seq<FunctionView>,
    fuel: nat,
    instrs: Seq<InstrView>,
    i: int,
    stack: Seq<Value>,
    locals: Seq<Value>,
    mem: Seq<u8>,
) -> Outcome
    decreases env.len(), fuel, instrs, instrs.len() - i,
{
    if i < 0 || i >= instrs.len() {
        Outcome::Done(stack, locals, mem)
    } else {
        match instrs[i] {
            InstrView::LocalGet(l) => if l < locals.len() {
                run(env, fuel, instrs, i + 1, stack.push(locals[l as int]), locals, mem)
            } else {
                Outcome::Invalid
            },
            InstrView::LocalSet(l) => if l < locals.len() && stack.len() >= 1 {
                run(env, fuel, instrs, i + 1, stack.drop_last(), locals.update(l as int, stack.last()), mem)
            } else {
                Outcome::Invalid
            },
            InstrView::LocalTee(l) => if l < locals.len() && stack.len() >= 1 {
                run(env, fuel, instrs, i + 1, stack, locals.update(l as int, stack.last()), mem)
            } else {
                Outcome::Invalid
            },
            InstrView::I32Const(c) => run(env, fuel, instrs, i + 1, stack.push(Value::I32(c)), locals, mem),
            InstrView::I64Const(c) => run(env, fuel, instrs, i + 1, stack.push(Value::I64(c)), locals, mem),
            InstrView::Binop(op) => if stack.len() >= 2 {
                match binop_value(op, stack[stack.len() - 2], stack.last()) {
                    Some(v) => run(env, fuel, instrs, i + 1, stack.drop_last().drop_last().push(v), locals, mem),
                    None => Outcome::Invalid,
                }
            } else {
                Outcome::Invalid
            },
            InstrView::Unop(op) => if stack.len() >= 1 {
                match unop_value(op, stack.last()) {
                    Some(v) => run(env, fuel, instrs, i + 1, stack.drop_last().push(v), locals, mem),
                    None => Outcome::Invalid,
                }
            } else {
                Outcome::Invalid
            },
            InstrView::Call(k) => if k < env.len() && env[k as int].params.len() <= stack.len() {
                let callee = env[k as int];
                let n = stack.len() - callee.params.len();
                let args = stack.subrange(n, stack.len() as int);
                let r = callee.results.len();
                match run(env.take(k as int), fuel, callee.body, 0, Seq::empty(), args + zeros(callee.locals), mem) {
                    Outcome::Done(s, _, m) => if s.len() == r {
                        run(env, fuel, instrs, i + 1, stack.subrange(0, n) + s, locals, m)
                    } else {
                        Outcome::Invalid
                    },
                    Outcome::Return(s, m) => if s.len() >= r {
                        run(env, fuel, instrs, i + 1, stack.subrange(0, n) + s.subrange(s.len() - r, s.len() as int), locals, m)
                    } else {
                        Outcome::Invalid
                    },
                    Outcome::Break(_, _, _) => Outcome::Invalid,
                    Outcome::Trap => Outcome::Trap,
                    Outcome::Invalid => Outcome::Invalid,
                    Outcome::Exhausted => Outcome::Exhausted,
                }
            } else {
                Outcome::Invalid
            },
            InstrView::Unreachable => Outcome::Trap,
            InstrView::IfElse(t, then_, else_) => if stack.len() >= 1 {
                match stack.last() {
                    Value::I32(c) => {
                        let branch = if c != 0 { then_ } else { else_ };
                        match leave_label(run(env, fuel, branch, 0, Seq::empty(), locals, mem), stack.drop_last(), block_arity(t)) {
                            Outcome::Done(s, l, m) => run(env, fuel, instrs, i + 1, s, l, m),
                            other => other,
                        }
                    },
                    Value::I64(_) => Outcome::Invalid,
                }
            } else {
                Outcome::Invalid
            },
            InstrView::Load(t, offset) => if stack.len() >= 1 {
                match stack.last() {
                    Value::I32(a) => {
                        let ea = a + offset;
                        if ea + byte_width(t) <= mem.len() {
                            let v = decode(t, mem.subrange(ea, ea + byte_width(t)));
                            run(env, fuel, instrs, i + 1, stack.drop_last().push(v), locals, mem)
                        } else {
                            Outcome::Trap
                        }
                    },
                    Value::I64(_) => Outcome::Invalid,
                }
            } else {
                Outcome::Invalid
            },
            InstrView::Store(t, offset) => if stack.len() >= 2 {
                match (stack[stack.len() - 2], encode(t, stack.last())) {
                    (Value::I32(a), Some(bytes)) => {
                        let ea = a + offset;
                        if ea + byte_width(t) <= mem.len() {
                            let m = mem.subrange(0, ea) + bytes + mem.subrange(ea + byte_width(t), mem.len() as int);
                            run(env, fuel, instrs, i + 1, stack.drop_last().drop_last(), locals, m)
                        } else {
                            Outcome::Trap
                        }
                    },
                    _ => Outcome::Invalid,
                }
            } else {
                Outcome::Invalid
            },
            InstrView::Block(body) => match leave_label(run(env, fuel, body, 0, Seq::empty(), locals, mem), stack, 0) {
                Outcome::Done(s, l, m) => run(env, fuel, instrs, i + 1, s, l, m),
                other => other,
            },
            InstrView::Loop(body) => match run(env, fuel, body, 0, Seq::empty(), locals, mem) {
                Outcome::Break(d, l, m) => if d == 0 {
                    if fuel == 0 {
                        Outcome::Exhausted
                    } else {
                        run(env, (fuel - 1) as nat, instrs, i, stack, l, m)
                    }
                } else {
                    Outcome::Break((d - 1) as nat, l, m)
                },
                Outcome::Done(s, l, m) => if s.len() == 0 {
                    run(env, fuel, instrs, i + 1, stack, l, m)
                } else {
                    Outcome::Invalid
                },
                other => other,
            },
            InstrView::Br(d) => Outcome::Break(d as nat, locals, mem),
            InstrView::BrIf(d) => if stack.len() >= 1 {
                match stack.last() {
                    Value::I32(c) => if c != 0 {
                        Outcome::Break(d as nat, locals, mem)
                    } else {
                        run(env, fuel, instrs, i + 1, stack.drop_last(), locals, mem)
                    },
                    Value::I64(_) => Outcome::Invalid,
                }
            } else {
                Outcome::Invalid
            },
            InstrView::Return => Outcome::Return(stack, mem),
            InstrView::MemoryCopy => if stack.len() >= 3 {
                match (stack[stack.len() - 3], stack[stack.len() - 2], stack.last()) {
                    (Value::I32(d), Value::I32(s), Value::I32(n)) => if s + n <= mem.len() && d + n <= mem.len() {
                        let m = write_bytes(mem, d as int, mem.subrange(s as int, s + n));
                        run(env, fuel, instrs, i + 1, stack.drop_last().drop_last().drop_last(), locals, m)
                    } else {
                        Outcome::Trap
                    },
                    _ => Outcome::Invalid,
                }
            } else {
                Outcome::Invalid
            },
            InstrView::GlobalGet(_) | InstrView::GlobalSet(_) | InstrView::MemoryGrow => Outcome::Invalid,
        }
    }
}

/// Calls function `f` with the arguments `args` on the memory `mem`: its locals start as the
/// arguments followed by zeros, and it returns the values left on top of its operand stack.
pub open spec fn invoke(env: Seq<FunctionView>, fuel: nat, f: FunctionView, args: Seq<Value>, mem: Seq<u8>) -> Completion {
    let r = f.results.len();
    match run(env, fuel, f.body, 0, Seq::empty(), args + zeros(f.locals), mem) {
        Outcome::Done(s, _, m) => if s.len() == r { Completion::Returned(s, m) } else { Completion::Invalid },
        Outcome::Return(s, m) => if s.len() >= r {
            Completion::Returned(s.subrange(s.len() - r, s.len() as int), m)
        } else {
            Completion::Invalid
        },
        Outcome::Break(_, _, _) => Completion::Invalid,
        Outcome::Trap => Completion::Trapped,
        Outcome::Invalid => Completion::Invalid,
        Outcome::Exhausted => Completion::Exhausted,
    }
}

} // verus!

verus! {

/// A loop that runs only when the length in local `len` is not zero: a block that is left at
/// once on a zero length, and otherwise runs the loop `body`, which tests its counter at the end
/// of each turn.
pub open spec fn loop_unless_zero(len: u32, body: Seq<InstrView>) -> InstrView {
    InstrView::Block(loop_unless_zero_body(len, body))
}

/// The instructions of the block of `loop_unless_zero`.
pub open spec fn loop_unless_zero_body(len: u32, body: Seq<InstrView>) -> Seq<InstrView> {
    seq![
        InstrView::LocalGet(len),
        InstrView::I32Const(0),
        InstrView::Binop(BinaryOp::I32Eq),
        InstrView::BrIf(0),
        InstrView::Loop(body),
    ]
}

/// Appends `loop_unless_zero(len, body)`.
pub fn push_loop_unless_zero(instrs: &mut Vec<Instr>, len: u32, body: Vec<Instr>)
    ensures
        instrs_view(final(instrs)@) == instrs_view(old(instrs)@).push(loop_unless_zero(len, instrs_view(body@))),
{
    let ghost b = instrs_view(body@);
    let mut guarded: Vec<Instr> = Vec::new();
    push_instr(&mut guarded, Instr::LocalGet(len));
    push_instr(&mut guarded, Instr::I32Const(0));
    push_instr(&mut guarded, Instr::Binop(BinaryOp::I32Eq));
    push_instr(&mut guarded, Instr::BrIf(0));
    push_instr(&mut guarded, Instr::Loop(body));
    proof {
        assert(instrs_view(Seq::<Instr>::empty()) =~= Seq::<InstrView>::empty());
        assert(instrs_view(guarded@) =~= loop_unless_zero_body(len, b));
    }
    push_instr(instrs, Instr::Block(guarded));
}

/// Running `loop_unless_zero(len, body)` at position `j` of `b`, with `k` in local `len`: a
/// zero goes straight on to the next instruction; otherwise the loop runs from the fifth
/// instruction of the block, and what it ends with leaves the block.
pub proof fn lemma_loop_unless_zero(env: Seq<FunctionView>, fuel: nat, b: Seq<InstrView>, j: int, s: Seq<Value>, l: Seq<Value>, m: Seq<u8>, len: u32, body: Seq<InstrView>, k: u32)
    requires
        0 <= j < b.len(),
        b[j] == loop_unless_zero(len, body),
        len < l.len(),
        l[len as int] == Value::I32(k),
    ensures
        k == 0 ==> run(env, fuel, b, j, s, l, m) == run(env, fuel, b, j + 1, s, l, m),
        k != 0 ==> run(env, fuel, b, j, s, l, m) == match leave_label(run(env, fuel, loop_unless_zero_body(len, body), 4, Seq::empty(), l, m), s, 0) {
            Outcome::Done(s2, l2, m2) => run(env, fuel, b, j + 1, s2, l2, m2),
            other => other,
        },
{
    let g = loop_unless_zero_body(len, body);
    let e = Seq::<Value>::empty();
    let c = Value::I32(if k == 0 { 1 } else { 0 });
    assert(run(env, fuel, g, 0, e, l, m) == run(env, fuel, g, 1, e.push(Value::I32(k)), l, m));
    let s1 = e.push(Value::I32(k)).push(Value::I32(0));
    assert(run(env, fuel, g, 1, e.push(Value::I32(k)), l, m) == run(env, fuel, g, 2, s1, l, m));
    assert(s1.drop_last().drop_last() =~= e);
    assert(run(env, fuel, g, 2, s1, l, m) == run(env, fuel, g, 3, e.push(c), l, m));
    if k == 0 {
        assert(run(env, fuel, g, 3, e.push(c), l, m) == Outcome::Break(0, l, m));
        assert(s + e =~= s);
    } else {
        assert(e.push(c).drop_last() =~= e);
        assert(run(env, fuel, g, 3, e.push(c), l, m) == run(env, fuel, g, 4, e, l, m));
    }
}

/// Appends an instruction.
pub fn push_instr(instrs: &mut Vec<Instr>, i: Instr)
    ensures
        final(instrs)@ == old(instrs)@.push(i),
        instrs_view(final(instrs)@) == instrs_view(old(instrs)@).push(i@),
{
    proof {
        lemma_instrs_view_push(instrs@, i);
    }
    instrs.push(i);
}

} // verus!

verus! {

/// The arguments of a call of a one-parameter function.
pub open spec fn args1(a: Value) -> Seq<Value> {
    seq![a]
}

/// The arguments of a call of a two-parameter function.
pub open spec fn args2(a: Value, b: Value) -> Seq<Value> {
    seq![a, b]
}

} // verus!

verus! {

/// 256 to the power `n`.
pub open spec fn pow256(n: nat) -> nat
    decreases n,
{
    if n == 0 {
        1
    } else {
        256 * pow256((n - 1) as nat)
    }
}

/// The number that `n` bytes encode is below 256^n.
pub proof fn lemma_le_value_bound(bytes: Seq<u8>)
    ensures
        le_value(bytes) < pow256(bytes.len()),
    decreases bytes.len(),
{
    if bytes.len() > 0 {
        lemma_le_value_bound(bytes.subrange(1, bytes.len() as int));
    }
}

/// The bytes encode zero exactly when each of them is zero.
pub proof fn lemma_le_value_zero(bytes: Seq<u8>)
    ensures
        (le_value(bytes) == 0) == (forall|j: int| 0 <= j < bytes.len() ==> bytes[j] == 0),
    decreases bytes.len(),
{
    if bytes.len() > 0 {
        let rest = bytes.subrange(1, bytes.len() as int);
        lemma_le_value_zero(rest);
        if le_value(bytes) == 0 {
            assert forall|j: int| 0 <= j < bytes.len() implies bytes[j] == 0 by {
                if j > 0 {
                    assert(rest[j - 1] == bytes[j]);
                }
            }
        }
        if forall|j: int| 0 <= j < bytes.len() ==> bytes[j] == 0 {
            assert forall|j: int| 0 <= j < rest.len() implies rest[j] == 0 by {
                assert(rest[j] == bytes[j + 1]);
            }
        }
    }
}

/// Four bytes encode a number below 2^32, and eight a number below 2^64.
pub proof fn lemma_le_value_fits(bytes: Seq<u8>)
    ensures
        bytes.len() == 4 ==> le_value(bytes) <= u32::MAX,
        bytes.len() == 8 ==> le_value(bytes) <= u64::MAX,
{
    lemma_le_value_bound(bytes);
    reveal_with_fuel(pow256, 9);
}

} // verus!

verus! {

/// The number that two byte sequences encode one after the other: the second counts
/// `256^len` times the first's length.
pub proof fn lemma_le_value_concat(x: Seq<u8>, y: Seq<u8>)
    ensures
        le_value(x + y) == le_value(x) + pow256(x.len()) * le_value(y),
    decreases x.len(),
{
    if x.len() == 0 {
        assert(x + y =~= y);
        assert(le_value(x) == 0);
        assert(pow256(0) == 1);
    } else {
        let xs = x.subrange(1, x.len() as int);
        assert((x + y).subrange(1, (x + y).len() as int) =~= xs + y);
        assert((x + y)[0] == x[0]);
        lemma_le_value_concat(xs, y);
        let p = pow256(xs.len());
        let vy = le_value(y);
        assert(256 * (p * vy) == (256 * p) * vy) by (nonlinear_arith);
        assert(pow256(x.len()) == 256 * p);
        assert(le_value(x + y) == (x[0] + 256 * le_value(xs + y)) as nat);
        assert(le_value(x) == (x[0] + 256 * le_value(xs)) as nat);
        assert(le_value(xs + y) == le_value(xs) + p * vy);
        assert(256 * le_value(xs + y) == 256 * le_value(xs) + 256 * (p * vy));
        assert(le_value(x + y) == le_value(x) + (256 * p) * vy);
    }
}

/// Comparing two numbers of the same width that each have a low part of the same width and a
/// high part: the high parts decide, and the low parts when the high parts are equal.
pub proof fn lemma_le_value_compare(xl: Seq<u8>, xh: Seq<u8>, yl: Seq<u8>, yh: Seq<u8>)
    requires
        xl.len() == yl.len(),
    ensures
        le_value(xh) < le_value(yh) ==> le_value(xl + xh) < le_value(yl + yh),
        le_value(xh) > le_value(yh) ==> le_value(xl + xh) > le_value(yl + yh),
        le_value(xh) == le_value(yh) ==> ((le_value(xl + xh) < le_value(yl + yh)) == (le_value(xl) < le_value(yl))),
        le_value(xh) == le_value(yh) ==> ((le_value(xl + xh) == le_value(yl + yh)) == (le_value(xl) == le_value(yl))),
{
    lemma_le_value_concat(xl, xh);
    lemma_le_value_concat(yl, yh);
    lemma_le_value_bound(xl);
    lemma_le_value_bound(yl);
    let p = pow256(xl.len());
    let a = le_value(xl);
    let b = le_value(yl);
    let c = le_value(xh);
    let d = le_value(yh);
    assert(c < d ==> a + p * c < b + p * d) by (nonlinear_arith)
        requires
            a < p,
            b >= 0,
            c >= 0,
    ;
    assert(c > d ==> a + p * c > b + p * d) by (nonlinear_arith)
        requires
            b < p,
            a >= 0,
            d >= 0,
    ;
}

} // verus!

verus! {

/// The arguments of a call of a three-parameter function.
pub open spec fn args3(a: Value, b: Value, c: Value) -> Seq<Value> {
    seq![a, b, c]
}

} // verus!

verus! {

/// Powers of 256 are positive.
pub proof fn lemma_pow256_positive(n: nat)
    ensures
        pow256(n) > 0,
    decreases n,
{
    if n > 0 {
        lemma_pow256_positive((n - 1) as nat);
    }
}

/// 256^(m + n) is 256^m times 256^n.
pub proof fn lemma_pow256_add(m: nat, n: nat)
    ensures
        pow256(m + n) == pow256(m) * pow256(n),
    decreases m,
{
    if m > 0 {
        lemma_pow256_add((m - 1) as nat, n);
        let a = pow256((m - 1) as nat);
        let b = pow256(n);
        let k = ((m - 1) as nat + n) as nat;
        assert(k == (m + n - 1) as nat);
        assert(pow256(m + n) == 256 * pow256(k));
        assert(pow256(k) == a * b);
        assert(pow256(m) == 256 * a);
        assert(256 * (a * b) == (256 * a) * b) by (nonlinear_arith);
        assert(pow256(m + n) == pow256(m) * pow256(n));
    } else {
        assert(m + n == n);
        assert(pow256(m) == 1);
        assert(pow256(m + n) == pow256(m) * pow256(n));
    }
}

/// 256^8 is 2^64.
pub proof fn lemma_pow256_8()
    ensures
        pow256(8) == 0x1_0000_0000_0000_0000,
{
    reveal_with_fuel(pow256, 9);
}

/// `le_bytes(v, n)` has `n` bytes.
pub proof fn lemma_le_bytes_len(v: nat, n: nat)
    ensures
        le_bytes(v, n).len() == n,
    decreases n,
{
    if n > 0 {
        lemma_le_bytes_len(v / 256, (n - 1) as nat);
    }
}

/// The bytes that encode `v` in `n` bytes encode `v` modulo 256^n.
pub proof fn lemma_le_value_of_bytes(v: nat, n: nat)
    ensures
        le_value(le_bytes(v, n)) == v % pow256(n),
    decreases n,
{
    if n == 0 {
        assert(v % 1 == 0);
    } else {
        let rest = le_bytes(v / 256, (n - 1) as nat);
        lemma_le_value_of_bytes(v / 256, (n - 1) as nat);
        let bytes = le_bytes(v, n);
        assert(bytes == seq![(v % 256) as u8] + rest);
        assert(bytes.subrange(1, bytes.len() as int) =~= rest);
        lemma_pow256_positive((n - 1) as nat);
        let p = pow256((n - 1) as nat);
        vstd::arithmetic::div_mod::lemma_breakdown(v as int, 256, p as int);
        assert(pow256(n) == 256 * p);
    }
}

} // verus!

verus! {

/// `x` modulo 2^64, for `x` within one wrap-around of the range of `u64`.
pub proof fn lemma_wrap64_range(x: int)
    requires
        -0x1_0000_0000_0000_0000 <= x < 0x2_0000_0000_0000_0000,
    ensures
        wrap64(x) == if x < 0 {
            x + 0x1_0000_0000_0000_0000
        } else if x >= 0x1_0000_0000_0000_0000 {
            x - 0x1_0000_0000_0000_0000
        } else {
            x
        },
{
    let m: int = 0x1_0000_0000_0000_0000;
    if x < 0 {
        vstd::arithmetic::div_mod::lemma_fundamental_div_mod(x, m);
        assert(x % m == x + m) by {
            vstd::arithmetic::div_mod::lemma_mod_add_multiples_vanish(x, m);
            vstd::arithmetic::div_mod::lemma_small_mod((x + m) as nat, m as nat);
        }
    } else if x >= m {
        vstd::arithmetic::div_mod::lemma_mod_sub_multiples_vanish(x, m);
        vstd::arithmetic::div_mod::lemma_small_mod((x - m) as nat, m as nat);
    } else {
        vstd::arithmetic::div_mod::lemma_small_mod(x as nat, m as nat);
    }
}

} // verus!

verus! {

/// The arguments of a call of a four-parameter function.
pub open spec fn args4(a: Value, b: Value, c: Value, d: Value) -> Seq<Value> {
    seq![a, b, c, d]
}

} // verus!

verus! {

/// `mem` with `bytes` written from address `at` on.
pub open spec fn write_bytes(mem: Seq<u8>, at: int, bytes: Seq<u8>) -> Seq<u8> {
    mem.subrange(0, at) + bytes + mem.subrange(at + bytes.len(), mem.len() as int)
}

/// The `u32` stored little-endian at address `at`.
pub open spec fn load_u32(mem: Seq<u8>, at: int) -> u32 {
    le_value(mem.subrange(at, at + 4)) as u32
}

/// `mem` with the `u32` `v` stored little-endian at address `at`.
pub open spec fn store_u32(mem: Seq<u8>, at: int, v: u32) -> Seq<u8> {
    write_bytes(mem, at, le_bytes(v as nat, 4))
}

/// The bytes of a number are the bytes it was read from.
pub proof fn lemma_le_bytes_of_value(bytes: Seq<u8>)
    ensures
        le_bytes(le_value(bytes), bytes.len()) == bytes,
    decreases bytes.len(),
{
    if bytes.len() > 0 {
        let rest = bytes.subrange(1, bytes.len() as int);
        lemma_le_bytes_of_value(rest);
        let v = le_value(bytes);
        assert(v == bytes[0] + 256 * le_value(rest));
        assert(v % 256 == bytes[0]) by (nonlinear_arith)
            requires
                v == bytes[0] + 256 * le_value(rest),
                0 <= bytes[0] < 256,
        ;
        assert(v / 256 == le_value(rest)) by (nonlinear_arith)
            requires
                v == bytes[0] + 256 * le_value(rest),
                0 <= bytes[0] < 256,
        ;
        assert(le_bytes(v, bytes.len()) =~= seq![bytes[0]] + rest);
        assert(seq![bytes[0]] + rest =~= bytes);
    }
}

/// Writing bytes inside the memory keeps its length, puts the bytes in place and leaves every
/// other byte as it was.
pub proof fn lemma_write_bytes(mem: Seq<u8>, at: int, bytes: Seq<u8>)
    requires
        0 <= at,
        at + bytes.len() <= mem.len(),
    ensures
        write_bytes(mem, at, bytes).len() == mem.len(),
        write_bytes(mem, at, bytes).subrange(at, at + bytes.len()) == bytes,
        forall|j: int| 0 <= j < mem.len() && !(at <= j < at + bytes.len())
            ==> #[trigger] write_bytes(mem, at, bytes)[j] == mem[j],
        forall|j: int| at <= j < at + bytes.len() ==> #[trigger] write_bytes(mem, at, bytes)[j] == bytes[j - at],
{
    let w = write_bytes(mem, at, bytes);
    assert(w.subrange(at, at + bytes.len()) =~= bytes);
}

/// The bytes from `q` to `q + n` are kept by a write that does not overlap them.
pub proof fn lemma_write_bytes_elsewhere(mem: Seq<u8>, at: int, bytes: Seq<u8>, q: int, n: int)
    requires
        0 <= at,
        at + bytes.len() <= mem.len(),
        0 <= q,
        0 <= n,
        q + n <= mem.len(),
        q + n <= at || at + bytes.len() <= q,
    ensures
        write_bytes(mem, at, bytes).subrange(q, q + n) == mem.subrange(q, q + n),
{
    lemma_write_bytes(mem, at, bytes);
    assert(write_bytes(mem, at, bytes).subrange(q, q + n) =~= mem.subrange(q, q + n));
}

/// A store of a `u32` inside the memory keeps its length, and a load at the same address gives
/// the value back.
pub proof fn lemma_store_u32(mem: Seq<u8>, at: int, v: u32)
    requires
        0 <= at,
        at + 4 <= mem.len(),
    ensures
        store_u32(mem, at, v).len() == mem.len(),
        load_u32(store_u32(mem, at, v), at) == v,
{
    let b = le_bytes(v as nat, 4);
    lemma_le_bytes_len(v as nat, 4);
    lemma_write_bytes(mem, at, b);
    lemma_le_value_of_bytes(v as nat, 4);
    assert(pow256(4) == 0x1_0000_0000) by {
        reveal_with_fuel(pow256, 5);
    }
    assert(store_u32(mem, at, v).subrange(at, at + 4) == b);
    assert(le_value(b) == v);
}

/// Storing a value loaded from some bytes writes those bytes back.
pub proof fn lemma_encode_decode(t: ValType, bytes: Seq<u8>)
    requires
        bytes.len() == byte_width(t),
    ensures
        encode(t, decode(t, bytes)) == Some(bytes),
{
    lemma_le_value_fits(bytes);
    lemma_le_bytes_of_value(bytes);
}

/// A call of the first function of `env`, which takes one value, on the value on top of the
/// stack, when a call of it on that value returns `y` with the memory `m`.
pub proof fn lemma_call_first(env: Seq<FunctionView>, fuel: nat, mem: Seq<u8>, b: Seq<InstrView>, i: int, below: Seq<Value>, l: Seq<Value>, x: Value, y: Value, m: Seq<u8>)
    requires
        env.len() >= 1,
        env[0].params.len() == 1,
        0 <= i < b.len(),
        b[i] == InstrView::Call(0),
        invoke(env.take(0), fuel, env[0], seq![x], mem) == Completion::Returned(seq![y], m),
    ensures
        run(env, fuel, b, i, below.push(x), l, mem) == run(env, fuel, b, i + 1, below.push(y), l, m),
{
    let callee = env[0];
    let stack = below.push(x);
    assert(stack.subrange(below.len() as int, stack.len() as int) =~= seq![x]);
    assert(stack.subrange(0, below.len() as int) =~= below);
    let o = run(env.take(0), fuel, callee.body, 0, Seq::empty(), seq![x] + zeros(callee.locals), mem);
    match o {
        Outcome::Done(s, _, m2) => {
            assert(below + s =~= below.push(y));
        },
        Outcome::Return(s, m2) => {
            assert(below + s.subrange(s.len() - 1, s.len() as int) =~= below.push(y));
        },
        _ => {},
    }
}

/// The last instruction of a sequence calls function `k` of `env`, which takes exactly the
/// values on the stack and returns none: the sequence ends as that call does.
#[verifier::rlimit(30)]
pub proof fn lemma_call_at_end(env: Seq<FunctionView>, fuel: nat, mem: Seq<u8>, b: Seq<InstrView>, i: int, stack: Seq<Value>, l: Seq<Value>, k: u32)
    requires
        0 <= i,
        b.len() == i + 1,
        b[i] == InstrView::Call(k),
        k < env.len(),
        env[k as int].params.len() == stack.len(),
        env[k as int].results.len() == 0,
    ensures
        run(env, fuel, b, i, stack, l, mem) == match invoke(env.take(k as int), fuel, env[k as int], stack, mem) {
            Completion::Returned(_, m) => Outcome::Done(Seq::empty(), l, m),
            Completion::Trapped => Outcome::Trap,
            Completion::Invalid => Outcome::Invalid,
            Completion::Exhausted => Outcome::Exhausted,
        },
{
    let callee = env[k as int];
    assert(stack.subrange(0, stack.len() as int) =~= stack);
    assert(stack.subrange(0, 0) =~= Seq::<Value>::empty());
    let o = run(env.take(k as int), fuel, callee.body, 0, Seq::empty(), stack + zeros(callee.locals), mem);
    match o {
        Outcome::Done(s2, _, m) => {
            if s2.len() == 0 {
                assert(Seq::<Value>::empty() + s2 =~= Seq::<Value>::empty());
                assert(run(env, fuel, b, i + 1, Seq::empty(), l, m) == Outcome::Done(Seq::empty(), l, m));
            }
        },
        Outcome::Return(s2, m) => {
            assert(Seq::<Value>::empty() + s2.subrange(s2.len() - 0, s2.len() as int) =~= Seq::<Value>::empty());
            assert(run(env, fuel, b, i + 1, Seq::empty(), l, m) == Outcome::Done(Seq::empty(), l, m));
        },
        _ => {},
    }
}

/// A call of function `k` of `env` on the arguments on top of the stack, when a call of it on
/// those arguments returns `results` with the memory `m`.
pub proof fn lemma_call_returning(env: Seq<FunctionView>, fuel: nat, mem: Seq<u8>, b: Seq<InstrView>, i: int, below: Seq<Value>, l: Seq<Value>, k: u32, args: Seq<Value>, results: Seq<Value>, m: Seq<u8>)
    requires
        k < env.len(),
        env[k as int].params.len() == args.len(),
        0 <= i < b.len(),
        b[i] == InstrView::Call(k),
        invoke(env.take(k as int), fuel, env[k as int], args, mem) == Completion::Returned(results, m),
    ensures
        run(env, fuel, b, i, below + args, l, mem) == run(env, fuel, b, i + 1, below + results, l, m),
{
    let callee = env[k as int];
    let stack = below + args;
    assert(stack.subrange(below.len() as int, stack.len() as int) =~= args);
    assert(stack.subrange(0, below.len() as int) =~= below);
    let o = run(env.take(k as int), fuel, callee.body, 0, Seq::empty(), args + zeros(callee.locals), mem);
    match o {
        Outcome::Return(s2, m2) => {
            assert(s2.subrange(s2.len() - callee.results.len(), s2.len() as int) == results);
        },
        _ => {},
    }
}

/// The instructions of `code` stand in `b` from position `i` on.
pub proof fn lemma_snippet(b: Seq<InstrView>, i: int, code: Seq<InstrView>)
    requires
        0 <= i,
        i + code.len() <= b.len(),
        b.subrange(i, i + code.len()) == code,
    ensures
        forall|j: int| 0 <= j < code.len() ==> #[trigger] b[i + j] == code[j],
{
    assert forall|j: int| 0 <= j < code.len() implies #[trigger] b[i + j] == code[j] by {
        assert(b.subrange(i, i + code.len())[j] == b[i + j]);
    }
}

/// The number that the bytes encode, the first byte being the most significant.
pub open spec fn be_value(bytes: Seq<u8>) -> nat {
    le_value(bytes.reverse())
}

} // verus!
