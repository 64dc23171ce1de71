//! Runtime functions that find where an object is kept in storage.
use vstd::prelude::*;

use crate::runtime::{RuntimeFunction, runtime_function_name};
use crate::wasm::{
    BinaryOp, Completion, FunctionBody, FunctionView, Instr, InstrView, Outcome, ValType, Value,
    args1, args2, args3, invoke, lemma_call_at_end, lemma_call_first, lemma_le_value_fits,
    lemma_write_bytes, load_u32, push_instr, run, wrap32, write_bytes, zeros,
};

verus! {

/// The instructions of the function `get_id_bytes_ptr`.
pub open spec fn get_id_bytes_ptr_code() -> FunctionView {
    FunctionView {
        name: runtime_function_name(RuntimeFunction::GetIdBytesPtr),
        params: seq![ValType::I32],
        results: seq![ValType::I32],
        locals: seq![],
        body: seq![
            InstrView::LocalGet(0),
            InstrView::Load(ValType::I32, 0),
            InstrView::Load(ValType::I32, 0),
            InstrView::Load(ValType::I32, 0),
        ],
    }
}

/// What `get_id_bytes_ptr` gives for the struct at `s`: its first field points to the `UID`
/// struct, whose field points to the `ID` struct, whose field points to the 32 bytes of the id;
/// a trap when one of the pointers lies outside the memory.
pub open spec fn id_bytes_ptr_result(mem: Seq<u8>, s: u32) -> Completion {
    let uid = load_u32(mem, s as int);
    let id = load_u32(mem, uid as int);
    if s + 4 > mem.len() || uid + 4 > mem.len() || id + 4 > mem.len() {
        Completion::Trapped
    } else {
        Completion::Returned(args1(Value::I32(load_u32(mem, id as int))), mem)
    }
}

/// `get_id_bytes_ptr` follows the chain of pointers from a struct to the bytes of its id.
#[verifier::rlimit(30)]
pub proof fn law_get_id_bytes_ptr(env: Seq<FunctionView>, fuel: nat, mem: Seq<u8>, s: u32)
    ensures
        invoke(env, fuel, get_id_bytes_ptr_code(), args1(Value::I32(s)), mem) == id_bytes_ptr_result(mem, s),
{
    let code = get_id_bytes_ptr_code();
    let b = code.body;
    let e = Seq::<Value>::empty();
    let l = args1(Value::I32(s));
    assert(l + zeros(code.locals) =~= l);
    let uid = load_u32(mem, s as int);
    let id = load_u32(mem, uid as int);
    let bytes = load_u32(mem, id as int);
    assert(run(env, fuel, b, 0, e, l, mem) == run(env, fuel, b, 1, e.push(Value::I32(s)), l, mem));
    assert(e.push(Value::I32(s)).drop_last() =~= e);
    if s + 4 <= mem.len() {
        lemma_le_value_fits(mem.subrange(s as int, s + 4));
        assert(run(env, fuel, b, 1, e.push(Value::I32(s)), l, mem) == run(env, fuel, b, 2, e.push(Value::I32(uid)), l, mem));
        assert(e.push(Value::I32(uid)).drop_last() =~= e);
        if uid + 4 <= mem.len() {
            lemma_le_value_fits(mem.subrange(uid as int, uid + 4));
            assert(run(env, fuel, b, 2, e.push(Value::I32(uid)), l, mem) == run(env, fuel, b, 3, e.push(Value::I32(id)), l, mem));
            assert(e.push(Value::I32(id)).drop_last() =~= e);
            if id + 4 <= mem.len() {
                lemma_le_value_fits(mem.subrange(id as int, id + 4));
                assert(run(env, fuel, b, 3, e.push(Value::I32(id)), l, mem) == run(env, fuel, b, 4, e.push(Value::I32(bytes)), l, mem));
                assert(e.push(Value::I32(bytes)) =~= args1(Value::I32(bytes)));
            }
        }
    }
}

/// Builds the function that returns the address of the 32 bytes of the id of the struct whose
/// address it takes: the struct's first field is its `UID`, whose only field is an `ID`, whose
/// only field is the bytes.
#[verifier::rlimit(30)]
pub fn get_id_bytes_ptr() -> (r: FunctionBody)
    ensures
        r@ == get_id_bytes_ptr_code(),
        forall|env: Seq<FunctionView>, fuel: nat, mem: Seq<u8>, s: u32|
            #[trigger] invoke(env, fuel, r@, args1(Value::I32(s)), mem) == id_bytes_ptr_result(mem, s),
{
    let mut body: Vec<Instr> = Vec::new();
    push_instr(&mut body, Instr::LocalGet(0));
    // The pointer to the UID struct
    push_instr(&mut body, Instr::Load(ValType::I32, 0));
    // The pointer to the ID struct
    push_instr(&mut body, Instr::Load(ValType::I32, 0));
    // The pointer to the bytes
    push_instr(&mut body, Instr::Load(ValType::I32, 0));
    let r = FunctionBody {
        name: String::from_str(RuntimeFunction::GetIdBytesPtr.name()),
        params: vec![ValType::I32],
        results: vec![ValType::I32],
        locals: Vec::new(),
        body,
    };
    proof {
        let code = get_id_bytes_ptr_code();
        assert(r@.params =~= code.params);
        assert(r@.results =~= code.results);
        assert(r@.locals =~= code.locals);
        assert(r@.body =~= code.body);
        assert forall|env: Seq<FunctionView>, fuel: nat, mem: Seq<u8>, s: u32|
            #[trigger] invoke(env, fuel, r@, args1(Value::I32(s)), mem) == id_bytes_ptr_result(mem, s) by {
            law_get_id_bytes_ptr(env, fuel, mem, s);
        }
    }
    r
}

/// The instructions of the function `locate_struct_slot`.
pub open spec fn locate_struct_slot_code() -> FunctionView {
    FunctionView {
        name: runtime_function_name(RuntimeFunction::LocateStructSlot),
        params: seq![ValType::I32],
        results: seq![],
        locals: seq![],
        body: seq![
            InstrView::LocalGet(0),
            InstrView::I32Const(32),
            InstrView::Binop(BinaryOp::I32Sub),
            InstrView::LocalGet(0),
            InstrView::Call(0),
            InstrView::Call(1),
        ],
    }
}

/// `locate_struct_slot` on the struct at `s`, with `get_id_bytes_ptr` and `write_object_slot` as
/// the functions it calls: it does what `write_object_slot` does on the owner's id, kept in the
/// 32 bytes before the struct, and the address of the struct's id.
#[verifier::rlimit(30)]
pub proof fn law_locate_struct_slot(env: Seq<FunctionView>, fuel: nat, mem: Seq<u8>, s: u32)
    requires
        env.len() >= 2,
        env[0] == get_id_bytes_ptr_code(),
        env[1].params.len() == 2,
        env[1].results.len() == 0,
        id_bytes_ptr_result(mem, s) is Returned,
    ensures
        invoke(env, fuel, locate_struct_slot_code(), args1(Value::I32(s)), mem)
            == invoke(env.take(1), fuel, env[1], args2(Value::I32(wrap32(s - 32)), id_bytes_ptr_result(mem, s)->Returned_0[0]), mem),
{
    let code = locate_struct_slot_code();
    let b = code.body;
    let e = Seq::<Value>::empty();
    let l = args1(Value::I32(s));
    assert(l + zeros(code.locals) =~= l);
    let owner = Value::I32(wrap32(s - 32));
    let id = id_bytes_ptr_result(mem, s)->Returned_0[0];
    assert(run(env, fuel, b, 0, e, l, mem) == run(env, fuel, b, 1, e.push(Value::I32(s)), l, mem));
    assert(run(env, fuel, b, 1, e.push(Value::I32(s)), l, mem)
        == run(env, fuel, b, 2, e.push(Value::I32(s)).push(Value::I32(32)), l, mem));
    assert(e.push(Value::I32(s)).push(Value::I32(32)).drop_last().drop_last() =~= e);
    assert(run(env, fuel, b, 2, e.push(Value::I32(s)).push(Value::I32(32)), l, mem) == run(env, fuel, b, 3, e.push(owner), l, mem));
    assert(run(env, fuel, b, 3, e.push(owner), l, mem) == run(env, fuel, b, 4, e.push(owner).push(Value::I32(s)), l, mem));
    law_get_id_bytes_ptr(env.take(0), fuel, mem, s);
    assert(env.take(0) =~= Seq::<FunctionView>::empty());
    lemma_call_first(env, fuel, mem, b, 4, e.push(owner), l, Value::I32(s), id, mem);
    let stack = e.push(owner).push(id);
    let args = args2(owner, id);
    let callee = env[1];
    assert(stack.subrange(0, 2) + zeros(callee.locals) =~= args + zeros(callee.locals));
    assert(stack.subrange(0, 0) =~= e);
    let o = run(env.take(1), fuel, callee.body, 0, Seq::empty(), args + zeros(callee.locals), mem);
    match o {
        Outcome::Done(s2, _, m) => {
            if s2.len() == 0 {
                assert(e + s2 =~= e);
                assert(run(env, fuel, b, 6, e, l, m) == Outcome::Done(e, l, m));
            }
        },
        Outcome::Return(s2, m) => {
            assert(e + s2.subrange(s2.len() - 0, s2.len() as int) =~= e);
            assert(s2.subrange(s2.len() - 0, s2.len() as int) =~= e);
            assert(run(env, fuel, b, 6, e, l, m) == Outcome::Done(e, l, m));
        },
        _ => {},
    }
}

/// Builds the function that computes where the struct whose address it takes is kept in
/// storage: it calls `get_id_bytes_ptr`, its first callee, for the address of the struct's id,
/// and `write_object_slot`, its second, with the address of the owner's id, kept in the 32
/// bytes before the struct (`law_locate_struct_slot` states what a call does).
#[verifier::rlimit(30)]
pub fn locate_struct_slot() -> (r: FunctionBody)
    ensures
        r@ == locate_struct_slot_code(),
{
    let mut body: Vec<Instr> = Vec::new();
    // The owner's id is kept just before the struct
    push_instr(&mut body, Instr::LocalGet(0));
    push_instr(&mut body, Instr::I32Const(32));
    push_instr(&mut body, Instr::Binop(BinaryOp::I32Sub));
    // The id of the struct
    push_instr(&mut body, Instr::LocalGet(0));
    push_instr(&mut body, Instr::Call(0));
    // Compute the slot where it should be saved
    push_instr(&mut body, Instr::Call(1));
    let r = FunctionBody {
        name: String::from_str(RuntimeFunction::LocateStructSlot.name()),
        params: vec![ValType::I32],
        results: Vec::new(),
        locals: Vec::new(),
        body,
    };
    proof {
        let code = locate_struct_slot_code();
        assert(r@.params =~= code.params);
        assert(r@.results =~= code.results);
        assert(r@.locals =~= code.locals);
        assert(r@.body =~= code.body);
    }
    r
}

/// The instructions of the function `derive_mapping_slot`.
pub open spec fn derive_mapping_slot_code() -> FunctionView {
    FunctionView {
        name: runtime_function_name(RuntimeFunction::DeriveMappingSlot),
        params: seq![ValType::I32, ValType::I32, ValType::I32],
        results: seq![],
        locals: seq![ValType::I32],
        body: seq![
            InstrView::I32Const(64),
            InstrView::Call(0),
            InstrView::LocalSet(3),
            InstrView::LocalGet(3),
            InstrView::LocalGet(1),
            InstrView::I32Const(32),
            InstrView::MemoryCopy,
            InstrView::LocalGet(3),
            InstrView::I32Const(32),
            InstrView::Binop(BinaryOp::I32Add),
            InstrView::LocalGet(0),
            InstrView::I32Const(32),
            InstrView::MemoryCopy,
            InstrView::LocalGet(3),
            InstrView::I32Const(64),
            InstrView::LocalGet(2),
            InstrView::Call(1),
        ],
    }
}

/// The memory once the 32 bytes of the key at `key`, then the 32 bytes of the mapping's slot at
/// `slot`, are copied to the 64 bytes at `data`: the data whose hash is the derived slot.
pub open spec fn mapping_hash_input(m: Seq<u8>, data: u32, key: u32, slot: u32) -> Seq<u8> {
    let m1 = write_bytes(m, data as int, m.subrange(key as int, key + 32));
    write_bytes(m1, data + 32, m1.subrange(slot as int, slot + 32))
}

/// The two copies of `derive_mapping_slot`: the key, then the mapping's slot, to the data to
/// hash.
#[verifier::rlimit(80)]
proof fn lemma_mapping_copies(env: Seq<FunctionView>, fuel: nat, m1: Seq<u8>, slot: u32, key: u32, derived: u32, data: u32)
    requires
        data + 64 <= m1.len(),
        data + 64 <= u32::MAX,
        key + 32 <= m1.len(),
        slot + 32 <= m1.len(),
    ensures
        run(env, fuel, derive_mapping_slot_code().body, 3, Seq::empty(), seq![Value::I32(slot), Value::I32(key), Value::I32(derived), Value::I32(data)], m1)
            == run(env, fuel, derive_mapping_slot_code().body, 13, Seq::empty(), seq![Value::I32(slot), Value::I32(key), Value::I32(derived), Value::I32(data)], mapping_hash_input(m1, data, key, slot)),
{
    let b = derive_mapping_slot_code().body;
    let e = Seq::<Value>::empty();
    let l1 = seq![Value::I32(slot), Value::I32(key), Value::I32(derived), Value::I32(data)];
    // Copy the key
    let d = Value::I32(data);
    let sa = e.push(d).push(Value::I32(key)).push(Value::I32(32));
    assert(run(env, fuel, b, 3, e, l1, m1) == run(env, fuel, b, 4, e.push(d), l1, m1));
    assert(run(env, fuel, b, 4, e.push(d), l1, m1) == run(env, fuel, b, 5, e.push(d).push(Value::I32(key)), l1, m1));
    assert(run(env, fuel, b, 5, e.push(d).push(Value::I32(key)), l1, m1) == run(env, fuel, b, 6, sa, l1, m1));
    let ma = write_bytes(m1, data as int, m1.subrange(key as int, key + 32));
    lemma_write_bytes(m1, data as int, m1.subrange(key as int, key + 32));
    assert(sa.drop_last().drop_last().drop_last() =~= e);
    assert(run(env, fuel, b, 6, sa, l1, m1) == run(env, fuel, b, 7, e, l1, ma));
    // Copy the mapping's slot after it
    let d2 = Value::I32((data + 32) as u32);
    assert(run(env, fuel, b, 7, e, l1, ma) == run(env, fuel, b, 8, e.push(d), l1, ma));
    assert(run(env, fuel, b, 8, e.push(d), l1, ma) == run(env, fuel, b, 9, e.push(d).push(Value::I32(32)), l1, ma));
    assert(e.push(d).push(Value::I32(32)).drop_last().drop_last() =~= e);
    assert(run(env, fuel, b, 9, e.push(d).push(Value::I32(32)), l1, ma) == run(env, fuel, b, 10, e.push(d2), l1, ma));
    let sb = e.push(d2).push(Value::I32(slot)).push(Value::I32(32));
    assert(run(env, fuel, b, 10, e.push(d2), l1, ma) == run(env, fuel, b, 11, e.push(d2).push(Value::I32(slot)), l1, ma));
    assert(run(env, fuel, b, 11, e.push(d2).push(Value::I32(slot)), l1, ma) == run(env, fuel, b, 12, sb, l1, ma));
    let mb = mapping_hash_input(m1, data, key, slot);
    assert(sb.drop_last().drop_last().drop_last() =~= e);
    assert(run(env, fuel, b, 12, sb, l1, ma) == run(env, fuel, b, 13, e, l1, mb));
}

/// `derive_mapping_slot` on the mapping's slot at `slot`, the key at `key` and the address
/// `derived` of the result, with the allocator and the keccak-256 host function as the
/// functions it calls: it copies the key and the slot, in that order, to the 64 bytes the
/// allocator returns, and ends as the hash function does on those 64 bytes and `derived`.
#[verifier::rlimit(80)]
pub proof fn law_derive_mapping_slot(env: Seq<FunctionView>, fuel: nat, mem: Seq<u8>, slot: u32, key: u32, derived: u32, data: u32, m1: Seq<u8>)
    requires
        env.len() >= 2,
        env[0].params.len() == 1,
        invoke(env.take(0), fuel, env[0], args1(Value::I32(64)), mem) == Completion::Returned(args1(Value::I32(data)), m1),
        data + 64 <= m1.len(),
        data + 64 <= u32::MAX,
        key + 32 <= m1.len(),
        slot + 32 <= m1.len(),
        env[1].params.len() == 3,
        env[1].results.len() == 0,
    ensures
        invoke(env, fuel, derive_mapping_slot_code(), args3(Value::I32(slot), Value::I32(key), Value::I32(derived)), mem)
            == invoke(env.take(1), fuel, env[1], args3(Value::I32(data), Value::I32(64), Value::I32(derived)), mapping_hash_input(m1, data, key, slot)),
{
    let code = derive_mapping_slot_code();
    let b = code.body;
    let e = Seq::<Value>::empty();
    let l0 = seq![Value::I32(slot), Value::I32(key), Value::I32(derived), Value::I32(0)];
    assert(args3(Value::I32(slot), Value::I32(key), Value::I32(derived)) + zeros(code.locals) =~= l0);
    assert(run(env, fuel, b, 0, e, l0, mem) == run(env, fuel, b, 1, e.push(Value::I32(64)), l0, mem));
    lemma_call_first(env, fuel, mem, b, 1, e, l0, Value::I32(64), Value::I32(data), m1);
    let l1 = l0.update(3, Value::I32(data));
    assert(l1 =~= seq![Value::I32(slot), Value::I32(key), Value::I32(derived), Value::I32(data)]);
    assert(e.push(Value::I32(data)).drop_last() =~= e);
    assert(run(env, fuel, b, 2, e.push(Value::I32(data)), l0, m1) == run(env, fuel, b, 3, e, l1, m1));
    lemma_mapping_copies(env, fuel, m1, slot, key, derived, data);
    let mb = mapping_hash_input(m1, data, key, slot);
    let d = Value::I32(data);
    // Hash the 64 bytes into the derived slot
    let sc = e.push(d).push(Value::I32(64)).push(Value::I32(derived));
    assert(run(env, fuel, b, 13, e, l1, mb) == run(env, fuel, b, 14, e.push(d), l1, mb));
    assert(run(env, fuel, b, 14, e.push(d), l1, mb) == run(env, fuel, b, 15, e.push(d).push(Value::I32(64)), l1, mb));
    assert(run(env, fuel, b, 15, e.push(d).push(Value::I32(64)), l1, mb) == run(env, fuel, b, 16, sc, l1, mb));
    assert(sc =~= args3(Value::I32(data), Value::I32(64), Value::I32(derived)));
    lemma_call_at_end(env, fuel, mb, b, 16, sc, l1, 1);
    let callee = env[1];
    let o = run(env.take(1), fuel, callee.body, 0, Seq::empty(), sc + zeros(callee.locals), mb);
    match o {
        Outcome::Done(s2, _, m) => {
            if s2.len() == 0 {
                assert(s2 =~= Seq::<Value>::empty());
            }
        },
        Outcome::Return(s2, m) => {
            assert(s2.subrange(s2.len() - 0, s2.len() as int) =~= Seq::<Value>::empty());
        },
        _ => {},
    }
}

/// Builds the function that derives the storage slot of a mapping's value, as Solidity lays out
/// mappings: it takes the addresses of the mapping's slot, of the key and of the 32 bytes for
/// the result, and hashes the key followed by the slot with keccak-256 into the result. The 64
/// bytes hashed come from the allocator, its first callee; the hash function is its second
/// (`law_derive_mapping_slot` states what a call does).
#[verifier::rlimit(30)]
pub fn derive_mapping_slot() -> (r: FunctionBody)
    ensures
        r@ == derive_mapping_slot_code(),
{
    let mut body: Vec<Instr> = Vec::new();
    // Room for the data to hash
    push_instr(&mut body, Instr::I32Const(64));
    push_instr(&mut body, Instr::Call(0));
    push_instr(&mut body, Instr::LocalSet(3));
    // The key first
    push_instr(&mut body, Instr::LocalGet(3));
    push_instr(&mut body, Instr::LocalGet(1));
    push_instr(&mut body, Instr::I32Const(32));
    push_instr(&mut body, Instr::MemoryCopy);
    // Then the mapping's slot
    push_instr(&mut body, Instr::LocalGet(3));
    push_instr(&mut body, Instr::I32Const(32));
    push_instr(&mut body, Instr::Binop(BinaryOp::I32Add));
    push_instr(&mut body, Instr::LocalGet(0));
    push_instr(&mut body, Instr::I32Const(32));
    push_instr(&mut body, Instr::MemoryCopy);
    // Hash them into the derived slot
    push_instr(&mut body, Instr::LocalGet(3));
    push_instr(&mut body, Instr::I32Const(64));
    push_instr(&mut body, Instr::LocalGet(2));
    push_instr(&mut body, Instr::Call(1));
    let r = FunctionBody {
        name: String::from_str(RuntimeFunction::DeriveMappingSlot.name()),
        params: vec![ValType::I32, ValType::I32, ValType::I32],
        results: Vec::new(),
        locals: vec![ValType::I32],
        body,
    };
    proof {
        let code = derive_mapping_slot_code();
        assert(r@.params =~= code.params);
        assert(r@.results =~= code.results);
        assert(r@.locals =~= code.locals);
        assert(r@.body =~= code.body);
    }
    r
}

} // verus!
