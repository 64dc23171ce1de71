//! The layout of ABI encoded values: the size of each value in the head of a tuple, and which
//! values are dynamic.
//!
//! A tuple `(T1, ..., Tk)` is encoded as a head, in which each static value is written in place
//! and each dynamic value is an offset to where its data is written, followed by the data of the
//! dynamic values.
use vstd::prelude::*;

pub mod pack_enum;
pub mod pack_heap_int;
pub mod pack_native_int;
pub mod pack_reference;
pub mod pack_struct;
pub mod pack_vector;

use alloy_sol_types::{SolType, sol_data};

use crate::compilation_context::CompilationContext;
use crate::intermediate_types::{IEnum, IType, IntermediateType};
use crate::wasm::{BinaryOp, Instr, InstrView, ValType, instrs_view, loop_unless_zero, push_instr};
use crate::intermediate_types::{IAddress, IU128, IU256};
use pack_enum::pack_enum_code;
use pack_heap_int::{pack_address_code, pack_u128_code, pack_u256_code};
use pack_native_int::{pack_i32_code, pack_i64_code, pack_i32_type_instructions, pack_i64_type_instructions};
use pack_reference::{IMutRef, IRef};
use pack_vector::IVector;
use pack_struct::{build_pack_struct_code, build_pack_struct_locals, build_pack_struct_return, returned_struct_fields, single_struct_return};

verus! {

// The encoded sizes of the elementary types, as `alloy_sol_types` gives them.

/// `sol_data::Bool::ENCODED_SIZE`: 32 bytes.
#[verifier::external_body]
pub(crate) fn encoded_size_bool() -> (r: usize)
    ensures
        r == 32,
{
    sol_data::Bool::ENCODED_SIZE.unwrap()
}

/// `sol_data::Uint::<8>::ENCODED_SIZE`: 32 bytes.
#[verifier::external_body]
pub(crate) fn encoded_size_uint8() -> (r: usize)
    ensures
        r == 32,
{
    sol_data::Uint::<8>::ENCODED_SIZE.unwrap()
}

/// `sol_data::Uint::<16>::ENCODED_SIZE`: 32 bytes.
#[verifier::external_body]
pub(crate) fn encoded_size_uint16() -> (r: usize)
    ensures
        r == 32,
{
    sol_data::Uint::<16>::ENCODED_SIZE.unwrap()
}

/// `sol_data::Uint::<32>::ENCODED_SIZE`: 32 bytes.
#[verifier::external_body]
pub(crate) fn encoded_size_uint32() -> (r: usize)
    ensures
        r == 32,
{
    sol_data::Uint::<32>::ENCODED_SIZE.unwrap()
}

/// `sol_data::Uint::<64>::ENCODED_SIZE`: 32 bytes.
#[verifier::external_body]
pub(crate) fn encoded_size_uint64() -> (r: usize)
    ensures
        r == 32,
{
    sol_data::Uint::<64>::ENCODED_SIZE.unwrap()
}

/// `sol_data::Uint::<128>::ENCODED_SIZE`: 32 bytes.
#[verifier::external_body]
pub(crate) fn encoded_size_uint128() -> (r: usize)
    ensures
        r == 32,
{
    sol_data::Uint::<128>::ENCODED_SIZE.unwrap()
}

/// `sol_data::Uint::<256>::ENCODED_SIZE`: 32 bytes.
#[verifier::external_body]
pub(crate) fn encoded_size_uint256() -> (r: usize)
    ensures
        r == 32,
{
    sol_data::Uint::<256>::ENCODED_SIZE.unwrap()
}

/// `sol_data::Address::ENCODED_SIZE`: 32 bytes.
#[verifier::external_body]
pub(crate) fn encoded_size_address() -> (r: usize)
    ensures
        r == 32,
{
    sol_data::Address::ENCODED_SIZE.unwrap()
}

/// Whether the layout of `t` is known without the module's struct definitions: `t` holds no
/// struct and no type parameter.
pub open spec fn layout_known(t: IType) -> bool
    decreases t,
{
    match t {
        IType::Vector(inner) | IType::Ref(inner) | IType::MutRef(inner) => layout_known(*inner),
        IType::Struct { .. } | IType::GenericStructInstance { .. } | IType::TypeParameter(_) => false,
        _ => true,
    }
}

/// The size in bytes of a value of type `t` written in place: 32 bytes for each elementary
/// type (enums are encoded as `uint8`, signers as `address`) and for a vector (its offset);
/// a reference has the size of what it refers to.
pub open spec fn abi_encoded_size(t: IType) -> nat
    recommends
        layout_known(t),
    decreases t,
{
    match t {
        IType::Ref(inner) | IType::MutRef(inner) => abi_encoded_size(*inner),
        _ => 32,
    }
}

/// Whether values of type `t` are encoded dynamically: vectors are, elementary types are not,
/// and a reference is when what it refers to is.
pub open spec fn abi_is_dynamic(t: IType) -> bool
    recommends
        layout_known(t),
    decreases t,
{
    match t {
        IType::Vector(_) => true,
        IType::Ref(inner) | IType::MutRef(inner) => abi_is_dynamic(*inner),
        _ => false,
    }
}

/// The size of a value of type `t` in the head of a tuple: 32 bytes (an offset) for a dynamic
/// value, its encoded size for a static one.
pub open spec fn head_size(t: IType) -> nat {
    if abi_is_dynamic(t) {
        32
    } else {
        abi_encoded_size(t)
    }
}

/// The size of the head of a tuple of values of the types `ts`.
pub open spec fn tuple_head_size(ts: Seq<IType>) -> nat
    decreases ts.len(),
{
    if ts.len() == 0 {
        0
    } else {
        tuple_head_size(ts.drop_last()) + head_size(ts.last())
    }
}

impl IntermediateType {
    /// The ABI encoded size of a value of this type (see `abi_encoded_size`).
    pub fn encoded_size(&self) -> (r: usize)
        requires
            layout_known(self@),
        ensures
            r == abi_encoded_size(self@),
        decreases self,
    {
        match self {
            IntermediateType::IBool => encoded_size_bool(),
            IntermediateType::IU8 | IntermediateType::IEnum(_) => encoded_size_uint8(),
            IntermediateType::IU16 => encoded_size_uint16(),
            IntermediateType::IU32 => encoded_size_uint32(),
            IntermediateType::IU64 => encoded_size_uint64(),
            IntermediateType::IU128 => encoded_size_uint128(),
            IntermediateType::IU256 => encoded_size_uint256(),
            IntermediateType::IAddress => encoded_size_address(),
            IntermediateType::ISigner => encoded_size_address(),
            IntermediateType::IVector(_) => 32,
            IntermediateType::IRef(inner) => inner.encoded_size(),
            IntermediateType::IMutRef(inner) => inner.encoded_size(),
            _ => {
                proof {
                    assert(false);
                }
                0
            },
        }
    }

    /// Whether values of this type are encoded dynamically (see `abi_is_dynamic`).
    pub fn is_dynamic(&self) -> (r: bool)
        requires
            layout_known(self@),
        ensures
            r == abi_is_dynamic(self@),
        decreases self,
    {
        match self {
            IntermediateType::IVector(_) => true,
            IntermediateType::IRef(inner) | IntermediateType::IMutRef(inner) => inner.is_dynamic(),
            _ => false,
        }
    }
}

/// The size of the head of the tuple in which the values of a function's return signature are
/// encoded: dynamic values take 32 bytes (their offset), static ones their encoded size.
pub fn tuple_head_size_of(signature: &[IntermediateType]) -> (r: usize)
    requires
        forall|i: int| 0 <= i < signature@.len() ==> layout_known(#[trigger] signature@[i]@),
        signature@.len() <= 0x1000000,
    ensures
        r == tuple_head_size(signature@.map_values(|t: IntermediateType| t@)),
{
    let ghost views = signature@.map_values(|t: IntermediateType| t@);
    let mut size: usize = 0;
    let mut i: usize = 0;
    while i < signature.len()
        invariant
            0 <= i <= signature@.len(),
            signature@.len() <= 0x1000000,
            views == signature@.map_values(|t: IntermediateType| t@),
            forall|j: int| 0 <= j < signature@.len() ==> layout_known(#[trigger] signature@[j]@),
            size == tuple_head_size(views.take(i as int)),
            size <= 32 * i,
        decreases signature@.len() - i,
    {
        let t = &signature[i];
        proof {
            assert(views.take(i + 1).drop_last() =~= views.take(i as int));
            assert(views.take(i + 1).last() == t@);
            lemma_encoded_size_is_32(t@);
        }
        if t.is_dynamic() {
            size = size + 32;
        } else {
            size = size + t.encoded_size();
        }
        i = i + 1;
    }
    proof {
        assert(views.take(i as int) =~= views);
    }
    size
}

/// Every type whose layout is known has an encoded size of 32 bytes.
pub proof fn lemma_encoded_size_is_32(t: IType)
    requires
        layout_known(t),
    ensures
        abi_encoded_size(t) == 32,
    decreases t,
{
    match t {
        IType::Ref(inner) | IType::MutRef(inner) => lemma_encoded_size_is_32(*inner),
        _ => {},
    }
}

/// Each value takes 32 bytes in the head of a tuple, so a tuple of `n` values has a head of
/// `32 * n` bytes.
pub proof fn law_tuple_head_is_32_per_value(ts: Seq<IType>)
    requires
        forall|i: int| 0 <= i < ts.len() ==> layout_known(#[trigger] ts[i]),
    ensures
        tuple_head_size(ts) == 32 * ts.len(),
    decreases ts.len(),
{
    if ts.len() > 0 {
        assert forall|i: int| 0 <= i < ts.drop_last().len() implies layout_known(#[trigger] ts.drop_last()[i]) by {
            assert(ts.drop_last()[i] == ts[i]);
        }
        law_tuple_head_is_32_per_value(ts.drop_last());
        assert(layout_known(ts[ts.len() - 1]));
        lemma_encoded_size_is_32(ts.last());
    }
}

} // verus!

verus! {

/// The positions, among the callees of the function being emitted, of the functions that
/// packing and unpacking call: the allocator and the byte swaps of an `i32` and of an `i64`.
#[derive(Debug, Clone, Copy)]
pub struct AbiCallees {
    pub allocator: u32,
    pub swap_i32_bytes: u32,
    pub swap_i64_bytes: u32,
}

/// Whether a value of type `t` is held on the stack itself (an integer up to `u64` or a
/// boolean) rather than through a pointer to memory.
pub open spec fn is_immediate(t: IType) -> bool {
    t is Bool || t is U8 || t is U16 || t is U32 || t is U64
}

/// Whether a value of type `t` is held through a pointer to memory and packed from it: a
/// vector, a signer, a `u128`, a `u256` or an address.
pub open spec fn is_heap(t: IType) -> bool {
    t is Vector || t is Signer || t is U128 || t is U256 || t is Address
}

/// The type of the local that holds a value of type `t` loaded from memory: `i64` for a `u64`,
/// `i32` (the value or a pointer) for any other type.
pub open spec fn local_val_type(t: IType) -> ValType {
    if t is U64 {
        ValType::I64
    } else {
        ValType::I32
    }
}

/// The number of bytes a value of type `t` takes in a vector's memory: 8 for a `u64`, 4 (the
/// value or a pointer) for any other type.
pub open spec fn stack_data_size(t: IType) -> nat {
    if t is U64 {
        8
    } else {
        4
    }
}

/// Whether values of type `t` can be packed: elementary types other than the signer, enums
/// whose variants have no fields (`enums` are the module's enums), vectors of packable types,
/// and references to packable elementary types, to signers or to vectors. Signers (but through
/// a reference), type parameters, enums with fields and references to references or enums have
/// no ABI encoding; structs, whose
/// layout is not known here, are left out as `layout_known` leaves them out.
pub open spec fn packable(t: IType, enums: Seq<IEnum>) -> bool
    decreases t,
{
    match t {
        IType::Bool | IType::U8 | IType::U16 | IType::U32 | IType::U64 | IType::U128 | IType::U256
        | IType::Address => true,
        IType::Enum(i) => (i as int) < enums.len() && enums[i as int].is_simple,
        IType::Vector(inner) => packable(*inner, enums),
        IType::Ref(inner) | IType::MutRef(inner) => *inner is Signer || ((is_immediate(*inner) || is_heap(*inner))
            && packable(*inner, enums)),
        _ => false,
    }
}

/// The locals that packing a value of type `t` adds, in order: for a vector, its data pointer,
/// the reference of its data, its length, the offset to its data, the loop counter and the
/// local of an element, then those of its elements; for a reference to an immediate value, the
/// local of the value.
pub open spec fn pack_locals(t: IType) -> Seq<ValType>
    decreases t,
{
    match t {
        IType::Vector(inner) => seq![ValType::I32, ValType::I32, ValType::I32, ValType::I32, ValType::I32, local_val_type(*inner)]
            + pack_locals(*inner),
        IType::Ref(inner) | IType::MutRef(inner) => if is_immediate(*inner) {
            seq![local_val_type(*inner)] + pack_locals(*inner)
        } else {
            pack_locals(*inner)
        },
        _ => Seq::empty(),
    }
}

/// The instructions that load the value of type `t` at the address in local `p` into local
/// `dst`.
pub open spec fn load_local_code(p: u32, t: ValType, dst: u32) -> Seq<InstrView> {
    seq![InstrView::LocalGet(p), InstrView::Load(t, 0), InstrView::LocalSet(dst)]
}

/// The instructions of a vector's packing before its loop; the vector is at the address in
/// local `local`, its fresh locals start at `n` (data pointer `n`, data reference `n + 1`,
/// length `n + 2`, offset `n + 3`, counter `n + 4`), and each element takes `esize` bytes.
/// They read the length, allocate the length word and the elements' words, write the offset of
/// that data from the calldata reference in local `cref` at the writer pointer, move the vector
/// pointer past its length and capacity (four bytes each), write the length, and point the data pointer and data reference
/// past it.
pub open spec fn vector_head_code(local: u32, writer: u32, cref: u32, c: AbiCallees, n: int, esize: u32) -> Seq<InstrView> {
    load_local_code(local, ValType::I32, (n + 2) as u32) + seq![
        InstrView::LocalGet((n + 2) as u32),
        InstrView::I32Const(esize),
        InstrView::Binop(BinaryOp::I32Mul),
        InstrView::I32Const(32),
        InstrView::Binop(BinaryOp::I32Add),
        InstrView::Call(c.allocator),
        InstrView::LocalTee(n as u32),
        InstrView::LocalGet(cref),
        InstrView::Binop(BinaryOp::I32Sub),
        InstrView::LocalSet((n + 3) as u32),
    ] + pack_i32_code((n + 3) as u32, writer, c.swap_i32_bytes) + seq![
        InstrView::LocalGet(local),
        InstrView::I32Const(8),
        InstrView::Binop(BinaryOp::I32Add),
        InstrView::LocalSet(local),
    ] + pack_i32_code((n + 2) as u32, n as u32, c.swap_i32_bytes) + seq![
        InstrView::LocalGet(n as u32),
        InstrView::I32Const(32),
        InstrView::Binop(BinaryOp::I32Add),
        InstrView::LocalTee(n as u32),
        InstrView::LocalSet((n + 1) as u32),
        InstrView::I32Const(0),
        InstrView::LocalSet((n + 4) as u32),
    ]
}

/// The instructions that end each turn of a vector's loop: the vector pointer moves `ssize`
/// bytes on, the data pointer `esize` bytes, the counter one, and the loop runs again while
/// the counter is below the length.
pub open spec fn vector_step_code(local: u32, n: int, ssize: u32, esize: u32) -> Seq<InstrView> {
    seq![
        InstrView::LocalGet(local),
        InstrView::I32Const(ssize),
        InstrView::Binop(BinaryOp::I32Add),
        InstrView::LocalSet(local),
        InstrView::LocalGet(n as u32),
        InstrView::I32Const(esize),
        InstrView::Binop(BinaryOp::I32Add),
        InstrView::LocalSet(n as u32),
        InstrView::LocalGet((n + 4) as u32),
        InstrView::I32Const(1),
        InstrView::Binop(BinaryOp::I32Add),
        InstrView::LocalTee((n + 4) as u32),
        InstrView::LocalGet((n + 2) as u32),
        InstrView::Binop(BinaryOp::I32LtU),
        InstrView::BrIf(0),
    ]
}

/// The instructions that pack the value of type `t` in local `local` at the writer pointer in
/// local `writer`, where local `cref` holds the calldata reference that offsets are counted
/// from, the callees are `c`, and fresh locals are numbered from `n`: an immediate value is
/// written big-endian in its word; a `u128`, `u256`, address or enum is written from the
/// memory it points to; a vector writes the offset of its data and then, at the end of the
/// calldata, its length and, when it has any, its elements in a loop, each packed as its type; a reference to an
/// immediate value loads the value and packs it, a reference to a signer packs it as an
/// address, and a reference to another value packs it as its pointer.
pub open spec fn pack_code(t: IType, local: u32, writer: u32, cref: u32, c: AbiCallees, n: int) -> Seq<InstrView>
    decreases t,
{
    match t {
        IType::Bool | IType::U8 | IType::U16 | IType::U32 => pack_i32_code(local, writer, c.swap_i32_bytes),
        IType::U64 => pack_i64_code(local, writer, c.swap_i64_bytes),
        IType::U128 => pack_u128_code(local, writer, c.swap_i64_bytes),
        IType::U256 => pack_u256_code(local, writer, c.swap_i64_bytes),
        IType::Address => pack_address_code(local, writer),
        IType::Enum(_) => pack_enum_code(local, writer, c.swap_i32_bytes),
        IType::Vector(inner) => {
            let esize = abi_encoded_size(*inner) as u32;
            vector_head_code(local, writer, cref, c, n, esize).push(
                loop_unless_zero(
                    (n + 2) as u32,
                    load_local_code(local, local_val_type(*inner), (n + 5) as u32)
                        + pack_code(*inner, (n + 5) as u32, n as u32, (n + 1) as u32, c, n + 6)
                        + vector_step_code(local, n, stack_data_size(*inner) as u32, esize),
                ),
            )
        },
        IType::Ref(inner) | IType::MutRef(inner) => if is_immediate(*inner) {
            load_local_code(local, local_val_type(*inner), n as u32) + pack_code(*inner, n as u32, writer, cref, c, n + 1)
        } else if *inner is Signer {
            pack_address_code(local, writer)
        } else {
            pack_code(*inner, local, writer, cref, c, n)
        },
        _ => Seq::empty(),
    }
}

/// Adds a local of type `t` after the parameters (`first_local` of them) and the locals
/// `locals` added so far, and returns its number.
pub fn add_local(locals: &mut Vec<ValType>, first_local: u32, t: ValType) -> (r: u32)
    requires
        first_local + old(locals)@.len() < u32::MAX,
    ensures
        r == first_local + old(locals)@.len(),
        final(locals)@ == old(locals)@.push(t),
{
    let r = first_local + locals.len() as u32;
    locals.push(t);
    r
}

/// Appends `load_local_code`.
pub fn add_load_local(block: &mut Vec<Instr>, p: u32, t: ValType, dst: u32)
    ensures
        instrs_view(final(block)@) == instrs_view(old(block)@) + load_local_code(p, t, dst),
{
    let ghost before = instrs_view(block@);
    push_instr(block, Instr::LocalGet(p));
    push_instr(block, Instr::Load(t, 0));
    push_instr(block, Instr::LocalSet(dst));
    assert(instrs_view(block@) =~= before + load_local_code(p, t, dst));
}

} // verus!

verus! {

/// Every packable type has a known layout.
pub proof fn lemma_packable_layout_known(t: IType, enums: Seq<IEnum>)
    requires
        packable(t, enums),
    ensures
        layout_known(t),
    decreases t,
{
    match t {
        IType::Vector(inner) => lemma_packable_layout_known(*inner, enums),
        IType::Ref(inner) | IType::MutRef(inner) => if *inner is Signer {
            assert(layout_known(*inner));
        } else {
            lemma_packable_layout_known(*inner, enums);
        },
        _ => {},
    }
}

impl IntermediateType {
    /// Whether a value of this type is held on the stack itself (see `is_immediate`).
    pub fn is_immediate(&self) -> (r: bool)
        ensures
            r == is_immediate(self@),
    {
        match self {
            IntermediateType::IBool | IntermediateType::IU8 | IntermediateType::IU16 | IntermediateType::IU32
            | IntermediateType::IU64 => true,
            _ => false,
        }
    }

    /// Whether this is the signer type.
    pub fn is_signer(&self) -> (r: bool)
        ensures
            r == (self@ is Signer),
    {
        match self {
            IntermediateType::ISigner => true,
            _ => false,
        }
    }

    /// The type of the local that holds a value of this type loaded from memory (see
    /// `local_val_type`).
    pub fn local_val_type(&self) -> (r: ValType)
        ensures
            r == local_val_type(self@),
    {
        match self {
            IntermediateType::IU64 => ValType::I64,
            _ => ValType::I32,
        }
    }

    /// The number of bytes a value of this type takes in a vector's memory (see
    /// `stack_data_size`).
    pub fn stack_data_size(&self) -> (r: u32)
        ensures
            r == stack_data_size(self@),
    {
        match self {
            IntermediateType::IU64 => 8,
            _ => 4,
        }
    }

    /// Appends the instructions that pack the value of this type in local `local` at the
    /// writer pointer in local `writer_pointer`, according to Solidity's ABI encoding (see
    /// `pack_code`). Offsets of dynamic data are counted from the calldata reference in local
    /// `calldata_reference_pointer`, which is not changed. The fresh locals that packing needs
    /// are added to `locals`, which follow `first_local` parameters; the callees are `callees`,
    /// and the module's enums are those of `compilation_ctx`.
    #[verifier::rlimit(40)]
    pub fn add_pack_instructions<M, F>(
        &self,
        block: &mut Vec<Instr>,
        locals: &mut Vec<ValType>,
        first_local: u32,
        local: u32,
        writer_pointer: u32,
        calldata_reference_pointer: u32,
        compilation_ctx: &CompilationContext<M, F>,
        callees: AbiCallees,
    )
        requires
            packable(self@, compilation_ctx.root_module_data.enums.enums@),
            first_local + old(locals)@.len() + pack_locals(self@).len() <= u32::MAX,
        ensures
            instrs_view(final(block)@) == instrs_view(old(block)@) + pack_code(
                self@,
                local,
                writer_pointer,
                calldata_reference_pointer,
                callees,
                first_local + old(locals)@.len(),
            ),
            final(locals)@ == old(locals)@ + pack_locals(self@),
        decreases self, 0int,
    {
        match self {
            IntermediateType::IBool | IntermediateType::IU8 | IntermediateType::IU16 | IntermediateType::IU32 => {
                pack_i32_type_instructions(block, local, writer_pointer, callees.swap_i32_bytes);
            },
            IntermediateType::IU64 => {
                pack_i64_type_instructions(block, local, writer_pointer, callees.swap_i64_bytes);
            },
            IntermediateType::IU128 => {
                IU128::add_pack_instructions(block, local, writer_pointer, callees.swap_i64_bytes);
            },
            IntermediateType::IU256 => {
                IU256::add_pack_instructions(block, local, writer_pointer, callees.swap_i64_bytes);
            },
            IntermediateType::IAddress => {
                IAddress::add_pack_instructions(block, local, writer_pointer);
            },
            IntermediateType::IEnum(_) => {
                IEnum::add_pack_instructions(block, local, writer_pointer, callees.swap_i32_bytes);
            },
            IntermediateType::IVector(inner) => {
                IVector::add_pack_instructions(
                    inner,
                    block,
                    locals,
                    first_local,
                    local,
                    writer_pointer,
                    calldata_reference_pointer,
                    compilation_ctx,
                    callees,
                );
            },
            IntermediateType::IRef(inner) => {
                IRef::add_pack_instructions(
                    inner,
                    block,
                    locals,
                    first_local,
                    local,
                    writer_pointer,
                    calldata_reference_pointer,
                    compilation_ctx,
                    callees,
                );
            },
            IntermediateType::IMutRef(inner) => {
                IMutRef::add_pack_instructions(
                    inner,
                    block,
                    locals,
                    first_local,
                    local,
                    writer_pointer,
                    calldata_reference_pointer,
                    compilation_ctx,
                    callees,
                );
            },
            _ => {
                proof {
                    assert(false);
                }
            },
        }
        proof {
            assert(locals@ =~= old(locals)@ + pack_locals(self@));
        }
    }
}

} // verus!

verus! {

/// Whether values of type `t` can be packed with the dynamic encoding forced: a reference is
/// followed to what it refers to, any other type is packed as usual (see `packable`).
pub open spec fn packable_dynamic(t: IType, enums: Seq<IEnum>) -> bool
    decreases t,
{
    match t {
        IType::Ref(inner) | IType::MutRef(inner) => packable_dynamic(*inner, enums),
        _ => packable(t, enums),
    }
}

/// The locals that packing a value of type `t` with the dynamic encoding forced adds.
pub open spec fn pack_dynamic_locals(t: IType) -> Seq<ValType>
    decreases t,
{
    match t {
        IType::Ref(inner) | IType::MutRef(inner) => pack_dynamic_locals(*inner),
        _ => pack_locals(t),
    }
}

/// The instructions that pack the value of type `t` in local `local` with the dynamic encoding
/// forced: a reference is replaced in its local by the pointer it holds, and what it refers to
/// is packed so; any other value is packed as usual (see `pack_code`).
pub open spec fn pack_dynamic_code(t: IType, local: u32, writer: u32, cref: u32, c: AbiCallees, n: int) -> Seq<InstrView>
    decreases t,
{
    match t {
        IType::Ref(inner) | IType::MutRef(inner) => load_local_code(local, ValType::I32, local)
            + pack_dynamic_code(*inner, local, writer, cref, c, n),
        _ => pack_code(t, local, writer, cref, c, n),
    }
}

impl IntermediateType {
    /// Appends the instruction that pops a value of this type into a fresh local, which is
    /// added to `locals` (after `first_local` parameters), and returns that local: an `i64` for
    /// a `u64`, an `i32` (the value or a pointer) for any other type. A type parameter has no
    /// values to pop.
    pub fn add_load_local_instructions(&self, block: &mut Vec<Instr>, locals: &mut Vec<ValType>, first_local: u32) -> (r: u32)
        requires
            !(self@ is TypeParameter),
            first_local + old(locals)@.len() < u32::MAX,
        ensures
            r == first_local + old(locals)@.len(),
            final(locals)@ == old(locals)@.push(local_val_type(self@)),
            instrs_view(final(block)@) == instrs_view(old(block)@).push(InstrView::LocalSet(r)),
    {
        let local = add_local(locals, first_local, self.local_val_type());
        push_instr(block, Instr::LocalSet(local));
        local
    }

    /// Appends the instructions that pack the value of this type in local `local` with the
    /// dynamic encoding forced (see `pack_dynamic_code`): a value that can be encoded both in
    /// place and dynamically, returned among others, must be encoded dynamically. The
    /// parameters are those of `add_pack_instructions`.
    #[verifier::rlimit(40)]
    pub fn add_pack_instructions_dynamic<M, F>(
        &self,
        block: &mut Vec<Instr>,
        locals: &mut Vec<ValType>,
        first_local: u32,
        local: u32,
        writer_pointer: u32,
        calldata_reference_pointer: u32,
        compilation_ctx: &CompilationContext<M, F>,
        callees: AbiCallees,
    )
        requires
            packable_dynamic(self@, compilation_ctx.root_module_data.enums.enums@),
            first_local + old(locals)@.len() + pack_dynamic_locals(self@).len() <= u32::MAX,
        ensures
            instrs_view(final(block)@) == instrs_view(old(block)@) + pack_dynamic_code(
                self@,
                local,
                writer_pointer,
                calldata_reference_pointer,
                callees,
                first_local + old(locals)@.len(),
            ),
            final(locals)@ == old(locals)@ + pack_dynamic_locals(self@),
        decreases self,
    {
        let ghost before = instrs_view(block@);
        match self {
            IntermediateType::IRef(inner) | IntermediateType::IMutRef(inner) => {
                // Follow the reference, and pack what it refers to dynamically
                add_load_local(block, local, ValType::I32, local);
                inner.add_pack_instructions_dynamic(
                    block,
                    locals,
                    first_local,
                    local,
                    writer_pointer,
                    calldata_reference_pointer,
                    compilation_ctx,
                    callees,
                );
                proof {
                    assert(instrs_view(block@) =~= before + pack_dynamic_code(
                        self@,
                        local,
                        writer_pointer,
                        calldata_reference_pointer,
                        callees,
                        first_local + old(locals)@.len(),
                    ));
                }
            },
            _ => {
                self.add_pack_instructions(
                    block,
                    locals,
                    first_local,
                    local,
                    writer_pointer,
                    calldata_reference_pointer,
                    compilation_ctx,
                    callees,
                );
            },
        }
    }
}

} // verus!

verus! {

/// Whether a value of type `t` can be returned, that is packed as a member of the returned
/// tuple: with the dynamic encoding forced when it is dynamic, as usual when it is not.
pub open spec fn returnable(t: IType, enums: Seq<IEnum>) -> bool {
    &&& layout_known(t)
    &&& if abi_is_dynamic(t) {
        packable_dynamic(t, enums)
    } else {
        packable(t, enums)
    }
}

/// The locals that packing a returned value of type `t` adds.
pub open spec fn return_value_locals(t: IType) -> Seq<ValType> {
    if abi_is_dynamic(t) {
        pack_dynamic_locals(t)
    } else {
        pack_locals(t)
    }
}

/// The locals that packing returned values of types `ts`, in order, adds.
pub open spec fn return_values_locals(ts: Seq<IType>) -> Seq<ValType>
    decreases ts.len(),
{
    if ts.len() == 0 {
        Seq::empty()
    } else {
        return_values_locals(ts.drop_last()) + return_value_locals(ts.last())
    }
}

/// The instructions that move the writer pointer in local `writer` `size` bytes on.
pub open spec fn advance_writer_code(writer: u32, size: u32) -> Seq<InstrView> {
    seq![
        InstrView::LocalGet(writer),
        InstrView::I32Const(size),
        InstrView::Binop(BinaryOp::I32Add),
        InstrView::LocalSet(writer),
    ]
}

/// The instructions that pack a returned value of type `t` in local `local`: the calldata
/// reference in local `cref` is set to the start of the tuple in local `pointer`; a dynamic
/// value is packed with the dynamic encoding forced and takes 32 bytes (its offset) in the
/// tuple's head, a static one is packed in place and takes its encoded size; the writer
/// pointer in local `writer` moves past it. Fresh locals are numbered from `m`.
pub open spec fn return_value_code(t: IType, local: u32, pointer: u32, writer: u32, cref: u32, c: AbiCallees, m: int) -> Seq<InstrView> {
    seq![InstrView::LocalGet(pointer), InstrView::LocalSet(cref)] + if abi_is_dynamic(t) {
        pack_dynamic_code(t, local, writer, cref, c, m) + advance_writer_code(writer, 32)
    } else {
        pack_code(t, local, writer, cref, c, m) + advance_writer_code(writer, abi_encoded_size(t) as u32)
    }
}

/// The instructions that pack the returned values of types `ts`, the first of `k` returned
/// values, whose fresh locals start at `n`: the value of position `j` is in local
/// `n + k - 1 - j`, the tuple's start is in local `n + k`, the writer pointer in `n + k + 2`,
/// the calldata reference in `n + k + 3`, and the values' own fresh locals follow.
pub open spec fn return_values_code(ts: Seq<IType>, k: int, n: int, c: AbiCallees) -> Seq<InstrView>
    decreases ts.len(),
{
    if ts.len() == 0 {
        Seq::empty()
    } else {
        let j = ts.len() - 1;
        return_values_code(ts.drop_last(), k, n, c) + return_value_code(
            ts.last(),
            (n + k - 1 - j) as u32,
            (n + k) as u32,
            (n + k + 2) as u32,
            (n + k + 3) as u32,
            c,
            n + k + 4 + return_values_locals(ts.drop_last()).len(),
        )
    }
}

/// The instructions that pop `k` returned values, the last first, into locals `n` to
/// `n + k - 1`.
pub open spec fn load_returns_code(k: int, n: int) -> Seq<InstrView> {
    Seq::new(k as nat, |m: int| InstrView::LocalSet((n + m) as u32))
}

/// The instructions that pack the values of types `ts` returned on the stack as a tuple, with
/// fresh locals numbered from `n`: the values are popped into locals, the tuple's head is
/// allocated with the allocator, each value is packed in turn (see `return_values_code`), and
/// the length of the encoded data, the allocator's next address less the tuple's start, is
/// kept in local `n + k + 1`.
pub open spec fn build_pack_code(ts: Seq<IType>, c: AbiCallees, n: int) -> Seq<InstrView> {
    let k = ts.len() as int;
    load_returns_code(k, n) + seq![
        InstrView::I32Const(tuple_head_size(ts) as u32),
        InstrView::Call(c.allocator),
        InstrView::LocalTee((n + k) as u32),
        InstrView::LocalSet((n + k + 2) as u32),
    ] + return_values_code(ts, k, n, c) + seq![
        InstrView::I32Const(0),
        InstrView::Call(c.allocator),
        InstrView::LocalGet((n + k) as u32),
        InstrView::Binop(BinaryOp::I32Sub),
        InstrView::LocalSet((n + k + 1) as u32),
    ]
}

/// The locals that `build_pack_code` adds: one per returned value, the last value's first;
/// the tuple's start, the length of the encoded data, the writer pointer and the calldata
/// reference; then those of the values' packing.
pub open spec fn build_pack_locals(ts: Seq<IType>) -> Seq<ValType> {
    Seq::new(ts.len(), |m: int| local_val_type(ts[ts.len() - 1 - m])) + seq![ValType::I32, ValType::I32, ValType::I32, ValType::I32]
        + return_values_locals(ts)
}

/// The locals that packing a prefix of returned values adds are at most those of all of them.
pub proof fn lemma_return_values_locals_prefix(ts: Seq<IType>, j: int)
    requires
        0 <= j <= ts.len(),
    ensures
        return_values_locals(ts.take(j)).len() <= return_values_locals(ts).len(),
    decreases ts.len(),
{
    if j < ts.len() {
        assert(ts.drop_last().take(j) =~= ts.take(j));
        lemma_return_values_locals_prefix(ts.drop_last(), j);
    } else {
        assert(ts.take(j) =~= ts);
    }
}

/// Appends the instructions that pack the values of the types of
/// `function_return_signature`, loaded on the stack, as the tuple that Solidity's ABI encodes
/// return values in (see `build_pack_code`); a struct returned alone is expanded in place as
/// the tuple of its fields (see `build_pack_struct_code`). Fresh locals are added to `locals`, after
/// `first_local` parameters. Returns the local that holds the address of the encoded data and
/// the local that holds its length.
#[verifier::rlimit(80)]
pub fn build_pack_instructions<M, F>(
    block: &mut Vec<Instr>,
    function_return_signature: &[IntermediateType],
    locals: &mut Vec<ValType>,
    first_local: u32,
    compilation_ctx: &CompilationContext<M, F>,
    callees: AbiCallees,
) -> (r: (u32, u32))
    requires
        if single_struct_return(compilation_ctx, function_return_signature@.map_values(|t: IntermediateType| t@)) {
            first_local + old(locals)@.len() + build_pack_struct_locals(
                returned_struct_fields(compilation_ctx, function_return_signature@.map_values(|t: IntermediateType| t@)),
            ).len() <= u32::MAX
        } else {
            &&& forall|j: int| 0 <= j < function_return_signature@.len() ==> returnable(
                #[trigger] function_return_signature@[j]@,
                compilation_ctx.root_module_data.enums.enums@,
            )
            &&& function_return_signature@.len() <= 0x1000000
            &&& first_local + old(locals)@.len() + build_pack_locals(
                function_return_signature@.map_values(|t: IntermediateType| t@),
            ).len() <= u32::MAX
        },
    ensures
        if single_struct_return(compilation_ctx, function_return_signature@.map_values(|t: IntermediateType| t@)) {
            let fields = returned_struct_fields(compilation_ctx, function_return_signature@.map_values(|t: IntermediateType| t@));
            &&& instrs_view(final(block)@) == instrs_view(old(block)@) + build_pack_struct_code(fields, callees, first_local + old(locals)@.len())
            &&& final(locals)@ == old(locals)@ + build_pack_struct_locals(fields)
        } else {
            &&& instrs_view(final(block)@) == instrs_view(old(block)@) + build_pack_code(
                function_return_signature@.map_values(|t: IntermediateType| t@),
                callees,
                first_local + old(locals)@.len(),
            )
            &&& final(locals)@ == old(locals)@ + build_pack_locals(function_return_signature@.map_values(|t: IntermediateType| t@))
        },
        r.0 == first_local + old(locals)@.len() + function_return_signature@.len(),
        r.1 == first_local + old(locals)@.len() + function_return_signature@.len() + 1,
{
    // A struct returned alone is expanded in place as the tuple of its fields
    if function_return_signature.len() == 1 {
        if let IntermediateType::IStruct { module_id, index } = &function_return_signature[0] {
            proof {
                assert(function_return_signature@.map_values(|t: IntermediateType| t@)
                    =~= seq![IType::Struct { module_id: module_id@, index: *index }]);
                assert(!layout_known(function_return_signature@[0]@));
            }
            return build_pack_struct_return(block, module_id, *index, locals, first_local, compilation_ctx, callees);
        }
    }
    proof {
        if function_return_signature@.len() == 1 {
            assert(!(function_return_signature@[0] is IStruct));
            assert(!(function_return_signature@.map_values(|t: IntermediateType| t@)[0] is Struct));
        }
    }
    let ghost views = function_return_signature@.map_values(|t: IntermediateType| t@);
    let ghost enums = compilation_ctx.root_module_data.enums.enums@;
    let ghost locals0 = locals@;
    let ghost before = instrs_view(block@);
    let ghost n: int = first_local + locals@.len();
    let k = function_return_signature.len();
    proof {
        lemma_return_values_locals_prefix(views, 0);
    }

    // Pop the returned values into locals, the last first
    let mut j: usize = k;
    while j > 0
        invariant
            0 <= j <= k,
            k == function_return_signature@.len(),
            k <= 0x1000000,
            views == function_return_signature@.map_values(|t: IntermediateType| t@),
            forall|i: int| 0 <= i < k ==> returnable(#[trigger] function_return_signature@[i]@, enums),
            n == first_local + locals0.len(),
            n + build_pack_locals(views).len() <= u32::MAX,
            locals@ == locals0 + Seq::new((k - j) as nat, |m: int| local_val_type(views[k - 1 - m])),
            instrs_view(block@) == before + load_returns_code(k - j, n),
        decreases j,
    {
        j = j - 1;
        proof {
            assert(views[j as int] == function_return_signature@[j as int]@);
            assert(returnable(function_return_signature@[j as int]@, enums));
        }
        function_return_signature[j].add_load_local_instructions(block, locals, first_local);
        proof {
            assert(locals@ =~= locals0 + Seq::new((k - j) as nat, |m: int| local_val_type(views[k - 1 - m])));
            assert(instrs_view(block@) =~= before + load_returns_code(k - j, n));
        }
    }
    let n_exec = first_local + (locals.len() - k) as u32;
    let pointer = add_local(locals, first_local, ValType::I32);
    let pointer_end = add_local(locals, first_local, ValType::I32);
    let writer_pointer = add_local(locals, first_local, ValType::I32);
    let calldata_reference_pointer = add_local(locals, first_local, ValType::I32);
    let ghost locals1 = locals@;
    proof {
        assert(locals1 =~= locals0 + Seq::new(k as nat, |m: int| local_val_type(views[k - 1 - m]))
            + seq![ValType::I32, ValType::I32, ValType::I32, ValType::I32]);
        assert forall|i: int| 0 <= i < views.len() implies layout_known(#[trigger] views[i]) by {
            assert(views[i] == function_return_signature@[i]@);
        }
    }

    // Allocate the tuple's head
    let args_size = tuple_head_size_of(function_return_signature);
    proof {
        law_tuple_head_is_32_per_value(views);
    }
    push_instr(block, Instr::I32Const(args_size as u32));
    push_instr(block, Instr::Call(callees.allocator));
    push_instr(block, Instr::LocalTee(pointer));
    push_instr(block, Instr::LocalSet(writer_pointer));
    let ghost head = instrs_view(block@);

    let mut j: usize = 0;
    while j < k
        invariant
            0 <= j <= k,
            k == function_return_signature@.len(),
            views == function_return_signature@.map_values(|t: IntermediateType| t@),
            forall|i: int| 0 <= i < k ==> returnable(#[trigger] function_return_signature@[i]@, enums),
            enums == compilation_ctx.root_module_data.enums.enums@,
            n == first_local + locals0.len(),
            n_exec == n,
            pointer == n + k,
            writer_pointer == n + k + 2,
            calldata_reference_pointer == n + k + 3,
            n + build_pack_locals(views).len() <= u32::MAX,
            locals1.len() == locals0.len() + k + 4,
            locals@ == locals1 + return_values_locals(views.take(j as int)),
            instrs_view(block@) == head + return_values_code(views.take(j as int), k as int, n, callees),
        decreases k - j,
    {
        let ghost b0 = instrs_view(block@);
        let t = &function_return_signature[j];
        proof {
            assert(views[j as int] == t@);
            assert(returnable(t@, enums));
            lemma_return_values_locals_prefix(views, j + 1);
            assert(views.take(j + 1).drop_last() =~= views.take(j as int));
            assert(views.take(j + 1).last() == t@);
        }
        let local = n_exec + (k - 1 - j) as u32;
        // Offsets are counted from the start of the tuple
        push_instr(block, Instr::LocalGet(pointer));
        push_instr(block, Instr::LocalSet(calldata_reference_pointer));
        if t.is_dynamic() {
            t.add_pack_instructions_dynamic(
                block,
                locals,
                first_local,
                local,
                writer_pointer,
                calldata_reference_pointer,
                compilation_ctx,
                callees,
            );
            // A dynamic value takes its offset's 32 bytes in the head
            push_instr(block, Instr::LocalGet(writer_pointer));
            push_instr(block, Instr::I32Const(32));
            push_instr(block, Instr::Binop(BinaryOp::I32Add));
            push_instr(block, Instr::LocalSet(writer_pointer));
        } else {
            t.add_pack_instructions(
                block,
                locals,
                first_local,
                local,
                writer_pointer,
                calldata_reference_pointer,
                compilation_ctx,
                callees,
            );
            let size = t.encoded_size();
            proof {
                lemma_encoded_size_is_32(t@);
            }
            push_instr(block, Instr::LocalGet(writer_pointer));
            push_instr(block, Instr::I32Const(size as u32));
            push_instr(block, Instr::Binop(BinaryOp::I32Add));
            push_instr(block, Instr::LocalSet(writer_pointer));
        }
        proof {
            assert(instrs_view(block@) =~= b0 + return_value_code(
                t@,
                (n + k - 1 - j) as u32,
                (n + k) as u32,
                (n + k + 2) as u32,
                (n + k + 3) as u32,
                callees,
                n + k + 4 + return_values_locals(views.take(j as int)).len(),
            ));
            assert(instrs_view(block@) =~= head + return_values_code(views.take(j + 1), k as int, n, callees));
            assert(locals@ =~= locals1 + return_values_locals(views.take(j + 1)));
        }
        j = j + 1;
    }
    proof {
        assert(views.take(k as int) =~= views);
    }

    // The length of the encoded data: the allocator's next address less the tuple's start
    push_instr(block, Instr::I32Const(0));
    push_instr(block, Instr::Call(callees.allocator));
    push_instr(block, Instr::LocalGet(pointer));
    push_instr(block, Instr::Binop(BinaryOp::I32Sub));
    push_instr(block, Instr::LocalSet(pointer_end));
    proof {
        assert(instrs_view(block@) =~= before + build_pack_code(views, callees, n));
        assert(locals@ =~= locals0 + build_pack_locals(views));
    }
    (pointer, pointer_end)
}

} // verus!
