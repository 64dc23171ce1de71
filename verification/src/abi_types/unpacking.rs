//! Reading ABI encoded arguments: each value is read from the 32-byte word at the reader
//! pointer, which then moves past it; a dynamic value's word holds the offset of its data from
//! the calldata reader pointer.
use vstd::prelude::*;

pub mod unpack_enum;
pub mod unpack_heap_int;
pub mod unpack_native_int;
pub mod unpack_reference;
pub mod unpack_struct;
pub mod unpack_vector;

use crate::abi_types::packing::{AbiCallees, add_local, is_heap, is_immediate, local_val_type, stack_data_size};
use crate::abi_types::packing::pack_reference::{IMutRef, IRef};
use crate::abi_types::packing::pack_vector::IVector;
use crate::compilation_context::CompilationContext;
use crate::intermediate_types::{IAddress, IBool, IEnum, IType, IU128, IU16, IU256, IU32, IU64, IU8, IntermediateType};
use crate::wasm::{BinaryOp, Instr, InstrView, ValType, instrs_view, push_instr};
use unpack_enum::unpack_enum_code;
use unpack_heap_int::{unpack_address_code, unpack_u128_code, unpack_u256_code};
use unpack_native_int::{unpack_i32_code, unpack_i64_code};

verus! {

/// Whether arguments of type `t` can be read: elementary types other than the signer, enums of
/// the module (`enums`), vectors of such types, and references to elementary types other than
/// the signer or to vectors. Signers, type parameters, references to references or to enums,
/// and structs, whose layout is not known here, are left out.
pub open spec fn unpackable(t: IType, enums: Seq<IEnum>) -> bool
    decreases t,
{
    match t {
        IType::Bool | IType::U8 | IType::U16 | IType::U32 | IType::U64 | IType::U128 | IType::U256
        | IType::Address => true,
        IType::Enum(i) => (i as int) < enums.len(),
        IType::Vector(inner) => unpackable(*inner, enums),
        IType::Ref(inner) | IType::MutRef(inner) => (is_immediate(*inner) || is_heap(*inner)) && unpackable(*inner, enums),
        _ => false,
    }
}

/// The locals that reading an argument of type `t` adds, in order: the pointer to a `u128`,
/// `u256` or address read; an enum's pointer and variant number; for a vector, its data reader
/// pointer, its length, its pointer, its writer pointer, the loop counter and the calldata
/// reader pointer of its elements, then those of its elements; for a reference to an immediate
/// value, the pointer to the value, then those of the value.
pub open spec fn unpack_locals(t: IType) -> Seq<ValType>
    decreases t,
{
    match t {
        IType::U128 | IType::U256 | IType::Address => seq![ValType::I32],
        IType::Enum(_) => seq![ValType::I32, ValType::I32],
        IType::Vector(inner) => seq![ValType::I32, ValType::I32, ValType::I32, ValType::I32, ValType::I32, ValType::I32]
            + unpack_locals(*inner),
        IType::Ref(inner) | IType::MutRef(inner) => if is_immediate(*inner) {
            seq![ValType::I32] + unpack_locals(*inner)
        } else {
            unpack_locals(*inner)
        },
        _ => Seq::empty(),
    }
}

/// The instructions that trap unless the word at offset `o` of the address in local `p` is
/// zero.
pub open spec fn zero_word_check(p: u32, o: u32) -> InstrView {
    InstrView::Block(
        seq![
            InstrView::LocalGet(p),
            InstrView::Load(ValType::I32, o),
            InstrView::I32Const(0),
            InstrView::Binop(BinaryOp::I32Eq),
            InstrView::BrIf(0),
            InstrView::Unreachable,
        ],
    )
}

/// The instructions that trap unless the first 28 bytes of the ABI word at the address in local
/// `p` are zero, that is unless the number it holds fits in 32 bits.
pub open spec fn fits_u32_check_code(p: u32) -> Seq<InstrView> {
    seq![
        zero_word_check(p, 0),
        zero_word_check(p, 4),
        zero_word_check(p, 8),
        zero_word_check(p, 12),
        zero_word_check(p, 16),
        zero_word_check(p, 20),
        zero_word_check(p, 24),
    ]
}

/// The instructions that allocate a vector of `capacity` elements of `size` bytes each, with
/// callee `alloc`, taking eight bytes for its length and capacity and `vector_room` bytes after
/// them: the length and the capacity, from locals `length` and `capacity`, are kept in its first
/// eight bytes, and its address in local `vp`.
pub open spec fn allocate_vector_code(vp: u32, length: u32, capacity: u32, size: u32, alloc: u32) -> Seq<InstrView> {
    seq![
        InstrView::LocalGet(capacity),
        InstrView::IfElse(
            Some(ValType::I32),
            seq![InstrView::LocalGet(capacity), InstrView::I32Const(size), InstrView::Binop(BinaryOp::I32Mul)],
            seq![InstrView::I32Const(8)],
        ),
        InstrView::I32Const(8),
        InstrView::Binop(BinaryOp::I32Add),
        InstrView::Call(alloc),
        InstrView::LocalTee(vp),
        InstrView::LocalGet(length),
        InstrView::Store(ValType::I32, 0),
        InstrView::LocalGet(vp),
        InstrView::LocalGet(capacity),
        InstrView::Store(ValType::I32, 4),
    ]
}

/// The bytes that a vector of capacity `capacity`, of elements of `size` bytes, gets after its
/// length and capacity: room for its elements, or, when its capacity is zero, eight bytes,
/// room for the one element of any type that the first turn of a copy loop writes before it
/// tests the length.
pub open spec fn vector_room(capacity: u32, size: u32) -> int {
    if capacity == 0 {
        8
    } else {
        capacity * size
    }
}

/// The instructions of a vector argument's reading before its loop; its fresh locals start at
/// `n` (data reader pointer `n`, length `n + 1`, vector pointer `n + 2`, writer pointer `n + 3`,
/// counter `n + 4`, elements' calldata reader pointer `n + 5`) and each element takes `ssize`
/// bytes in the vector. The offset in the argument's word must fit in 32 bits; the data is at
/// that offset from the calldata reader pointer in local `cref`. The reader moves past the
/// word. The length, which must fit in 32 bits too, is read, the vector is allocated with room
/// for that many elements, and the writer pointer set to its first element.
pub open spec fn vector_unpack_head_code(reader: u32, cref: u32, c: AbiCallees, n: int, ssize: u32) -> Seq<InstrView> {
    fits_u32_check_code(reader) + seq![
        InstrView::LocalGet(reader),
        InstrView::Load(ValType::I32, 28),
        InstrView::Call(c.swap_i32_bytes),
        InstrView::LocalGet(cref),
        InstrView::Binop(BinaryOp::I32Add),
        InstrView::LocalSet(n as u32),
        InstrView::LocalGet(reader),
        InstrView::I32Const(32),
        InstrView::Binop(BinaryOp::I32Add),
        InstrView::LocalSet(reader),
    ] + fits_u32_check_code(n as u32) + seq![
        InstrView::LocalGet(n as u32),
        InstrView::Load(ValType::I32, 28),
        InstrView::Call(c.swap_i32_bytes),
        InstrView::LocalSet((n + 1) as u32),
        InstrView::LocalGet(n as u32),
        InstrView::I32Const(32),
        InstrView::Binop(BinaryOp::I32Add),
        InstrView::LocalSet(n as u32),
    ] + allocate_vector_code((n + 2) as u32, (n + 1) as u32, (n + 1) as u32, ssize, c.allocator) + seq![
        InstrView::LocalGet((n + 2) as u32),
        InstrView::LocalSet((n + 3) as u32),
        InstrView::LocalGet((n + 3) as u32),
        InstrView::I32Const(8),
        InstrView::Binop(BinaryOp::I32Add),
        InstrView::LocalSet((n + 3) as u32),
        InstrView::I32Const(0),
        InstrView::LocalSet((n + 4) as u32),
        InstrView::LocalGet(n as u32),
        InstrView::LocalSet((n + 5) as u32),
    ]
}

/// The instructions that end each turn of a vector argument's loop: the element read is stored
/// as a value of type `t` at the writer pointer, which moves `ssize` bytes on, the counter moves
/// one on, and the loop runs again while it is below the length.
pub open spec fn vector_unpack_step_code(n: int, t: ValType, ssize: u32) -> Seq<InstrView> {
    seq![
        InstrView::Store(t, 0),
        InstrView::LocalGet((n + 3) as u32),
        InstrView::I32Const(ssize),
        InstrView::Binop(BinaryOp::I32Add),
        InstrView::LocalSet((n + 3) as u32),
        InstrView::LocalGet((n + 4) as u32),
        InstrView::I32Const(1),
        InstrView::Binop(BinaryOp::I32Add),
        InstrView::LocalTee((n + 4) as u32),
        InstrView::LocalGet((n + 1) as u32),
        InstrView::Binop(BinaryOp::I32LtU),
        InstrView::BrIf(0),
    ]
}

/// The instructions that read an argument of type `t` at the reader pointer in local `reader`,
/// leave its value (or a pointer to it) on the stack, and move the reader past its word; local
/// `cref` holds the calldata reader pointer that offsets are counted from, the callees are `c`,
/// the module's enums `enums`, and fresh locals are numbered from `n`. An immediate value is
/// read from the end of its word; a `u128`, `u256`, address or enum is read into newly
/// allocated memory; a vector's elements are read in a loop from its data, each as its type,
/// into a newly allocated vector (the loop tests the length after each turn, so an empty
/// vector's first turn reads the word after its length into the room `vector_room` gives it); a reference to an immediate value is read into newly
/// allocated memory, and a reference to another value is read as that value.
pub open spec fn unpack_code(t: IType, reader: u32, cref: u32, c: AbiCallees, enums: Seq<IEnum>, n: int) -> Seq<InstrView>
    decreases t,
{
    match t {
        IType::Bool | IType::U8 | IType::U16 | IType::U32 => unpack_i32_code(reader, 32, c.swap_i32_bytes),
        IType::U64 => unpack_i64_code(reader, 32, c.swap_i64_bytes),
        IType::U128 => unpack_u128_code(reader, n as u32, c.allocator, c.swap_i64_bytes),
        IType::U256 => unpack_u256_code(reader, n as u32, c.allocator, c.swap_i64_bytes),
        IType::Address => unpack_address_code(reader, n as u32, c.allocator),
        IType::Enum(i) => unpack_enum_code(
            enums[i as int].variants@.len(),
            reader,
            n as u32,
            (n + 1) as u32,
            c.allocator,
            c.swap_i32_bytes,
        ),
        IType::Vector(inner) => {
            let ssize = stack_data_size(*inner) as u32;
            vector_unpack_head_code(reader, cref, c, n, ssize).push(
                InstrView::Loop(
                    seq![InstrView::LocalGet((n + 3) as u32)]
                        + unpack_code(*inner, n as u32, (n + 5) as u32, c, enums, n + 6)
                        + vector_unpack_step_code(n, local_val_type(*inner), ssize),
                ),
            ).push(InstrView::LocalGet((n + 2) as u32))
        },
        IType::Ref(inner) | IType::MutRef(inner) => if is_immediate(*inner) {
            seq![
                InstrView::I32Const(stack_data_size(*inner) as u32),
                InstrView::Call(c.allocator),
                InstrView::LocalTee(n as u32),
            ] + unpack_code(*inner, reader, cref, c, enums, n + 1) + seq![
                InstrView::Store(local_val_type(*inner), 0),
                InstrView::LocalGet(n as u32),
            ]
        } else {
            unpack_code(*inner, reader, cref, c, enums, n)
        },
        _ => Seq::empty(),
    }
}

impl IntermediateType {
    /// Appends the instructions that read an argument of this type at the reader pointer in
    /// local `reader_pointer` and leave its value, or a pointer to it, on the stack (see
    /// `unpack_code`). The reader pointer moves past the argument's word; the calldata reader
    /// pointer in local `calldata_reader_pointer`, from which offsets are counted, is not
    /// changed. Fresh locals are added to `locals`, after `first_local` parameters; the callees
    /// are `callees`, and the module's enums those of `compilation_ctx`.
    #[verifier::rlimit(40)]
    pub fn add_unpack_instructions<M, F>(
        &self,
        block: &mut Vec<Instr>,
        locals: &mut Vec<ValType>,
        first_local: u32,
        reader_pointer: u32,
        calldata_reader_pointer: u32,
        compilation_ctx: &CompilationContext<M, F>,
        callees: AbiCallees,
    )
        requires
            unpackable(self@, compilation_ctx.root_module_data.enums.enums@),
            first_local + old(locals)@.len() + unpack_locals(self@).len() <= u32::MAX,
        ensures
            instrs_view(final(block)@) == instrs_view(old(block)@) + unpack_code(
                self@,
                reader_pointer,
                calldata_reader_pointer,
                callees,
                compilation_ctx.root_module_data.enums.enums@,
                first_local + old(locals)@.len(),
            ),
            final(locals)@ == old(locals)@ + unpack_locals(self@),
        decreases self, 0int,
    {
        let ghost locals0 = locals@;
        match self {
            IntermediateType::IBool => {
                IBool::add_unpack_instructions(block, reader_pointer, calldata_reader_pointer, callees.swap_i32_bytes);
            },
            IntermediateType::IU8 => {
                IU8::add_unpack_instructions(block, reader_pointer, calldata_reader_pointer, callees.swap_i32_bytes);
            },
            IntermediateType::IU16 => {
                IU16::add_unpack_instructions(block, reader_pointer, calldata_reader_pointer, callees.swap_i32_bytes);
            },
            IntermediateType::IU32 => {
                IU32::add_unpack_instructions(block, reader_pointer, calldata_reader_pointer, callees.swap_i32_bytes);
            },
            IntermediateType::IU64 => {
                IU64::add_unpack_instructions(block, reader_pointer, calldata_reader_pointer, callees.swap_i64_bytes);
            },
            IntermediateType::IU128 => {
                let unpacked_pointer = add_local(locals, first_local, ValType::I32);
                IU128::add_unpack_instructions(
                    block,
                    reader_pointer,
                    calldata_reader_pointer,
                    unpacked_pointer,
                    callees.allocator,
                    callees.swap_i64_bytes,
                );
            },
            IntermediateType::IU256 => {
                let unpacked_pointer = add_local(locals, first_local, ValType::I32);
                IU256::add_unpack_instructions(
                    block,
                    reader_pointer,
                    calldata_reader_pointer,
                    unpacked_pointer,
                    callees.allocator,
                    callees.swap_i64_bytes,
                );
            },
            IntermediateType::IAddress => {
                let unpacked_pointer = add_local(locals, first_local, ValType::I32);
                IAddress::add_unpack_instructions(
                    block,
                    reader_pointer,
                    calldata_reader_pointer,
                    unpacked_pointer,
                    callees.allocator,
                );
            },
            IntermediateType::IEnum(index) => {
                let enum_ = &compilation_ctx.root_module_data.enums.enums[*index as usize];
                let enum_ptr = add_local(locals, first_local, ValType::I32);
                let variant_number = add_local(locals, first_local, ValType::I32);
                IEnum::add_unpack_instructions(
                    enum_,
                    block,
                    reader_pointer,
                    enum_ptr,
                    variant_number,
                    callees.allocator,
                    callees.swap_i32_bytes,
                );
            },
            IntermediateType::IVector(inner) => {
                IVector::add_unpack_instructions(
                    inner,
                    block,
                    locals,
                    first_local,
                    reader_pointer,
                    calldata_reader_pointer,
                    compilation_ctx,
                    callees,
                );
            },
            IntermediateType::IRef(inner) => {
                IRef::add_unpack_instructions(
                    inner,
                    block,
                    locals,
                    first_local,
                    reader_pointer,
                    calldata_reader_pointer,
                    compilation_ctx,
                    callees,
                );
            },
            IntermediateType::IMutRef(inner) => {
                IMutRef::add_unpack_instructions(
                    inner,
                    block,
                    locals,
                    first_local,
                    reader_pointer,
                    calldata_reader_pointer,
                    compilation_ctx,
                    callees,
                );
            },
            _ => {
                proof {
                    assert(false);
                }
            },
        }
        proof {
            assert(locals@ =~= locals0 + unpack_locals(self@));
        }
    }
}

/// Appends the instructions that allocate a vector of the capacity in local `capacity`, of
/// elements of `data_size` bytes each, with callee `allocator`, keeping the length in local
/// `length` and the capacity in its first eight bytes and its address in local
/// `vector_pointer` (see `allocate_vector_code`).
pub fn allocate_vector_with_header(
    block: &mut Vec<Instr>,
    vector_pointer: u32,
    length: u32,
    capacity: u32,
    data_size: u32,
    allocator: u32,
)
    ensures
        instrs_view(final(block)@) == instrs_view(old(block)@) + allocate_vector_code(
            vector_pointer,
            length,
            capacity,
            data_size,
            allocator,
        ),
{
    let ghost before = instrs_view(block@);
    let mut room: Vec<Instr> = Vec::new();
    push_instr(&mut room, Instr::LocalGet(capacity));
    push_instr(&mut room, Instr::I32Const(data_size));
    push_instr(&mut room, Instr::Binop(BinaryOp::I32Mul));
    let mut no_room: Vec<Instr> = Vec::new();
    push_instr(&mut no_room, Instr::I32Const(8));
    proof {
        assert(instrs_view(room@) =~= seq![InstrView::LocalGet(capacity), InstrView::I32Const(data_size), InstrView::Binop(BinaryOp::I32Mul)]);
        assert(instrs_view(no_room@) =~= seq![InstrView::I32Const(8)]);
    }
    push_instr(block, Instr::LocalGet(capacity));
    // An empty vector gets room for the one element the first turn of a copy loop writes
    push_instr(block, Instr::IfElse(Some(ValType::I32), room, no_room));
    push_instr(block, Instr::I32Const(8));
    push_instr(block, Instr::Binop(BinaryOp::I32Add));
    push_instr(block, Instr::Call(allocator));
    push_instr(block, Instr::LocalTee(vector_pointer));
    push_instr(block, Instr::LocalGet(length));
    push_instr(block, Instr::Store(ValType::I32, 0));
    push_instr(block, Instr::LocalGet(vector_pointer));
    push_instr(block, Instr::LocalGet(capacity));
    push_instr(block, Instr::Store(ValType::I32, 4));
    assert(instrs_view(block@) =~= before + allocate_vector_code(vector_pointer, length, capacity, data_size, allocator));
}

/// Appends `zero_word_check`.
fn add_zero_word_check(block: &mut Vec<Instr>, p: u32, o: u32)
    ensures
        instrs_view(final(block)@) == instrs_view(old(block)@).push(zero_word_check(p, o)),
{
    let mut check: Vec<Instr> = Vec::new();
    push_instr(&mut check, Instr::LocalGet(p));
    push_instr(&mut check, Instr::Load(ValType::I32, o));
    push_instr(&mut check, Instr::I32Const(0));
    push_instr(&mut check, Instr::Binop(BinaryOp::I32Eq));
    push_instr(&mut check, Instr::BrIf(0));
    push_instr(&mut check, Instr::Unreachable);
    assert(instrs_view(check@) =~= seq![
        InstrView::LocalGet(p),
        InstrView::Load(ValType::I32, o),
        InstrView::I32Const(0),
        InstrView::Binop(BinaryOp::I32Eq),
        InstrView::BrIf(0),
        InstrView::Unreachable,
    ]);
    push_instr(block, Instr::Block(check));
}

/// Appends the instructions that trap unless the number in the ABI word at the address in local
/// `p` fits in 32 bits (see `fits_u32_check_code`).
pub fn add_fits_u32_check(block: &mut Vec<Instr>, p: u32)
    ensures
        instrs_view(final(block)@) == instrs_view(old(block)@) + fits_u32_check_code(p),
{
    let ghost before = instrs_view(block@);
    add_zero_word_check(block, p, 0);
    add_zero_word_check(block, p, 4);
    add_zero_word_check(block, p, 8);
    add_zero_word_check(block, p, 12);
    add_zero_word_check(block, p, 16);
    add_zero_word_check(block, p, 20);
    add_zero_word_check(block, p, 24);
    assert(instrs_view(block@) =~= before + fits_u32_check_code(p));
}

} // verus!

verus! {

/// The locals that reading arguments of types `ts`, in order, adds.
pub open spec fn args_unpack_locals(ts: Seq<IType>) -> Seq<ValType>
    decreases ts.len(),
{
    if ts.len() == 0 {
        Seq::empty()
    } else {
        args_unpack_locals(ts.drop_last()) + unpack_locals(ts.last())
    }
}

/// The instructions that read arguments of types `ts` in turn, with the reader pointer in local
/// `n`, the calldata reader pointer in local `n + 1`, and the arguments' own fresh locals
/// following.
pub open spec fn args_unpack_code(ts: Seq<IType>, c: AbiCallees, enums: Seq<IEnum>, n: int) -> Seq<InstrView>
    decreases ts.len(),
{
    if ts.len() == 0 {
        Seq::empty()
    } else {
        args_unpack_code(ts.drop_last(), c, enums, n) + unpack_code(
            ts.last(),
            n as u32,
            (n + 1) as u32,
            c,
            enums,
            n + 2 + args_unpack_locals(ts.drop_last()).len(),
        )
    }
}

/// The instructions that read the ABI encoded arguments of types `ts`, a tuple, at the address
/// in local `args` onto the stack, with fresh locals numbered from `n`: the reader pointer
/// (local `n`) and the calldata reader pointer (local `n + 1`) start at that address, and each
/// argument is read in turn (see `unpack_code`).
pub open spec fn build_unpack_code(ts: Seq<IType>, args: u32, c: AbiCallees, enums: Seq<IEnum>, n: int) -> Seq<InstrView> {
    seq![InstrView::LocalGet(args), InstrView::LocalTee(n as u32), InstrView::LocalSet((n + 1) as u32)]
        + args_unpack_code(ts, c, enums, n)
}

/// The locals that `build_unpack_code` adds: the reader pointer, the calldata reader pointer,
/// then those of the arguments.
pub open spec fn build_unpack_locals(ts: Seq<IType>) -> Seq<ValType> {
    seq![ValType::I32, ValType::I32] + args_unpack_locals(ts)
}

/// The locals that reading a prefix of the arguments adds are at most those of all of them.
pub proof fn lemma_args_unpack_locals_prefix(ts: Seq<IType>, j: int)
    requires
        0 <= j <= ts.len(),
    ensures
        args_unpack_locals(ts.take(j)).len() <= args_unpack_locals(ts).len(),
    decreases ts.len(),
{
    if j < ts.len() {
        assert(ts.drop_last().take(j) =~= ts.take(j));
        lemma_args_unpack_locals_prefix(ts.drop_last(), j);
    } else {
        assert(ts.take(j) =~= ts);
    }
}

/// Appends the instructions that read the ABI encoded arguments of the types of
/// `function_arguments_signature`, at the address in local `args_pointer`, onto the stack as the
/// function's parameters (see `build_unpack_code`). Fresh locals are added to `locals`, after
/// `first_local` parameters.
#[verifier::rlimit(60)]
pub fn build_unpack_instructions<M, F>(
    block: &mut Vec<Instr>,
    function_arguments_signature: &[IntermediateType],
    args_pointer: u32,
    locals: &mut Vec<ValType>,
    first_local: u32,
    compilation_ctx: &CompilationContext<M, F>,
    callees: AbiCallees,
)
    requires
        forall|j: int| 0 <= j < function_arguments_signature@.len() ==> unpackable(
            #[trigger] function_arguments_signature@[j]@,
            compilation_ctx.root_module_data.enums.enums@,
        ),
        first_local + old(locals)@.len() + build_unpack_locals(
            function_arguments_signature@.map_values(|t: IntermediateType| t@),
        ).len() <= u32::MAX,
    ensures
        instrs_view(final(block)@) == instrs_view(old(block)@) + build_unpack_code(
            function_arguments_signature@.map_values(|t: IntermediateType| t@),
            args_pointer,
            callees,
            compilation_ctx.root_module_data.enums.enums@,
            first_local + old(locals)@.len(),
        ),
        final(locals)@ == old(locals)@ + build_unpack_locals(function_arguments_signature@.map_values(|t: IntermediateType| t@)),
{
    let ghost views = function_arguments_signature@.map_values(|t: IntermediateType| t@);
    let ghost enums = compilation_ctx.root_module_data.enums.enums@;
    let ghost locals0 = locals@;
    let ghost before = instrs_view(block@);
    let ghost n: int = first_local + locals@.len();
    let reader_pointer = add_local(locals, first_local, ValType::I32);
    let calldata_reader_pointer = add_local(locals, first_local, ValType::I32);
    push_instr(block, Instr::LocalGet(args_pointer));
    push_instr(block, Instr::LocalTee(reader_pointer));
    push_instr(block, Instr::LocalSet(calldata_reader_pointer));
    let ghost head = instrs_view(block@);
    let ghost locals1 = locals@;
    proof {
        assert(head =~= before + seq![InstrView::LocalGet(args_pointer), InstrView::LocalTee(n as u32), InstrView::LocalSet((n + 1) as u32)]);
    }

    // The arguments are a tuple: static values are read in place, dynamic ones through offsets
    let mut j: usize = 0;
    while j < function_arguments_signature.len()
        invariant
            0 <= j <= function_arguments_signature@.len(),
            views == function_arguments_signature@.map_values(|t: IntermediateType| t@),
            forall|i: int| 0 <= i < function_arguments_signature@.len() ==> unpackable(#[trigger] function_arguments_signature@[i]@, enums),
            enums == compilation_ctx.root_module_data.enums.enums@,
            n == first_local + locals0.len(),
            reader_pointer == n,
            calldata_reader_pointer == n + 1,
            n + build_unpack_locals(views).len() <= u32::MAX,
            locals1 == locals0 + seq![ValType::I32, ValType::I32],
            locals@ == locals1 + args_unpack_locals(views.take(j as int)),
            instrs_view(block@) == head + args_unpack_code(views.take(j as int), callees, enums, n),
        decreases function_arguments_signature@.len() - j,
    {
        let t = &function_arguments_signature[j];
        proof {
            assert(views[j as int] == t@);
            assert(unpackable(t@, enums));
            lemma_args_unpack_locals_prefix(views, j + 1);
            assert(views.take(j + 1).drop_last() =~= views.take(j as int));
            assert(views.take(j + 1).last() == t@);
        }
        t.add_unpack_instructions(block, locals, first_local, reader_pointer, calldata_reader_pointer, compilation_ctx, callees);
        proof {
            assert(instrs_view(block@) =~= head + args_unpack_code(views.take(j + 1), callees, enums, n));
            assert(locals@ =~= locals1 + args_unpack_locals(views.take(j + 1)));
        }
        j = j + 1;
    }
    proof {
        assert(views.take(j as int) =~= views);
        assert(instrs_view(block@) =~= before + build_unpack_code(views, args_pointer, callees, enums, n));
        assert(locals@ =~= locals0 + build_unpack_locals(views));
    }
}

} // verus!
