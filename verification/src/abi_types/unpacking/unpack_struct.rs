//! Reading a struct from its ABI encoding, the tuple of its fields: a static struct is read in
//! place; a dynamic one is read where the offset in its word points, from the calldata reader.
//! Each field is read as its type into a newly allocated struct that points to each field.
use vstd::prelude::*;

use crate::abi_types::packing::{AbiCallees, abi_is_dynamic, add_local, is_immediate, layout_known, local_val_type, stack_data_size};
use crate::abi_types::unpacking::{add_fits_u32_check, fits_u32_check_code, unpack_code, unpack_locals, unpackable};
use crate::compilation_context::CompilationContext;
use crate::intermediate_types::{IEnum, IStruct, IType, IntermediateType, itype_seq_view, lemma_itype_seq_view};
use crate::wasm::{BinaryOp, Instr, InstrView, ValType, instrs_view, push_instr};

verus! {

/// Whether a type that can be read has a known ABI layout.
pub proof fn lemma_unpackable_layout_known(t: IType, enums: Seq<IEnum>)
    requires
        unpackable(t, enums),
    ensures
        layout_known(t),
    decreases t,
{
    match t {
        IType::Vector(inner) | IType::Ref(inner) | IType::MutRef(inner) => lemma_unpackable_layout_known(*inner, enums),
        _ => {},
    }
}

/// Whether a struct with fields of types `fields` is encoded dynamically: when one of its fields
/// is.
pub open spec fn struct_is_dynamic(fields: Seq<IType>) -> bool {
    exists|i: int| 0 <= i < fields.len() && abi_is_dynamic(#[trigger] fields[i])
}

/// Whether a struct with fields of types `fields` can be read: each field can be (a field that
/// is a struct cannot).
pub open spec fn struct_unpackable(fields: Seq<IType>, enums: Seq<IEnum>) -> bool {
    forall|i: int| 0 <= i < fields.len() ==> unpackable(#[trigger] fields[i], enums)
}

/// The local that holds the value of a field of type `t` before it is stored, among the fresh
/// locals numbered from `n`: `n + 2` (an `i64`) for a `u64`, `n + 1` for any other type.
pub open spec fn unpacked_value_local(t: IType, n: int) -> u32 {
    if t is U64 {
        (n + 2) as u32
    } else {
        (n + 1) as u32
    }
}

/// The instructions that read field `i`, of type `t`, from the data reader (local `n + 4`),
/// offsets counted from local `n + 5`, with the field's fresh locals from `m`, and keep a
/// pointer to it in field `i` of the struct at the address in local `n`: an immediate value
/// is stored in newly allocated memory, any other value is already a pointer.
pub open spec fn unpack_struct_field_code(t: IType, i: int, c: AbiCallees, enums: Seq<IEnum>, n: int, m: int) -> Seq<InstrView> {
    unpack_code(t, (n + 4) as u32, (n + 5) as u32, c, enums, m) + if is_immediate(t) {
        seq![
            InstrView::LocalSet(unpacked_value_local(t, n)),
            InstrView::I32Const(stack_data_size(t) as u32),
            InstrView::Call(c.allocator),
            InstrView::LocalTee((n + 3) as u32),
            InstrView::LocalGet(unpacked_value_local(t, n)),
            InstrView::Store(local_val_type(t), 0),
        ]
    } else {
        seq![InstrView::LocalSet((n + 3) as u32)]
    } + seq![
        InstrView::LocalGet(n as u32),
        InstrView::LocalGet((n + 3) as u32),
        InstrView::Store(ValType::I32, (4 * i) as u32),
    ]
}

/// The fresh locals that reading the fields `fields` adds, in order.
pub open spec fn unpack_struct_fields_locals(fields: Seq<IType>) -> Seq<ValType>
    decreases fields.len(),
{
    if fields.len() == 0 {
        Seq::empty()
    } else {
        unpack_struct_fields_locals(fields.drop_last()) + unpack_locals(fields.last())
    }
}

/// The instructions that read the fields `fields` in order (see `unpack_struct_field_code`);
/// the fields' own fresh locals start at `n + 6`.
pub open spec fn unpack_struct_fields_code(fields: Seq<IType>, c: AbiCallees, enums: Seq<IEnum>, n: int) -> Seq<InstrView>
    decreases fields.len(),
{
    if fields.len() == 0 {
        Seq::empty()
    } else {
        unpack_struct_fields_code(fields.drop_last(), c, enums, n) + unpack_struct_field_code(
            fields.last(),
            fields.len() - 1,
            c,
            enums,
            n,
            n + 6 + unpack_struct_fields_locals(fields.drop_last()).len(),
        )
    }
}

/// The instructions that set the data reader (local `n + 4`) and the calldata reference (local
/// `n + 5`) of a struct argument whose word is at the reader pointer in local `reader`: for a
/// dynamic struct, the offset in the word, which must fit in 32 bits, from the calldata reader
/// pointer in local `cref`; for a static struct, the reader and calldata reader pointers.
pub open spec fn unpack_struct_head_code(dynamic: bool, reader: u32, cref: u32, c: AbiCallees, n: int) -> Seq<InstrView> {
    if dynamic {
        fits_u32_check_code(reader) + seq![
            InstrView::LocalGet(reader),
            InstrView::Load(ValType::I32, 28),
            InstrView::Call(c.swap_i32_bytes),
            InstrView::LocalGet(cref),
            InstrView::Binop(BinaryOp::I32Add),
            InstrView::LocalTee((n + 4) as u32),
            InstrView::LocalSet((n + 5) as u32),
        ]
    } else {
        seq![
            InstrView::LocalGet(reader),
            InstrView::LocalSet((n + 4) as u32),
            InstrView::LocalGet(cref),
            InstrView::LocalSet((n + 5) as u32),
        ]
    }
}

/// The instructions that read a struct argument with fields of types `fields` at the reader
/// pointer in local `reader` (see `unpack_struct_head_code`), with fresh locals from `n` (the
/// struct `n`, an `i32` and an `i64` value `n + 1` and `n + 2`, a field pointer `n + 3`, the
/// data reader `n + 4` and the calldata reference `n + 5`): the struct is allocated with four
/// bytes for each field's pointer, each field is read in turn, the reader moves past the
/// argument, 32 bytes for a dynamic struct and 32 bytes for each field of a static one, and the
/// struct's address is left on the stack.
pub open spec fn unpack_struct_code(fields: Seq<IType>, reader: u32, cref: u32, c: AbiCallees, enums: Seq<IEnum>, n: int) -> Seq<InstrView> {
    let dynamic = struct_is_dynamic(fields);
    unpack_struct_head_code(dynamic, reader, cref, c, n) + seq![
        InstrView::I32Const((4 * fields.len()) as u32),
        InstrView::Call(c.allocator),
        InstrView::LocalSet(n as u32),
    ] + unpack_struct_fields_code(fields, c, enums, n) + seq![
        InstrView::LocalGet(reader),
        InstrView::I32Const(if dynamic { 32 } else { (32 * fields.len()) as u32 }),
        InstrView::Binop(BinaryOp::I32Add),
        InstrView::LocalSet(reader),
        InstrView::LocalGet(n as u32),
    ]
}

/// The fresh locals that reading a struct with fields of types `fields` adds.
pub open spec fn unpack_struct_locals(fields: Seq<IType>) -> Seq<ValType> {
    seq![ValType::I32, ValType::I32, ValType::I64, ValType::I32, ValType::I32, ValType::I32] + unpack_struct_fields_locals(fields)
}

/// The locals of the fields before field `j` are at most those of all of them.
pub proof fn lemma_unpack_struct_fields_locals_prefix(fields: Seq<IType>, j: int)
    requires
        0 <= j <= fields.len(),
    ensures
        unpack_struct_fields_locals(fields.take(j)).len() <= unpack_struct_fields_locals(fields).len(),
    decreases fields.len(),
{
    if j < fields.len() {
        assert(fields.drop_last().take(j) =~= fields.take(j));
        lemma_unpack_struct_fields_locals_prefix(fields.drop_last(), j);
    } else {
        assert(fields.take(j) =~= fields);
    }
}

impl IStruct {
    /// Whether this struct is encoded dynamically (see `struct_is_dynamic`).
    pub fn solidity_abi_encode_is_dynamic(&self, enums: &Vec<IEnum>) -> (r: bool)
        requires
            struct_unpackable(self@.fields, enums@),
        ensures
            r == struct_is_dynamic(self@.fields),
    {
        proof {
            lemma_itype_seq_view(self.fields@);
        }
        let ghost fields = self@.fields;
        let mut i: usize = 0;
        while i < self.fields.len()
            invariant
                0 <= i <= self.fields@.len(),
                fields == itype_seq_view(self.fields@),
                fields.len() == self.fields@.len(),
                forall|j: int| 0 <= j < self.fields@.len() ==> #[trigger] fields[j] == self.fields@[j]@,
                struct_unpackable(fields, enums@),
                forall|j: int| 0 <= j < i ==> !abi_is_dynamic(#[trigger] fields[j]),
            decreases self.fields@.len() - i,
        {
            proof {
                lemma_unpackable_layout_known(fields[i as int], enums@);
            }
            if self.fields[i].is_dynamic() {
                return true;
            }
            i = i + 1;
        }
        false
    }

    /// Appends the instructions that read this struct as an argument at the reader pointer in
    /// local `reader_pointer`, offsets counted from the calldata reader pointer in local
    /// `calldata_reader_pointer`, into a newly allocated struct whose address is left on the
    /// stack (see `unpack_struct_code`). The fresh locals are added to `locals`, after
    /// `first_local` parameters; the callees are `callees` and the module's enums those of
    /// `compilation_ctx`.
    #[verifier::rlimit(60)]
    pub fn add_unpack_instructions<M, F>(
        &self,
        block: &mut Vec<Instr>,
        locals: &mut Vec<ValType>,
        first_local: u32,
        reader_pointer: u32,
        calldata_reader_pointer: u32,
        compilation_ctx: &CompilationContext<M, F>,
        callees: AbiCallees,
    )
        requires
            struct_unpackable(self@.fields, compilation_ctx.root_module_data.enums.enums@),
            self@.fields.len() <= 0x100_0000,
            first_local + old(locals)@.len() + unpack_struct_locals(self@.fields).len() <= u32::MAX,
        ensures
            instrs_view(final(block)@) == instrs_view(old(block)@) + unpack_struct_code(
                self@.fields,
                reader_pointer,
                calldata_reader_pointer,
                callees,
                compilation_ctx.root_module_data.enums.enums@,
                first_local + old(locals)@.len(),
            ),
            final(locals)@ == old(locals)@ + unpack_struct_locals(self@.fields),
    {
        let ghost n: int = first_local + locals@.len();
        let ghost locals0 = locals@;
        let ghost before = instrs_view(block@);
        let ghost fields = self@.fields;
        let ghost enums = compilation_ctx.root_module_data.enums.enums@;
        proof {
            lemma_itype_seq_view(self.fields@);
        }
        let struct_ptr = add_local(locals, first_local, ValType::I32);
        let val_32 = add_local(locals, first_local, ValType::I32);
        let val_64 = add_local(locals, first_local, ValType::I64);
        let field_ptr = add_local(locals, first_local, ValType::I32);
        let data_reader_pointer = add_local(locals, first_local, ValType::I32);
        let calldata_ptr = add_local(locals, first_local, ValType::I32);
        let dynamic = self.solidity_abi_encode_is_dynamic(&compilation_ctx.root_module_data.enums.enums);
        if dynamic {
            // The offset must fit in 32 bits
            add_fits_u32_check(block, reader_pointer);
            push_instr(block, Instr::LocalGet(reader_pointer));
            push_instr(block, Instr::Load(ValType::I32, 28));
            push_instr(block, Instr::Call(callees.swap_i32_bytes));
            push_instr(block, Instr::LocalGet(calldata_reader_pointer));
            push_instr(block, Instr::Binop(BinaryOp::I32Add));
            push_instr(block, Instr::LocalTee(data_reader_pointer));
            push_instr(block, Instr::LocalSet(calldata_ptr));
        } else {
            push_instr(block, Instr::LocalGet(reader_pointer));
            push_instr(block, Instr::LocalSet(data_reader_pointer));
            push_instr(block, Instr::LocalGet(calldata_reader_pointer));
            push_instr(block, Instr::LocalSet(calldata_ptr));
        }
        let field_count = self.fields.len() as u32;
        push_instr(block, Instr::I32Const(4 * field_count));
        push_instr(block, Instr::Call(callees.allocator));
        push_instr(block, Instr::LocalSet(struct_ptr));
        let ghost head = unpack_struct_head_code(dynamic, reader_pointer, calldata_reader_pointer, callees, n) + seq![
            InstrView::I32Const((4 * fields.len()) as u32),
            InstrView::Call(callees.allocator),
            InstrView::LocalSet(n as u32),
        ];
        proof {
            assert(locals@ =~= locals0 + seq![ValType::I32, ValType::I32, ValType::I64, ValType::I32, ValType::I32, ValType::I32]);
            assert(fields.take(0) =~= Seq::<IType>::empty());
            assert(instrs_view(block@) =~= before + head + unpack_struct_fields_code(fields.take(0), callees, enums, n));
        }
        let mut index: usize = 0;
        while index < self.fields.len()
            invariant
                0 <= index <= self.fields@.len(),
                fields == itype_seq_view(self.fields@),
                fields.len() == self.fields@.len(),
                forall|j: int| 0 <= j < self.fields@.len() ==> #[trigger] fields[j] == self.fields@[j]@,
                fields.len() <= 0x100_0000,
                struct_unpackable(fields, enums),
                enums == compilation_ctx.root_module_data.enums.enums@,
                n == first_local + locals0.len(),
                n + unpack_struct_locals(fields).len() <= u32::MAX,
                struct_ptr == n,
                val_32 == n + 1,
                val_64 == n + 2,
                field_ptr == n + 3,
                data_reader_pointer == n + 4,
                calldata_ptr == n + 5,
                locals@ == locals0 + seq![ValType::I32, ValType::I32, ValType::I64, ValType::I32, ValType::I32, ValType::I32]
                    + unpack_struct_fields_locals(fields.take(index as int)),
                instrs_view(block@) == before + head + unpack_struct_fields_code(fields.take(index as int), callees, enums, n),
            decreases self.fields@.len() - index,
        {
            let field = &self.fields[index];
            let ghost t = fields[index as int];
            let ghost prefix = fields.take(index as int);
            let ghost m = n + 6 + unpack_struct_fields_locals(prefix).len();
            let ghost start = instrs_view(block@);
            proof {
                assert(fields.take(index + 1).drop_last() =~= prefix);
                assert(fields.take(index + 1).last() == t);
                lemma_unpack_struct_fields_locals_prefix(fields, index + 1);
                assert(unpack_struct_fields_locals(fields.take(index + 1)) == unpack_struct_fields_locals(prefix) + unpack_locals(t));
                assert(unpackable(t, enums));
            }
            field.add_unpack_instructions(
                block,
                locals,
                first_local,
                data_reader_pointer,
                calldata_ptr,
                compilation_ctx,
                callees,
            );
            let ghost mid = instrs_view(block@);
            match field {
                IntermediateType::IBool | IntermediateType::IU8 | IntermediateType::IU16 | IntermediateType::IU32 => {
                    push_instr(block, Instr::LocalSet(val_32));
                    push_instr(block, Instr::I32Const(4));
                    push_instr(block, Instr::Call(callees.allocator));
                    push_instr(block, Instr::LocalTee(field_ptr));
                    push_instr(block, Instr::LocalGet(val_32));
                    push_instr(block, Instr::Store(ValType::I32, 0));
                },
                IntermediateType::IU64 => {
                    push_instr(block, Instr::LocalSet(val_64));
                    push_instr(block, Instr::I32Const(8));
                    push_instr(block, Instr::Call(callees.allocator));
                    push_instr(block, Instr::LocalTee(field_ptr));
                    push_instr(block, Instr::LocalGet(val_64));
                    push_instr(block, Instr::Store(ValType::I64, 0));
                },
                _ => {
                    push_instr(block, Instr::LocalSet(field_ptr));
                },
            }
            // The struct points to the field
            push_instr(block, Instr::LocalGet(struct_ptr));
            push_instr(block, Instr::LocalGet(field_ptr));
            push_instr(block, Instr::Store(ValType::I32, index as u32 * 4));
            proof {
                assert(instrs_view(block@) =~= start + unpack_struct_field_code(t, index as int, callees, enums, n, m));
                assert(instrs_view(block@) =~= before + head + unpack_struct_fields_code(fields.take(index + 1), callees, enums, n));
                assert(locals@ =~= locals0 + seq![ValType::I32, ValType::I32, ValType::I64, ValType::I32, ValType::I32, ValType::I32]
                    + unpack_struct_fields_locals(fields.take(index + 1)));
            }
            index = index + 1;
        }
        // The reader moves past the argument
        push_instr(block, Instr::LocalGet(reader_pointer));
        push_instr(block, Instr::I32Const(if dynamic { 32 } else { 32 * field_count }));
        push_instr(block, Instr::Binop(BinaryOp::I32Add));
        push_instr(block, Instr::LocalSet(reader_pointer));
        push_instr(block, Instr::LocalGet(struct_ptr));
        proof {
            assert(fields.take(index as int) =~= fields);
            assert(instrs_view(block@) =~= before + unpack_struct_code(
                fields,
                reader_pointer,
                calldata_reader_pointer,
                callees,
                enums,
                n,
            ));
        }
    }
}

} // verus!
