//! Datatypes that only the VM creates or injects, such as the primitive type signer or the
//! `TxContext` struct of the Stylus framework.
use vstd::prelude::*;

use crate::address::{Address, ModuleId, ModuleIdView};
use crate::text::str_equals;
use crate::wasm::{BinaryOp, Instr, InstrView, instrs_view, push_instr};

verus! {

/// The address of the Stylus framework: all bytes zero but the last, which is 2.
pub open spec fn stylus_framework_address() -> Seq<u8> {
    Seq::new(32, |i: int| if i == 31 { 2u8 } else { 0u8 })
}

/// The module that defines the only valid `TxContext`: `tx_context` of the Stylus framework.
pub open spec fn tx_context_module_view() -> ModuleIdView {
    ModuleIdView {
        address: stylus_framework_address(),
        module_name: seq!['t', 'x', '_', 'c', 'o', 'n', 't', 'e', 'x', 't'],
    }
}

/// The name of the transaction context struct.
pub open spec fn tx_context_identifier() -> Seq<char> {
    seq!['T', 'x', 'C', 'o', 'n', 't', 'e', 'x', 't']
}

/// The transaction context struct of the Stylus framework.
pub struct TxContext;

impl TxContext {
    pub const TX_CONTEXT_IDENTIFIER: &'static str = "TxContext";

    /// The identifier of the module `tx_context` of the Stylus framework.
    pub fn tx_context_module() -> (r: ModuleId)
        ensures
            r@ == tx_context_module_view(),
    {
        let mut bytes = [0u8; 32];
        bytes[31] = 2;
        let r = ModuleId { address: Address(bytes), module_name: String::from_str("tx_context") };
        proof {
            reveal_strlit("tx_context");
            assert(r@.address =~= stylus_framework_address());
            assert(r@.module_name =~= tx_context_module_view().module_name);
        }
        r
    }

    /// Whether the struct `identifier` of module `module_id` is the transaction context.
    ///
    /// The only valid `TxContext` is the one defined in the Stylus framework: a struct named
    /// `TxContext` from any other module is invalid, and is not accepted.
    pub fn struct_is_tx_context(module_id: &ModuleId, identifier: &str) -> (r: bool)
        requires
            identifier@ == tx_context_identifier() ==> module_id@ == tx_context_module_view(),
        ensures
            r == (identifier@ == tx_context_identifier()),
    {
        proof {
            reveal_strlit("TxContext");
            assert(Self::TX_CONTEXT_IDENTIFIER@ =~= tx_context_identifier());
        }
        str_equals(identifier, Self::TX_CONTEXT_IDENTIFIER)
    }

    /// Appends the instructions that push a transaction context: an empty struct, for which
    /// four bytes are reserved with callee `allocator` and their address pushed.
    pub fn inject_tx_context(block: &mut Vec<Instr>, allocator: u32)
        ensures
            instrs_view(final(block)@) == instrs_view(old(block)@) + seq![InstrView::I32Const(4), InstrView::Call(allocator)],
    {
        let ghost before = instrs_view(block@);
        push_instr(block, Instr::I32Const(4));
        push_instr(block, Instr::Call(allocator));
        assert(instrs_view(block@) =~= before + seq![InstrView::I32Const(4), InstrView::Call(allocator)]);
    }
}

/// The instructions that push the signer of the transaction: 32 bytes are allocated with callee
/// `allocator` and their address kept in local `signer_pointer`; the host function `tx_origin`
/// (callee `tx_origin`) writes the 20 bytes of the address that sent the transaction at their
/// end, 12 bytes in, and the address of the 32 bytes is pushed.
pub open spec fn inject_signer_code(signer_pointer: u32, allocator: u32, tx_origin: u32) -> Seq<InstrView> {
    seq![
        InstrView::I32Const(32),
        InstrView::Call(allocator),
        InstrView::LocalTee(signer_pointer),
        InstrView::I32Const(12),
        InstrView::Binop(BinaryOp::I32Add),
        InstrView::Call(tx_origin),
        InstrView::LocalGet(signer_pointer),
    ]
}

/// Appends the instructions that push the signer of the transaction (see
/// `inject_signer_code`), with local `signer_pointer` for its address.
pub fn inject_signer(block: &mut Vec<Instr>, signer_pointer: u32, allocator: u32, tx_origin: u32)
    ensures
        instrs_view(final(block)@) == instrs_view(old(block)@) + inject_signer_code(signer_pointer, allocator, tx_origin),
{
    let ghost before = instrs_view(block@);
    push_instr(block, Instr::I32Const(32));
    push_instr(block, Instr::Call(allocator));
    push_instr(block, Instr::LocalTee(signer_pointer));
    // The host writes the 20 bytes of the address, which go at the end of the 32 bytes
    push_instr(block, Instr::I32Const(12));
    push_instr(block, Instr::Binop(BinaryOp::I32Add));
    push_instr(block, Instr::Call(tx_origin));
    push_instr(block, Instr::LocalGet(signer_pointer));
    assert(instrs_view(block@) =~= before + inject_signer_code(signer_pointer, allocator, tx_origin));
}

} // verus!
