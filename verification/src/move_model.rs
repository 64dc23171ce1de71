//! The parts of a compiled Move module that the compiler reads, as plain values.
use vstd::prelude::*;

use crate::address::Address;

verus! {

broadcast use vstd::std_specs::vec::group_vec_axioms;

/// A type as written in a compiled Move module's signatures. Datatypes are referred to by the
/// index of their handle in the module.
#[derive(Debug, PartialEq, Eq)]
pub enum SignatureToken {
    Bool,
    U8,
    U16,
    U32,
    U64,
    U128,
    U256,
    Address,
    Signer,
    Vector(Box<SignatureToken>),
    /// A struct or enum, by datatype handle index.
    Datatype(u16),
    /// A generic struct or enum, by datatype handle index, with its type arguments.
    DatatypeInstantiation(u16, Vec<SignatureToken>),
    Reference(Box<SignatureToken>),
    MutableReference(Box<SignatureToken>),
    /// A type parameter, by position.
    TypeParameter(u16),
}

/// The mathematical value of a `SignatureToken`.
pub enum Token {
    Bool,
    U8,
    U16,
    U32,
    U64,
    U128,
    U256,
    Address,
    Signer,
    Vector(Box<Token>),
    Datatype(u16),
    DatatypeInstantiation(u16, Seq<Token>),
    Reference(Box<Token>),
    MutableReference(Box<Token>),
    TypeParameter(u16),
}

pub open spec fn token_view(t: SignatureToken) -> Token
    decreases t,
{
    match t {
        SignatureToken::Bool => Token::Bool,
        SignatureToken::U8 => Token::U8,
        SignatureToken::U16 => Token::U16,
        SignatureToken::U32 => Token::U32,
        SignatureToken::U64 => Token::U64,
        SignatureToken::U128 => Token::U128,
        SignatureToken::U256 => Token::U256,
        SignatureToken::Address => Token::Address,
        SignatureToken::Signer => Token::Signer,
        SignatureToken::Vector(inner) => Token::Vector(Box::new(token_view(*inner))),
        SignatureToken::Datatype(i) => Token::Datatype(i),
        SignatureToken::DatatypeInstantiation(i, types) => Token::DatatypeInstantiation(
            i,
            token_seq_view(types@),
        ),
        SignatureToken::Reference(inner) => Token::Reference(Box::new(token_view(*inner))),
        SignatureToken::MutableReference(inner) => Token::MutableReference(
            Box::new(token_view(*inner)),
        ),
        SignatureToken::TypeParameter(i) => Token::TypeParameter(i),
    }
}

pub open spec fn token_seq_view(s: Seq<SignatureToken>) -> Seq<Token>
    decreases s,
{
    if s.len() == 0 {
        Seq::empty()
    } else {
        token_seq_view(s.drop_last()).push(token_view(s.last()))
    }
}

impl View for SignatureToken {
    type V = Token;

    open spec fn view(&self) -> Token {
        token_view(*self)
    }
}

/// The view of a sequence has the same length and views each element.
pub proof fn lemma_token_seq_view(s: Seq<SignatureToken>)
    ensures
        token_seq_view(s).len() == s.len(),
        forall|i: int| 0 <= i < s.len() ==> #[trigger] token_seq_view(s)[i] == token_view(s[i]),
    decreases s.len(),
{
    if s.len() > 0 {
        lemma_token_seq_view(s.drop_last());
    }
}

} // verus!

verus! {

/// The ability `copy`, as a bit of an ability set.
pub const ABILITY_COPY: u8 = 0x1;

/// The ability `drop`, as a bit of an ability set.
pub const ABILITY_DROP: u8 = 0x2;

/// The ability `store`, as a bit of an ability set.
pub const ABILITY_STORE: u8 = 0x4;

/// The ability `key`, as a bit of an ability set.
pub const ABILITY_KEY: u8 = 0x8;

/// A module referred to by a compiled module: indices of its address and of its name.
pub struct ModuleHandle {
    pub address: u16,
    pub name: u16,
}

/// A struct or enum referred to by a compiled module.
pub struct DatatypeHandle {
    /// The module handle of the defining module.
    pub module: u16,
    /// The identifier index of the datatype's name.
    pub name: u16,
    /// The datatype's abilities, one bit each.
    pub abilities: u8,
    /// The number of the datatype's type parameters.
    pub type_parameters: usize,
}

/// A field of a struct or of an enum variant.
pub struct FieldDefinition {
    pub name: u16,
    pub signature: SignatureToken,
}

/// A struct defined by the module; a native struct has no field list.
pub struct StructDefinition {
    pub struct_handle: u16,
    pub fields: Option<Vec<FieldDefinition>>,
}

/// A variant of an enum.
pub struct VariantDefinition {
    pub variant_name: u16,
    pub fields: Vec<FieldDefinition>,
}

/// An enum defined by the module.
pub struct EnumDefinition {
    pub enum_handle: u16,
    pub variants: Vec<VariantDefinition>,
}

/// A field referred to by the module's code: the struct definition that owns it and its
/// position there.
pub struct FieldHandle {
    pub owner: u16,
    pub field: u16,
}

/// A variant referred to by the module's code: its enum definition and its position there.
pub struct VariantHandle {
    pub enum_def: u16,
    pub variant: u16,
}

/// A field of a generic struct instantiation: the field handle and the signature of the
/// type arguments.
pub struct FieldInstantiation {
    pub handle: u16,
    pub type_parameters: u16,
}

/// An instantiation of a generic struct: the struct definition and the signature of the type
/// arguments.
pub struct StructDefInstantiation {
    pub def: u16,
    pub type_parameters: u16,
}

/// A function referred to by the module: its defining module, its name, and the signatures of
/// its parameters and of its return values.
pub struct FunctionHandle {
    pub module: u16,
    pub name: u16,
    pub parameters: u16,
    pub return_: u16,
}

/// An instantiation of a generic function: the function handle and the signature of the type
/// arguments.
pub struct FunctionInstantiation {
    pub handle: u16,
    pub type_parameters: u16,
}

/// The visibility of a function definition.
#[derive(PartialEq, Eq, Structural, Debug, Clone, Copy)]
pub enum Visibility {
    Private,
    Public,
    Friend,
}

/// A function defined by the module.
pub struct FunctionDefinition {
    pub function: u16,
    pub visibility: Visibility,
    pub is_entry: bool,
    /// The number of global resources the function acquires.
    pub acquires_global_resources: usize,
    /// The signature of the locals of the function's code; a native function has no code.
    pub code_locals: Option<u16>,
}

/// The tables of a compiled Move module that the compiler reads.
pub struct CompiledModule {
    /// The module handle of the module itself.
    pub self_handle_idx: u16,
    pub module_handles: Vec<ModuleHandle>,
    pub datatype_handles: Vec<DatatypeHandle>,
    pub function_handles: Vec<FunctionHandle>,
    pub field_handles: Vec<FieldHandle>,
    pub variant_handles: Vec<VariantHandle>,
    pub struct_instantiations: Vec<StructDefInstantiation>,
    pub function_instantiations: Vec<FunctionInstantiation>,
    pub field_instantiations: Vec<FieldInstantiation>,
    pub signatures: Vec<Vec<SignatureToken>>,
    pub identifiers: Vec<String>,
    pub address_identifiers: Vec<Address>,
    pub struct_defs: Vec<StructDefinition>,
    pub enum_defs: Vec<EnumDefinition>,
    pub function_defs: Vec<FunctionDefinition>,
}

/// A compiled module of a package, with the name and address it is published under.
pub struct CompiledUnit {
    pub name: String,
    pub address: Address,
    pub module: CompiledModule,
}

impl CompiledModule {
    /// The text of identifier `i`.
    pub open spec fn identifier(&self, i: int) -> Seq<char> {
        self.identifiers@[i]@
    }
}

} // verus!

verus! {

/// Whether the indices that the handles of a module hold are in range of its tables.
pub open spec fn handles_in_range(m: &CompiledModule) -> bool {
    &&& m.self_handle_idx < m.module_handles@.len()
    &&& forall|i: int| 0 <= i < m.module_handles@.len() ==> (#[trigger] m.module_handles@[i]).name < m.identifiers@.len()
        && m.module_handles@[i].address < m.address_identifiers@.len()
    &&& forall|i: int| 0 <= i < m.datatype_handles@.len() ==> (#[trigger] m.datatype_handles@[i]).name < m.identifiers@.len()
        && m.datatype_handles@[i].module < m.module_handles@.len()
}

} // verus!
