//! The compiler's intermediate representation of Move types.
use vstd::prelude::*;

use crate::address::{ModuleId, ModuleIdView};
use crate::compilation_context::module_data::{UserDefinedType, UserDefinedTypeView, udt_seq_view};
use crate::move_model::{SignatureToken, Token, lemma_token_seq_view, token_seq_view};
use crate::generics::{lemma_params_below_seq, params_below, params_below_seq, replace_params_seq, replace_type_parameters};

verus! {

broadcast use vstd::std_specs::vec::group_vec_axioms;

/// A Move type as the compiler sees it.
#[derive(Debug, Hash, PartialEq, Eq)]
pub enum IntermediateType {
    IBool,
    IU8,
    IU16,
    IU32,
    IU64,
    IU128,
    IU256,
    IAddress,
    ISigner,
    IVector(Box<IntermediateType>),
    IRef(Box<IntermediateType>),
    IMutRef(Box<IntermediateType>),
    /// A type parameter of the enclosing generic function or struct, by position.
    ITypeParameter(u16),
    /// A concrete struct, by the module that defines it and its index there.
    IStruct { module_id: ModuleId, index: u16 },
    /// A generic struct instantiated with the given types.
    IGenericStructInstance { module_id: ModuleId, index: u16, types: Vec<IntermediateType> },
    /// An enum of the module, by index.
    IEnum(u16),
}

/// The mathematical value of an `IntermediateType`.
pub enum IType {
    Bool,
    U8,
    U16,
    U32,
    U64,
    U128,
    U256,
    Address,
    Signer,
    Vector(Box<IType>),
    Ref(Box<IType>),
    MutRef(Box<IType>),
    TypeParameter(u16),
    Struct { module_id: ModuleIdView, index: u16 },
    GenericStructInstance { module_id: ModuleIdView, index: u16, types: Seq<IType> },
    Enum(u16),
}

pub open spec fn itype_view(t: IntermediateType) -> IType
    decreases t,
{
    match t {
        IntermediateType::IBool => IType::Bool,
        IntermediateType::IU8 => IType::U8,
        IntermediateType::IU16 => IType::U16,
        IntermediateType::IU32 => IType::U32,
        IntermediateType::IU64 => IType::U64,
        IntermediateType::IU128 => IType::U128,
        IntermediateType::IU256 => IType::U256,
        IntermediateType::IAddress => IType::Address,
        IntermediateType::ISigner => IType::Signer,
        IntermediateType::IVector(inner) => IType::Vector(Box::new(itype_view(*inner))),
        IntermediateType::IRef(inner) => IType::Ref(Box::new(itype_view(*inner))),
        IntermediateType::IMutRef(inner) => IType::MutRef(Box::new(itype_view(*inner))),
        IntermediateType::ITypeParameter(i) => IType::TypeParameter(i),
        IntermediateType::IStruct { module_id, index } => IType::Struct {
            module_id: module_id@,
            index,
        },
        IntermediateType::IGenericStructInstance { module_id, index, types } => {
            IType::GenericStructInstance {
                module_id: module_id@,
                index,
                types: itype_seq_view(types@),
            }
        },
        IntermediateType::IEnum(i) => IType::Enum(i),
    }
}

pub open spec fn itype_seq_view(s: Seq<IntermediateType>) -> Seq<IType>
    decreases s,
{
    if s.len() == 0 {
        Seq::empty()
    } else {
        itype_seq_view(s.drop_last()).push(itype_view(s.last()))
    }
}

impl View for IntermediateType {
    type V = IType;

    open spec fn view(&self) -> IType {
        itype_view(*self)
    }
}

} // verus!

verus! {

/// The view of a sequence has the same length and views each element.
pub proof fn lemma_itype_seq_view(s: Seq<IntermediateType>)
    ensures
        itype_seq_view(s).len() == s.len(),
        forall|i: int| 0 <= i < s.len() ==> #[trigger] itype_seq_view(s)[i] == itype_view(s[i]),
    decreases s.len(),
{
    if s.len() > 0 {
        lemma_itype_seq_view(s.drop_last());
    }
}

} // verus!

verus! {

/// Viewing a concatenation views each part.
pub proof fn lemma_itype_seq_view_concat(a: Seq<IntermediateType>, b: Seq<IntermediateType>)
    ensures
        itype_seq_view(a + b) == itype_seq_view(a) + itype_seq_view(b),
{
    lemma_itype_seq_view(a);
    lemma_itype_seq_view(b);
    lemma_itype_seq_view(a + b);
    assert(itype_seq_view(a + b) =~= itype_seq_view(a) + itype_seq_view(b));
}

/// Viewing a sequence with one more element pushes that element's view.
pub proof fn lemma_itype_seq_view_push(a: Seq<IntermediateType>, x: IntermediateType)
    ensures
        itype_seq_view(a.push(x)) == itype_seq_view(a).push(itype_view(x)),
{
    assert(a.push(x).drop_last() =~= a);
}

impl IntermediateType {
    /// A deep copy of this type.
    pub fn duplicate(&self) -> (r: IntermediateType)
        ensures
            r@ == self@,
        decreases self,
    {
        match self {
            IntermediateType::IBool => IntermediateType::IBool,
            IntermediateType::IU8 => IntermediateType::IU8,
            IntermediateType::IU16 => IntermediateType::IU16,
            IntermediateType::IU32 => IntermediateType::IU32,
            IntermediateType::IU64 => IntermediateType::IU64,
            IntermediateType::IU128 => IntermediateType::IU128,
            IntermediateType::IU256 => IntermediateType::IU256,
            IntermediateType::IAddress => IntermediateType::IAddress,
            IntermediateType::ISigner => IntermediateType::ISigner,
            IntermediateType::IVector(inner) => IntermediateType::IVector(Box::new(inner.duplicate())),
            IntermediateType::IRef(inner) => IntermediateType::IRef(Box::new(inner.duplicate())),
            IntermediateType::IMutRef(inner) => IntermediateType::IMutRef(Box::new(inner.duplicate())),
            IntermediateType::ITypeParameter(i) => IntermediateType::ITypeParameter(*i),
            IntermediateType::IStruct { module_id, index } => IntermediateType::IStruct {
                module_id: module_id.duplicate(),
                index: *index,
            },
            IntermediateType::IGenericStructInstance { module_id, index, types } => {
                let copied = duplicate_all(types);
                IntermediateType::IGenericStructInstance {
                    module_id: module_id.duplicate(),
                    index: *index,
                    types: copied,
                }
            },
            IntermediateType::IEnum(i) => IntermediateType::IEnum(*i),
        }
    }
}

/// Deep copies of all the types of `types`, in order.
pub fn duplicate_all(types: &Vec<IntermediateType>) -> (r: Vec<IntermediateType>)
    ensures
        itype_seq_view(r@) == itype_seq_view(types@),
    decreases types,
{
    let mut out: Vec<IntermediateType> = Vec::new();
    let mut i: usize = 0;
    while i < types.len()
        invariant
            0 <= i <= types.len(),
            itype_seq_view(out@) == itype_seq_view(types@.take(i as int)),
        decreases types.len() - i,
    {
        let c = types[i].duplicate();
        proof {
            lemma_itype_seq_view_push(out@, c);
            lemma_itype_seq_view_push(types@.take(i as int), types@[i as int]);
            assert(types@.take(i as int).push(types@[i as int]) =~= types@.take(i + 1));
        }
        out.push(c);
        i = i + 1;
    }
    proof {
        assert(types@.take(i as int) =~= types@);
    }
    out
}

} // verus!

verus! {

/// Why a signature token has no intermediate type.
#[derive(Debug, PartialEq, Eq, Structural, Clone, Copy)]
pub enum TypeConversionError {
    /// The token refers to a datatype handle the module does not have.
    DatatypeNotFound(u16),
    /// The token instantiates a generic enum, which is not supported.
    GenericEnumNotSupported(u16),
}

/// The intermediate type of a signature token, given the datatype each datatype handle of the
/// module refers to.
pub open spec fn itype_of_token(t: Token, handles: Seq<UserDefinedTypeView>) -> Result<IType, TypeConversionError>
    decreases t,
{
    match t {
        Token::Bool => Ok(IType::Bool),
        Token::U8 => Ok(IType::U8),
        Token::U16 => Ok(IType::U16),
        Token::U32 => Ok(IType::U32),
        Token::U64 => Ok(IType::U64),
        Token::U128 => Ok(IType::U128),
        Token::U256 => Ok(IType::U256),
        Token::Address => Ok(IType::Address),
        Token::Signer => Ok(IType::Signer),
        Token::Vector(inner) => match itype_of_token(*inner, handles) {
            Ok(i) => Ok(IType::Vector(Box::new(i))),
            Err(e) => Err(e),
        },
        Token::Reference(inner) => match itype_of_token(*inner, handles) {
            Ok(i) => Ok(IType::Ref(Box::new(i))),
            Err(e) => Err(e),
        },
        Token::MutableReference(inner) => match itype_of_token(*inner, handles) {
            Ok(i) => Ok(IType::MutRef(Box::new(i))),
            Err(e) => Err(e),
        },
        Token::TypeParameter(i) => Ok(IType::TypeParameter(i)),
        Token::Datatype(h) => if h < handles.len() {
            match handles[h as int] {
                UserDefinedTypeView::Struct { module_id, index } => Ok(IType::Struct { module_id, index }),
                UserDefinedTypeView::Enum(e) => Ok(IType::Enum(e as u16)),
            }
        } else {
            Err(TypeConversionError::DatatypeNotFound(h))
        },
        Token::DatatypeInstantiation(h, ts) => if h < handles.len() {
            match handles[h as int] {
                UserDefinedTypeView::Struct { module_id, index } => match itype_of_tokens(ts, handles) {
                    Ok(types) => Ok(IType::GenericStructInstance { module_id, index, types }),
                    Err(e) => Err(e),
                },
                UserDefinedTypeView::Enum(_) => Err(TypeConversionError::GenericEnumNotSupported(h)),
            }
        } else {
            Err(TypeConversionError::DatatypeNotFound(h))
        },
    }
}

/// The intermediate types of a sequence of tokens, or the error of the first that has none.
pub open spec fn itype_of_tokens(ts: Seq<Token>, handles: Seq<UserDefinedTypeView>) -> Result<Seq<IType>, TypeConversionError>
    decreases ts,
{
    if ts.len() == 0 {
        Ok(Seq::empty())
    } else {
        match itype_of_tokens(ts.drop_last(), handles) {
            Ok(prefix) => match itype_of_token(ts.last(), handles) {
                Ok(t) => Ok(prefix.push(t)),
                Err(e) => Err(e),
            },
            Err(e) => Err(e),
        }
    }
}

/// A successful conversion gives one intermediate type per token.
pub proof fn lemma_itype_of_tokens_len(ts: Seq<Token>, handles: Seq<UserDefinedTypeView>)
    requires
        itype_of_tokens(ts, handles) is Ok,
    ensures
        itype_of_tokens(ts, handles)->Ok_0.len() == ts.len(),
    decreases ts.len(),
{
    if ts.len() > 0 {
        lemma_itype_of_tokens_len(ts.drop_last(), handles);
    }
}

/// The view of a conversion result.
pub open spec fn conversion_view(r: Result<IntermediateType, TypeConversionError>) -> Result<IType, TypeConversionError> {
    match r {
        Ok(t) => Ok(t@),
        Err(e) => Err(e),
    }
}

/// The first element of `ts` that fails to convert makes the conversion of `ts` fail with its
/// error, when every element before it converts.
pub proof fn lemma_itype_of_tokens_prefix(ts: Seq<Token>, handles: Seq<UserDefinedTypeView>, i: int)
    requires
        0 <= i <= ts.len(),
        itype_of_tokens(ts.take(i), handles) is Err,
    ensures
        itype_of_tokens(ts, handles) == itype_of_tokens(ts.take(i), handles),
    decreases ts.len() - i,
{
    if i < ts.len() {
        assert(ts.take(i + 1).drop_last() =~= ts.take(i));
        lemma_itype_of_tokens_prefix(ts, handles, i + 1);
    } else {
        assert(ts.take(i) =~= ts);
    }
}

impl IntermediateType {
    /// Converts a signature token of a module into an intermediate type, looking datatype
    /// handles up in `datatype_handles_map` (the datatype of each handle index of the module).
    #[verifier::loop_isolation(false)]
    pub fn try_from_signature_token(
        token: &SignatureToken,
        datatype_handles_map: &Vec<UserDefinedType>,
    ) -> (r: Result<IntermediateType, TypeConversionError>)
        ensures
            conversion_view(r) == itype_of_token(token@, udt_seq_view(datatype_handles_map@)),
        decreases token,
    {
        let ghost handles = udt_seq_view(datatype_handles_map@);
        match token {
            SignatureToken::Bool => Ok(IntermediateType::IBool),
            SignatureToken::U8 => Ok(IntermediateType::IU8),
            SignatureToken::U16 => Ok(IntermediateType::IU16),
            SignatureToken::U32 => Ok(IntermediateType::IU32),
            SignatureToken::U64 => Ok(IntermediateType::IU64),
            SignatureToken::U128 => Ok(IntermediateType::IU128),
            SignatureToken::U256 => Ok(IntermediateType::IU256),
            SignatureToken::Address => Ok(IntermediateType::IAddress),
            SignatureToken::Signer => Ok(IntermediateType::ISigner),
            SignatureToken::Vector(inner) => {
                match Self::try_from_signature_token(inner, datatype_handles_map) {
                    Ok(i) => Ok(IntermediateType::IVector(Box::new(i))),
                    Err(e) => Err(e),
                }
            },
            SignatureToken::Reference(inner) => {
                match Self::try_from_signature_token(inner, datatype_handles_map) {
                    Ok(i) => Ok(IntermediateType::IRef(Box::new(i))),
                    Err(e) => Err(e),
                }
            },
            SignatureToken::MutableReference(inner) => {
                match Self::try_from_signature_token(inner, datatype_handles_map) {
                    Ok(i) => Ok(IntermediateType::IMutRef(Box::new(i))),
                    Err(e) => Err(e),
                }
            },
            SignatureToken::TypeParameter(i) => Ok(IntermediateType::ITypeParameter(*i)),
            SignatureToken::Datatype(h) => {
                if (*h as usize) < datatype_handles_map.len() {
                    match &datatype_handles_map[*h as usize] {
                        UserDefinedType::Struct { module_id, index } => {
                            Ok(IntermediateType::IStruct { module_id: module_id.duplicate(), index: *index })
                        },
                        UserDefinedType::Enum(e) => Ok(IntermediateType::IEnum(*e as u16)),
                    }
                } else {
                    Err(TypeConversionError::DatatypeNotFound(*h))
                }
            },
            SignatureToken::DatatypeInstantiation(h, types) => {
                if (*h as usize) < datatype_handles_map.len() {
                    match &datatype_handles_map[*h as usize] {
                        UserDefinedType::Struct { module_id, index } => {
                            proof {
                                lemma_token_seq_view(types@);
                            }
                            let ghost ts = token_seq_view(types@);
                            let mut converted: Vec<IntermediateType> = Vec::new();
                            let mut i: usize = 0;
                            proof {
                                assert(ts.take(0) =~= Seq::<Token>::empty());
                                assert(itype_seq_view(converted@) =~= Seq::<IType>::empty());
                            }
                            while i < types.len()
                                invariant
                                    0 <= i <= types.len(),
                                    itype_of_tokens(ts.take(i as int), handles) == Ok::<Seq<IType>, TypeConversionError>(itype_seq_view(converted@)),
                                decreases types.len() - i,
                            {
                                let c = Self::try_from_signature_token(&types[i], datatype_handles_map);
                                proof {
                                    assert(ts.take(i + 1).drop_last() =~= ts.take(i as int));
                                    assert(ts.take(i + 1).last() == types@[i as int]@);
                                }
                                match c {
                                    Ok(t) => {
                                        proof {
                                            lemma_itype_seq_view_push(converted@, t);
                                        }
                                        converted.push(t);
                                    },
                                    Err(e) => {
                                        proof {
                                            lemma_itype_of_tokens_prefix(ts, handles, i + 1);
                                        }
                                        return Err(e);
                                    },
                                }
                                i = i + 1;
                            }
                            proof {
                                assert(ts.take(i as int) =~= ts);
                            }
                            Ok(IntermediateType::IGenericStructInstance {
                                module_id: module_id.duplicate(),
                                index: *index,
                                types: converted,
                            })
                        },
                        UserDefinedType::Enum(_) => Err(TypeConversionError::GenericEnumNotSupported(*h)),
                    }
                } else {
                    Err(TypeConversionError::DatatypeNotFound(*h))
                }
            },
        }
    }
}

} // verus!

verus! {

/// A variant of an enum: its position in the enum, the enum's index, and its field types.
pub struct IEnumVariant {
    pub index: u16,
    pub belongs_to: u16,
    pub fields: Vec<IntermediateType>,
}

/// An enum of a module: its index, its variants, and whether no variant has fields.
pub struct IEnum {
    pub index: u16,
    pub variants: Vec<IEnumVariant>,
    /// True when no variant has fields; only such enums have an ABI encoding (as `uint8`).
    pub is_simple: bool,
}

impl IEnumVariant {
    pub fn new(index: u16, belongs_to: u16, fields: Vec<IntermediateType>) -> (r: IEnumVariant)
        ensures
            r.index == index,
            r.belongs_to == belongs_to,
            r.fields == fields,
    {
        IEnumVariant { index, belongs_to, fields }
    }
}

/// Whether no variant has fields.
pub open spec fn all_variants_fieldless(variants: Seq<IEnumVariant>) -> bool {
    forall|i: int| 0 <= i < variants.len() ==> (#[trigger] variants[i]).fields@.len() == 0
}

impl IEnum {
    /// An enum with the given variants; it is simple when no variant has fields.
    pub fn new(index: u16, variants: Vec<IEnumVariant>) -> (r: IEnum)
        ensures
            r.index == index,
            r.variants == variants,
            r.is_simple == all_variants_fieldless(variants@),
    {
        let mut is_simple = true;
        let mut i: usize = 0;
        while i < variants.len()
            invariant
                0 <= i <= variants@.len(),
                is_simple == all_variants_fieldless(variants@.take(i as int)),
            decreases variants@.len() - i,
        {
            proof {
                assert forall|j: int| 0 <= j < i implies variants@.take(i + 1)[j] == variants@.take(i as int)[j] by {}
            }
            if variants[i].fields.len() != 0 {
                is_simple = false;
            }
            proof {
                if is_simple {
                    assert forall|j: int| 0 <= j < i + 1 implies (#[trigger] variants@.take(i + 1)[j]).fields@.len() == 0 by {
                        if j < i {
                            assert(variants@.take(i as int)[j] == variants@.take(i + 1)[j]);
                        }
                    }
                } else {
                    if variants@[i as int].fields@.len() == 0 {
                        let j = choose|j: int| 0 <= j < i && (#[trigger] variants@.take(i as int)[j]).fields@.len() != 0;
                        assert(variants@.take(i + 1)[j] == variants@.take(i as int)[j]);
                    } else {
                        assert(variants@.take(i + 1)[i as int] == variants@[i as int]);
                    }
                }
            }
            i = i + 1;
        }
        proof {
            assert(variants@.take(i as int) =~= variants@);
        }
        IEnum { index, variants, is_simple }
    }
}

} // verus!

verus! {

/// A struct of a module: its definition index, its name, the types of its fields in
/// declaration order, the field handle of each field the code refers to, whether it is saved in
/// storage (it has the `key` ability), and whether it is a one-time witness.
pub struct IStruct {
    pub struct_definition_index: u16,
    pub identifier: String,
    pub fields: Vec<IntermediateType>,
    pub field_handles: Vec<Option<u16>>,
    pub saved_in_storage: bool,
    pub is_one_time_witness: bool,
}

/// The mathematical value of an `IStruct`.
pub struct IStructView {
    pub struct_definition_index: u16,
    pub identifier: Seq<char>,
    pub fields: Seq<IType>,
    pub field_handles: Seq<Option<u16>>,
    pub saved_in_storage: bool,
    pub is_one_time_witness: bool,
}

impl View for IStruct {
    type V = IStructView;

    open spec fn view(&self) -> IStructView {
        IStructView {
            struct_definition_index: self.struct_definition_index,
            identifier: self.identifier@,
            fields: itype_seq_view(self.fields@),
            field_handles: self.field_handles@,
            saved_in_storage: self.saved_in_storage,
            is_one_time_witness: self.is_one_time_witness,
        }
    }
}

impl IStruct {
    /// The struct's definition index.
    pub fn index(&self) -> (r: u16)
        ensures
            r == self.struct_definition_index,
    {
        self.struct_definition_index
    }

    /// The instance of this generic struct with its type parameters replaced by `types`: each
    /// field type has every type parameter `i` replaced by `types[i]`.
    pub fn instantiate(&self, types: &[IntermediateType]) -> (r: IStruct)
        requires
            params_below_seq(self@.fields, types@.len() as int),
        ensures
            r@ == (IStructView { fields: replace_params_seq(self@.fields, itype_seq_view(types@)), ..self@ }),
    {
        let ghost vs = itype_seq_view(self.fields@);
        let ghost inst = itype_seq_view(types@);
        proof {
            lemma_itype_seq_view(self.fields@);
            lemma_params_below_seq(vs, types@.len() as int);
        }
        let mut fields: Vec<IntermediateType> = Vec::new();
        let mut i: usize = 0;
        while i < self.fields.len()
            invariant
                0 <= i <= self.fields@.len(),
                vs == itype_seq_view(self.fields@),
                vs.len() == self.fields@.len(),
                inst == itype_seq_view(types@),
                forall|j: int| 0 <= j < vs.len() ==> #[trigger] vs[j] == self.fields@[j]@,
                forall|j: int| 0 <= j < vs.len() ==> #[trigger] params_below(vs[j], types@.len() as int),
                itype_seq_view(fields@) == replace_params_seq(vs.take(i as int), inst),
            decreases self.fields@.len() - i,
        {
            assert(params_below(vs[i as int], types@.len() as int));
            let t = replace_type_parameters(&self.fields[i], types);
            proof {
                assert(vs.take(i + 1).drop_last() =~= vs.take(i as int));
                assert(vs.take(i + 1).last() == self.fields@[i as int]@);
                lemma_itype_seq_view_push(fields@, t);
            }
            fields.push(t);
            i = i + 1;
        }
        proof {
            assert(vs.take(i as int) =~= vs);
        }
        let mut field_handles: Vec<Option<u16>> = Vec::new();
        let mut k: usize = 0;
        while k < self.field_handles.len()
            invariant
                0 <= k <= self.field_handles@.len(),
                field_handles@ =~= self.field_handles@.take(k as int),
            decreases self.field_handles@.len() - k,
        {
            field_handles.push(self.field_handles[k]);
            k = k + 1;
        }
        proof {
            assert(self.field_handles@.take(k as int) =~= self.field_handles@);
        }
        IStruct {
            struct_definition_index: self.struct_definition_index,
            identifier: self.identifier.clone(),
            fields,
            field_handles,
            saved_in_storage: self.saved_in_storage,
            is_one_time_witness: self.is_one_time_witness,
        }
    }
}

} // verus!

verus! {

/// The Move type `bool`, whose code generation does not depend on anything more.
pub struct IBool;

/// The Move type `u8`.
pub struct IU8;

/// The Move type `u16`.
pub struct IU16;

/// The Move type `u32`.
pub struct IU32;

/// The Move type `u64`.
pub struct IU64;

/// The Move type `u128`, held in memory as 16 little-endian bytes.
pub struct IU128;

/// The Move type `u256`, held in memory as 32 little-endian bytes.
pub struct IU256;

/// The Move type `address`, held in memory as the 32 bytes of its ABI word.
pub struct IAddress;

/// The Move type `signer`, held as an address.
pub struct ISigner;

} // verus!
