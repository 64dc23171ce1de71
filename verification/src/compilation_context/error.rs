//! Errors when looking information up in the compilation context.
use vstd::prelude::*;

use crate::address::ModuleId;

verus! {

/// What the compilation context could not find.
#[derive(Debug)]
pub enum CompilationContextError {
    /// No struct with this index.
    StructNotFound(u16),
    /// No struct with this field handle index.
    StructWithFieldIdxNotFound(u16),
    /// No struct with this struct definition index.
    StructWithDefinitionIdxNotFound(u16),
    /// No generic struct instance with this field instantiation index.
    GenericStructWithFieldIdxNotFound(u16),
    /// No generic struct instance with this struct instantiation index.
    GenericStructWithDefinitionIdxNotFound(u16),
    /// No signature with this index.
    SignatureNotFound(u16),
    /// No enum with this index.
    EnumNotFound(u16),
    /// No enum with a variant of this variant handle index.
    EnumWithVariantIdxNotFound(u16),
    /// No data for this module.
    ModuleNotFound(ModuleId),
    /// The type is not a struct.
    ExpectedStruct,
}

} // verus!
