//! What the compiler knows of the module it compiles and of its dependencies.
pub mod error;
pub mod module_data;

use vstd::prelude::*;

use crate::address::{ModuleId, ModuleIdView};
use crate::generics::{params_below_seq, replace_params_seq};
use crate::intermediate_types::{IStruct, IStructView, IntermediateType, itype_seq_view};
use error::CompilationContextError;
use module_data::ModuleData;
use module_data::struct_data::{has_struct, is_first_struct};

verus! {

/// The context that the translation of a module runs in: the data of the module being compiled,
/// the data of its dependencies, and the identifiers of the WebAssembly memory (`M`) and of the
/// allocator function (`F`) of the module being built.
pub struct CompilationContext<'a, M, F> {
    /// The data of the module being compiled.
    pub root_module_data: &'a ModuleData,
    /// The data of the dependencies, each found by its `id`.
    pub deps_data: &'a Vec<ModuleData>,
    /// The WebAssembly memory.
    pub memory_id: M,
    /// The allocator function.
    pub allocator: F,
}

/// A struct found in the compilation context: borrowed when it is stored there, owned when it
/// is a generic struct instantiated on request.
pub enum StructRef<'a> {
    Borrowed(&'a IStruct),
    Owned(IStruct),
}

impl StructRef<'_> {
    /// The struct.
    pub open spec fn struct_view(&self) -> IStructView {
        match self {
            StructRef::Borrowed(s) => s@,
            StructRef::Owned(s) => s@,
        }
    }
}

/// Whether position `k` of `deps` holds the first module data with identifier `id`.
pub open spec fn is_first_module(deps: Seq<ModuleData>, k: int, id: ModuleIdView) -> bool {
    &&& 0 <= k < deps.len()
    &&& deps[k].id@ == id
    &&& forall|j: int| 0 <= j < k ==> (#[trigger] deps[j]).id@ != id
}

/// Whether some module data of `deps` has identifier `id`.
pub open spec fn has_module(deps: Seq<ModuleData>, id: ModuleIdView) -> bool {
    exists|k: int| 0 <= k < deps.len() && (#[trigger] deps[k]).id@ == id
}

/// The first module data of `deps` with identifier `id`.
pub open spec fn first_module(deps: Seq<ModuleData>, id: ModuleIdView) -> ModuleData {
    deps[choose|k: int| is_first_module(deps, k, id)]
}

/// The first module data of `deps` with identifier `id`.
fn find_module(deps: &Vec<ModuleData>, id: &ModuleId) -> (r: Option<usize>)
    ensures
        match r {
            Some(k) => is_first_module(deps@, k as int, id@) && deps@[k as int] == first_module(deps@, id@),
            None => !has_module(deps@, id@),
        },
{
    let mut i: usize = 0;
    while i < deps.len()
        invariant
            0 <= i <= deps@.len(),
            forall|j: int| 0 <= j < i ==> (#[trigger] deps@[j]).id@ != id@,
        decreases deps@.len() - i,
    {
        if deps[i].id == *id {
            proof {
                assert(is_first_module(deps@, i as int, id@));
                let c = choose|k: int| is_first_module(deps@, k, id@);
                assert(is_first_module(deps@, c, id@));
                if c < i {
                    assert(deps@[c].id@ != id@);
                } else if c > i {
                    assert(deps@[i as int].id@ != id@);
                }
            }
            return Some(i);
        }
        i = i + 1;
    }
    None
}

impl<'a, M, F> CompilationContext<'a, M, F> {
    /// A context over the given module data, dependencies, memory and allocator.
    pub fn new(root_module_data: &'a ModuleData, deps_data: &'a Vec<ModuleData>, memory_id: M, allocator: F) -> (r: Self)
        ensures
            r.root_module_data == root_module_data,
            r.deps_data == deps_data,
            r.memory_id == memory_id,
            r.allocator == allocator,
    {
        CompilationContext { root_module_data, deps_data, memory_id, allocator }
    }

    /// The module data that structs of module `id` are looked up in: the first dependency with
    /// that identifier, or else the module being compiled.
    pub open spec fn struct_module(&self, id: ModuleIdView) -> ModuleData {
        if has_module(self.deps_data@, id) {
            first_module(self.deps_data@, id)
        } else {
            *self.root_module_data
        }
    }

    /// The data of module `module_id`: the first dependency with that identifier, or else the
    /// module being compiled when it has that identifier.
    pub fn get_module_data_by_id(&self, module_id: &ModuleId) -> (r: Result<&ModuleData, CompilationContextError>)
        ensures
            match r {
                Ok(m) => if has_module(self.deps_data@, module_id@) {
                    *m == first_module(self.deps_data@, module_id@)
                } else {
                    self.root_module_data.id@ == module_id@ && *m == *self.root_module_data
                },
                Err(e) => !has_module(self.deps_data@, module_id@)
                    && self.root_module_data.id@ != module_id@
                    && (e matches CompilationContextError::ModuleNotFound(id) && id@ == module_id@),
            },
    {
        if let Some(k) = find_module(self.deps_data, module_id) {
            Ok(&self.deps_data[k])
        } else if self.root_module_data.id == *module_id {
            Ok(self.root_module_data)
        } else {
            Err(CompilationContextError::ModuleNotFound(module_id.clone()))
        }
    }

    /// The first struct with definition index `index` in the module data that structs of
    /// `module_id` are looked up in (see `struct_module`).
    pub fn get_struct_by_index(&self, module_id: &ModuleId, index: u16) -> (r: Result<&IStruct, CompilationContextError>)
        ensures
            ({
                let structs = self.struct_module(module_id@).structs.structs@;
                match r {
                    Ok(s) => exists|k: int| is_first_struct(structs, k, index) && *s == structs[k],
                    Err(e) => e == CompilationContextError::StructNotFound(index) && !has_struct(structs, index),
                }
            }),
    {
        let module = match find_module(self.deps_data, module_id) {
            Some(k) => &self.deps_data[k],
            None => self.root_module_data,
        };
        module.structs.get_by_index(index)
    }

    /// The struct that a struct type stands for: the struct itself for a concrete struct, and
    /// the generic struct instantiated with the type's types for a generic struct instance.
    pub fn get_struct_by_intermediate_type(&self, itype: &IntermediateType) -> (r: Result<StructRef<'_>, CompilationContextError>)
        requires
            itype matches IntermediateType::IGenericStructInstance { module_id, index, types } ==> {
                let structs = self.struct_module(module_id@).structs.structs@;
                forall|k: int| #[trigger] is_first_struct(structs, k, *index) ==> params_below_seq(structs[k]@.fields, types@.len() as int)
            },
        ensures
            match itype {
                IntermediateType::IStruct { module_id, index } => {
                    let structs = self.struct_module(module_id@).structs.structs@;
                    match r {
                        Ok(StructRef::Borrowed(s)) => exists|k: int| is_first_struct(structs, k, *index) && *s == structs[k],
                        Ok(StructRef::Owned(_)) => false,
                        Err(e) => e == CompilationContextError::StructNotFound(*index) && !has_struct(structs, *index),
                    }
                },
                IntermediateType::IGenericStructInstance { module_id, index, types } => {
                    let structs = self.struct_module(module_id@).structs.structs@;
                    match r {
                        Ok(s) => s is Owned && (exists|k: int| is_first_struct(structs, k, *index)
                            && s.struct_view() == (IStructView {
                                fields: replace_params_seq(structs[k]@.fields, itype_seq_view(types@)),
                                ..structs[k]@
                            })),
                        Err(e) => e == CompilationContextError::StructNotFound(*index) && !has_struct(structs, *index),
                    }
                },
                _ => r matches Err(e) && e == CompilationContextError::ExpectedStruct,
            },
    {
        match itype {
            IntermediateType::IStruct { module_id, index } => {
                let struct_ = self.get_struct_by_index(module_id, *index)?;
                Ok(StructRef::Borrowed(struct_))
            },
            IntermediateType::IGenericStructInstance { module_id, index, types } => {
                let struct_ = self.get_struct_by_index(module_id, *index)?;
                let instance = struct_.instantiate(types.as_slice());
                Ok(StructRef::Owned(instance))
            },
            _ => Err(CompilationContextError::ExpectedStruct),
        }
    }
}

} // verus!
