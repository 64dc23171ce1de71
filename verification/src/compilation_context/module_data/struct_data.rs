//! The structs of a module: concrete structs, generic instances, and field lookup.
use vstd::prelude::*;

use crate::compilation_context::error::CompilationContextError;
use crate::generics::{params_below_seq, replace_params_seq};
use crate::intermediate_types::{IStruct, IStructView, IntermediateType, itype_seq_view};

verus! {

/// What the compiler knows of the structs of a module.
pub struct StructData {
    /// The module's structs, by struct definition index.
    pub structs: Vec<IStruct>,
    /// The module's generic struct instances, by struct instantiation index: the struct
    /// definition index of the generic struct and the types it is instantiated with.
    pub generic_structs_instances: Vec<(u16, Vec<IntermediateType>)>,
    /// The struct definition each field handle refers into, by field handle index; `None` for a
    /// handle that refers into no struct.
    pub fields_to_struct: Vec<Option<u16>>,
    /// The generic struct instance each field instantiation belongs to, by field instantiation
    /// index (a position in `generic_structs_instances`); `None` when it belongs to none.
    pub generic_fields_to_struct: Vec<Option<usize>>,
    /// For each field instantiation: the generic field handle it instantiates and the types of
    /// the struct instance it belongs to.
    pub instantiated_fields_to_generic_fields: Vec<(u16, Vec<IntermediateType>)>,
}

/// Whether position `k` of `structs` holds the first struct with definition index `index`.
pub open spec fn is_first_struct(structs: Seq<IStruct>, k: int, index: u16) -> bool {
    &&& 0 <= k < structs.len()
    &&& structs[k].struct_definition_index == index
    &&& forall|j: int| 0 <= j < k ==> (#[trigger] structs[j]).struct_definition_index != index
}

/// Whether some struct of `structs` has definition index `index`.
pub open spec fn has_struct(structs: Seq<IStruct>, index: u16) -> bool {
    exists|k: int| 0 <= k < structs.len() && (#[trigger] structs[k]).struct_definition_index == index
}

/// The first struct of `structs` with definition index `index`.
fn find_struct(structs: &Vec<IStruct>, index: u16) -> (r: Option<usize>)
    ensures
        match r {
            Some(k) => is_first_struct(structs@, k as int, index),
            None => !has_struct(structs@, index),
        },
{
    let mut i: usize = 0;
    while i < structs.len()
        invariant
            0 <= i <= structs@.len(),
            forall|j: int| 0 <= j < i ==> (#[trigger] structs@[j]).struct_definition_index != index,
        decreases structs@.len() - i,
    {
        if structs[i].index() == index {
            return Some(i);
        }
        i = i + 1;
    }
    None
}

impl StructData {
    /// The struct definition that field handle `field_index` refers into, if it is known.
    pub open spec fn field_owner(&self, field_index: u16) -> Option<u16> {
        if (field_index as int) < self.fields_to_struct@.len() {
            self.fields_to_struct@[field_index as int]
        } else {
            None
        }
    }

    /// The generic struct instance that field instantiation `field_index` belongs to, if known.
    pub open spec fn field_instance_owner(&self, field_index: u16) -> Option<usize> {
        if (field_index as int) < self.generic_fields_to_struct@.len() {
            self.generic_fields_to_struct@[field_index as int]
        } else {
            None
        }
    }

    /// Whether generic struct instance `a` can be instantiated: its generic struct is among the
    /// structs, and each type parameter of its fields has a type to stand for it.
    pub open spec fn instance_in_range(&self, a: int) -> bool {
        let (def, types) = self.generic_structs_instances@[a];
        &&& (def as int) < self.structs@.len()
        &&& params_below_seq(self.structs@[def as int]@.fields, types@.len() as int)
    }

    /// Whether every generic struct instance can be instantiated and every field instantiation
    /// belongs to a generic struct instance that exists.
    pub open spec fn well_formed(&self) -> bool {
        &&& forall|a: int| 0 <= a < self.generic_structs_instances@.len() ==> #[trigger] self.instance_in_range(a)
        &&& forall|k: int| 0 <= k < self.generic_fields_to_struct@.len()
            ==> (#[trigger] self.generic_fields_to_struct@[k] matches Some(a) ==> a < self.generic_structs_instances@.len())
    }

    /// Generic struct instance `a` instantiated.
    pub open spec fn instance_view(&self, a: int) -> IStructView {
        let (def, types) = self.generic_structs_instances@[a];
        let generic = self.structs@[def as int]@;
        IStructView { fields: replace_params_seq(generic.fields, itype_seq_view(types@)), ..generic }
    }

    /// The first struct whose definition index is `index`.
    pub fn get_by_index(&self, index: u16) -> (r: Result<&IStruct, CompilationContextError>)
        ensures
            match r {
                Ok(s) => exists|k: int| is_first_struct(self.structs@, k, index) && *s == self.structs@[k],
                Err(e) => e == CompilationContextError::StructNotFound(index) && !has_struct(self.structs@, index),
            },
    {
        match find_struct(&self.structs, index) {
            Some(k) => Ok(&self.structs[k]),
            None => Err(CompilationContextError::StructNotFound(index)),
        }
    }

    /// The first struct whose definition index is `struct_index`.
    pub fn get_by_struct_definition_idx(&self, struct_index: u16) -> (r: Result<&IStruct, CompilationContextError>)
        ensures
            match r {
                Ok(s) => exists|k: int| is_first_struct(self.structs@, k, struct_index) && *s == self.structs@[k],
                Err(e) => e == CompilationContextError::StructWithDefinitionIdxNotFound(struct_index)
                    && !has_struct(self.structs@, struct_index),
            },
    {
        match find_struct(&self.structs, struct_index) {
            Some(k) => Ok(&self.structs[k]),
            None => Err(CompilationContextError::StructWithDefinitionIdxNotFound(struct_index)),
        }
    }

    /// The struct that field handle `field_index` refers into.
    pub fn get_by_field_handle_idx(&self, field_index: u16) -> (r: Result<&IStruct, CompilationContextError>)
        ensures
            match r {
                Ok(s) => self.field_owner(field_index) matches Some(owner)
                    && exists|k: int| is_first_struct(self.structs@, k, owner) && *s == self.structs@[k],
                Err(e) => e == CompilationContextError::StructWithFieldIdxNotFound(field_index)
                    && !(self.field_owner(field_index) matches Some(owner) && has_struct(self.structs@, owner)),
            },
    {
        if (field_index as usize) >= self.fields_to_struct.len() {
            return Err(CompilationContextError::StructWithFieldIdxNotFound(field_index));
        }
        match self.fields_to_struct[field_index as usize] {
            None => Err(CompilationContextError::StructWithFieldIdxNotFound(field_index)),
            Some(struct_id) => match find_struct(&self.structs, struct_id) {
                Some(k) => Ok(&self.structs[k]),
                None => Err(CompilationContextError::StructWithFieldIdxNotFound(field_index)),
            },
        }
    }

    /// Generic struct instance `struct_index` instantiated with its types.
    pub fn get_struct_instance_by_struct_definition_idx(&self, struct_index: u16) -> (r: Result<IStruct, CompilationContextError>)
        requires
            (struct_index as int) < self.generic_structs_instances@.len(),
            self.instance_in_range(struct_index as int),
        ensures
            r matches Ok(s) && s@ == self.instance_view(struct_index as int),
    {
        let (idx, concrete_types) = &self.generic_structs_instances[struct_index as usize];
        let generic_struct = &self.structs[*idx as usize];
        Ok(generic_struct.instantiate(concrete_types.as_slice()))
    }

    /// The generic struct instance that field instantiation `field_index` belongs to,
    /// instantiated with its types.
    pub fn get_struct_instance_by_field_handle_idx(&self, field_index: u16) -> (r: Result<IStruct, CompilationContextError>)
        requires
            self.well_formed(),
        ensures
            match r {
                Ok(s) => self.field_instance_owner(field_index) matches Some(a) && s@ == self.instance_view(a as int),
                Err(e) => e == CompilationContextError::GenericStructWithFieldIdxNotFound(field_index)
                    && self.field_instance_owner(field_index) is None,
            },
    {
        if (field_index as usize) >= self.generic_fields_to_struct.len() {
            return Err(CompilationContextError::GenericStructWithFieldIdxNotFound(field_index));
        }
        match self.generic_fields_to_struct[field_index as usize] {
            None => Err(CompilationContextError::GenericStructWithFieldIdxNotFound(field_index)),
            Some(struct_id) => {
                assert(self.generic_fields_to_struct@[field_index as int] matches Some(a) ==> a < self.generic_structs_instances@.len());
                assert(self.instance_in_range(struct_id as int));
                let (idx, types) = &self.generic_structs_instances[struct_id];
                let generic_struct = &self.structs[*idx as usize];
                Ok(generic_struct.instantiate(types.as_slice()))
            },
        }
    }

    /// The types that generic struct instance `struct_index` is instantiated with.
    pub fn get_generic_struct_types_instances(&self, struct_index: u16) -> (r: Result<&[IntermediateType], CompilationContextError>)
        requires
            (struct_index as int) < self.generic_structs_instances@.len(),
        ensures
            r matches Ok(types) && types@ == self.generic_structs_instances@[struct_index as int].1@,
    {
        let (_, types) = &self.generic_structs_instances[struct_index as usize];
        Ok(types.as_slice())
    }

    /// The struct definition index of the generic struct of instance `struct_index`.
    pub fn get_generic_struct_idx_by_struct_definition_idx(&self, struct_index: u16) -> (r: u16)
        requires
            (struct_index as int) < self.generic_structs_instances@.len(),
        ensures
            r == self.generic_structs_instances@[struct_index as int].0,
    {
        self.generic_structs_instances[struct_index as usize].0
    }
}

} // verus!
