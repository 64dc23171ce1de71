//! The functions of a module: their signatures and the calls made.
use vstd::prelude::*;

use crate::address::{ModuleId, ModuleIdView};
use crate::intermediate_types::{IType, IntermediateType, itype_seq_view};

verus! {

/// Identifies a function: its name, its module, and the type arguments of a generic call.
pub struct FunctionId {
    pub identifier: String,
    pub module_id: ModuleId,
    pub type_instantiations: Option<Vec<IntermediateType>>,
}

/// The mathematical value of a `FunctionId`.
pub struct FunctionIdView {
    pub identifier: Seq<char>,
    pub module_id: ModuleIdView,
    pub type_instantiations: Option<Seq<IType>>,
}

impl View for FunctionId {
    type V = FunctionIdView;

    open spec fn view(&self) -> FunctionIdView {
        FunctionIdView {
            identifier: self.identifier@,
            module_id: self.module_id@,
            type_instantiations: match self.type_instantiations {
                Some(types) => Some(itype_seq_view(types@)),
                None => None,
            },
        }
    }
}

/// The definitions of the functions of all the modules processed so far: each entry holds the
/// identifier of a function and the index of its definition in its own module.
pub struct GlobalFunctionTable {
    pub entries: Vec<(FunctionId, usize)>,
}

/// The entries of a function table, by value.
pub open spec fn function_entries_view(entries: Seq<(FunctionId, usize)>) -> Seq<(FunctionIdView, int)> {
    entries.map_values(|e: (FunctionId, usize)| (e.0@, e.1 as int))
}

impl View for GlobalFunctionTable {
    type V = Seq<(FunctionIdView, int)>;

    open spec fn view(&self) -> Seq<(FunctionIdView, int)> {
        function_entries_view(self.entries@)
    }
}

impl GlobalFunctionTable {
    /// An empty table.
    pub fn new() -> (r: Self)
        ensures
            r@ == Seq::<(FunctionIdView, int)>::empty(),
    {
        let r = GlobalFunctionTable { entries: Vec::new() };
        proof {
            assert(r@ =~= Seq::<(FunctionIdView, int)>::empty());
        }
        r
    }

    /// Adds the definition `definition` of the function `id`.
    pub fn insert(&mut self, id: FunctionId, definition: usize)
        ensures
            final(self)@ == old(self)@.push((id@, definition as int)),
    {
        let ghost before = self.entries@;
        self.entries.push((id, definition));
        proof {
            assert(function_entries_view(self.entries@) =~= function_entries_view(before).push((id@, definition as int)));
        }
    }

    /// Adds the entries of `other`, in order, leaving it empty.
    pub fn append(&mut self, other: &mut GlobalFunctionTable)
        ensures
            final(self)@ == old(self)@ + old(other)@,
            final(other)@ == Seq::<(FunctionIdView, int)>::empty(),
    {
        let ghost a = self.entries@;
        let ghost b = other.entries@;
        self.entries.append(&mut other.entries);
        proof {
            assert(function_entries_view(a + b) =~= function_entries_view(a) + function_entries_view(b));
            assert(function_entries_view(other.entries@) =~= Seq::<(FunctionIdView, int)>::empty());
        }
    }
}

/// What the compiler knows of the functions of a module.
pub struct FunctionData {
    /// The argument types of each function handle of the module.
    pub arguments: Vec<Vec<IntermediateType>>,
    /// The return types of each function handle of the module.
    pub returns: Vec<Vec<IntermediateType>>,
    /// The functions called from this module, by function handle: defined in the module or in
    /// an immediate dependency.
    pub calls: Vec<FunctionId>,
    /// The generic function calls, by function instantiation.
    pub generic_calls: Vec<FunctionId>,
    /// The module's `init` function, if it has one.
    pub init: Option<FunctionId>,
}

} // verus!
