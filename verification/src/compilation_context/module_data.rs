//! Per-module data: user defined types and their lookup.
pub mod function_data;
pub mod struct_data;

use vstd::prelude::*;

use crate::address::{Address, ModuleId, ModuleIdView};
use crate::compilation_context::error::CompilationContextError;
use crate::intermediate_types::{
    IEnum, IEnumVariant, IStruct, IType, IntermediateType, all_variants_fieldless, TypeConversionError, itype_of_token, itype_of_tokens, itype_seq_view,
    lemma_itype_of_tokens_len, lemma_itype_of_tokens_prefix, lemma_itype_seq_view, lemma_itype_seq_view_push,
};
use crate::generics::{lemma_conversion_seq_keeps_params_below, token_params_below_seq};
use crate::move_model::{
    ABILITY_COPY, ABILITY_DROP, ABILITY_KEY, ABILITY_STORE, CompiledModule, CompiledUnit, EnumDefinition, FieldDefinition, FieldHandle, FunctionDefinition, SignatureToken,
    StructDefinition, Token, VariantHandle, Visibility, handles_in_range, lemma_token_seq_view, token_seq_view,
};
use crate::vm_handled_datatypes::{
    TxContext, stylus_framework_address, tx_context_identifier, tx_context_module_view,
};
use function_data::{FunctionData, FunctionId, FunctionIdView, GlobalFunctionTable};
use struct_data::StructData;
use crate::text::str_equals;
use crate::utils::{ascii_upper_text, to_ascii_uppercase_text};

verus! {

/// A datatype that a module's datatype handle refers to.
#[derive(Debug)]
pub enum UserDefinedType {
    /// A struct, by the module that defines it and its index among that module's structs.
    Struct { module_id: ModuleId, index: u16 },
    /// An enum, by its index among the enums of the module that defines it.
    Enum(usize),
}

/// The mathematical value of a `UserDefinedType`.
pub enum UserDefinedTypeView {
    Struct { module_id: ModuleIdView, index: u16 },
    Enum(usize),
}

impl View for UserDefinedType {
    type V = UserDefinedTypeView;

    open spec fn view(&self) -> UserDefinedTypeView {
        match self {
            UserDefinedType::Struct { module_id, index } => UserDefinedTypeView::Struct {
                module_id: module_id@,
                index: *index,
            },
            UserDefinedType::Enum(i) => UserDefinedTypeView::Enum(*i),
        }
    }
}

/// The views of a sequence of user defined types.
pub open spec fn udt_seq_view(s: Seq<UserDefinedType>) -> Seq<UserDefinedTypeView> {
    s.map_values(|u: UserDefinedType| u@)
}

/// What the compiler knows of a module.
pub struct ModuleData {
    /// The module's identifier.
    pub id: ModuleId,
    /// The module's functions.
    pub functions: FunctionData,
    /// The module's structs.
    pub structs: StructData,
    /// The module's enums.
    pub enums: EnumData,
    /// The intermediate types of each signature of the module, by signature index.
    pub signatures: Vec<Vec<IntermediateType>>,
    /// The datatype that each datatype handle of the module refers to, by handle index.
    pub datatype_handles_map: Vec<UserDefinedType>,
}

} // verus!

verus! {

/// The position of the first struct definition of handle `h` among `defs`.
pub open spec fn struct_def_position(defs: Seq<StructDefinition>, h: u16) -> Option<int>
    decreases defs.len(),
{
    if defs.len() == 0 {
        None
    } else {
        match struct_def_position(defs.drop_last(), h) {
            Some(k) => Some(k),
            None => if defs.last().struct_handle == h {
                Some(defs.len() - 1)
            } else {
                None
            },
        }
    }
}

/// The number of fields of a struct definition; a native struct counts as having none.
pub open spec fn declared_field_count(def: StructDefinition) -> nat {
    match def.fields {
        Some(fields) => fields@.len(),
        None => 0,
    }
}

/// Whether the datatype handle indices that `is_one_time_witness` follows from handle `idx`
/// are in range.
pub open spec fn datatype_handle_in_range(m: &CompiledModule, idx: u16) -> bool {
    &&& idx < m.datatype_handles@.len()
    &&& m.datatype_handles@[idx as int].module < m.module_handles@.len()
    &&& m.datatype_handles@[idx as int].name < m.identifiers@.len()
    &&& m.module_handles@[m.datatype_handles@[idx as int].module as int].name < m.identifiers@.len()
}

/// Whether the datatype of handle `idx` is a one-time witness: a struct named as the
/// uppercase name of its module, with only the `drop` ability, no type parameter, and either no
/// field or a single `bool` field.
pub open spec fn is_one_time_witness_spec(m: &CompiledModule, idx: u16) -> bool {
    let dh = m.datatype_handles@[idx as int];
    let module_name = m.identifier(m.module_handles@[dh.module as int].name as int);
    let struct_name = m.identifier(dh.name as int);
    &&& struct_name == ascii_upper_text(module_name)
    &&& dh.abilities == ABILITY_DROP
    &&& dh.type_parameters == 0
    &&& struct_def_position(m.struct_defs@, idx) matches Some(k) && {
        let def = m.struct_defs@[k];
        &&& declared_field_count(def) <= 1
        &&& declared_field_count(def) == 1 ==> def.fields->Some_0@[0].signature@ == Token::Bool
    }
}

/// Finds the first struct definition of handle `h`.
fn find_struct_def(m: &CompiledModule, h: u16) -> (r: Option<usize>)
    ensures
        match r {
            Some(k) => k < m.struct_defs@.len() && struct_def_position(m.struct_defs@, h) == Some(k as int),
            None => struct_def_position(m.struct_defs@, h) is None,
        },
{
    let mut i: usize = 0;
    while i < m.struct_defs.len()
        invariant
            0 <= i <= m.struct_defs@.len(),
            struct_def_position(m.struct_defs@.take(i as int), h) is None,
        decreases m.struct_defs@.len() - i,
    {
        proof {
            assert(m.struct_defs@.take(i + 1).drop_last() =~= m.struct_defs@.take(i as int));
        }
        if m.struct_defs[i].struct_handle == h {
            proof {
                lemma_struct_def_position_prefix(m.struct_defs@, h, i + 1);
            }
            return Some(i);
        }
        i = i + 1;
    }
    proof {
        assert(m.struct_defs@.take(i as int) =~= m.struct_defs@);
    }
    None
}

/// A position found in a prefix is the position in the whole sequence.
proof fn lemma_struct_def_position_prefix(defs: Seq<StructDefinition>, h: u16, n: int)
    requires
        0 <= n <= defs.len(),
        struct_def_position(defs.take(n), h) is Some,
    ensures
        struct_def_position(defs, h) == struct_def_position(defs.take(n), h),
    decreases defs.len() - n,
{
    if n < defs.len() {
        assert(defs.take(n + 1).drop_last() =~= defs.take(n));
        lemma_struct_def_position_prefix(defs, h, n + 1);
    } else {
        assert(defs.take(n) =~= defs);
    }
}

/// Checks whether the datatype of handle `datatype_handle_index` is a one-time witness (see
/// `is_one_time_witness_spec`).
pub fn is_one_time_witness(module: &CompiledModule, datatype_handle_index: u16) -> (r: bool)
    requires
        datatype_handle_in_range(module, datatype_handle_index),
    ensures
        r == is_one_time_witness_spec(module, datatype_handle_index),
{
    let datatype_handle = &module.datatype_handles[datatype_handle_index as usize];

    // The name must be the uppercase name of the module
    let module_handle = &module.module_handles[datatype_handle.module as usize];
    let module_name = module.identifiers[module_handle.name as usize].as_str();
    let struct_name = module.identifiers[datatype_handle.name as usize].as_str();
    let upper = to_ascii_uppercase_text(module_name);
    if !str_equals(struct_name, upper.as_str()) {
        return false;
    }

    // Only the drop ability
    if datatype_handle.abilities != ABILITY_DROP {
        return false;
    }

    // No type parameters
    if datatype_handle.type_parameters != 0 {
        return false;
    }

    // No field, or a single boolean field
    let struct_def = match find_struct_def(module, datatype_handle_index) {
        Some(k) => &module.struct_defs[k],
        None => return false,
    };
    let field_count: usize = match &struct_def.fields {
        Some(fields) => fields.len(),
        None => 0,
    };
    if field_count > 1 {
        return false;
    }
    if field_count == 1 {
        let fields = struct_def.fields.as_ref().unwrap();
        match &fields[0].signature {
            SignatureToken::Bool => {},
            _ => return false,
        }
    }
    true
}

/// A datatype recognised as a one-time witness has exactly the `drop` ability: it can be
/// dropped, and it can be neither copied, stored nor used as a key.
pub proof fn law_one_time_witness_has_only_drop(m: &CompiledModule, idx: u16)
    ensures
        is_one_time_witness_spec(m, idx) ==> m.datatype_handles@[idx as int].abilities == ABILITY_DROP,
        is_one_time_witness_spec(m, idx) ==> m.datatype_handles@[idx as int].abilities & ABILITY_DROP != 0,
        m.datatype_handles@[idx as int].abilities & ABILITY_COPY != 0 ==> !is_one_time_witness_spec(m, idx),
        m.datatype_handles@[idx as int].abilities & ABILITY_STORE != 0 ==> !is_one_time_witness_spec(m, idx),
        m.datatype_handles@[idx as int].abilities & ABILITY_KEY != 0 ==> !is_one_time_witness_spec(m, idx),
{
    let a = m.datatype_handles@[idx as int].abilities;
    assert(a == 2u8 ==> (a & 2u8 != 0 && a & 1u8 == 0 && a & 4u8 == 0 && a & 8u8 == 0)) by (bit_vector);
}

} // verus!

verus! {

/// The position of the first enum definition of handle `h` among `defs`.
pub open spec fn enum_def_position(defs: Seq<EnumDefinition>, h: u16) -> Option<int>
    decreases defs.len(),
{
    if defs.len() == 0 {
        None
    } else {
        match enum_def_position(defs.drop_last(), h) {
            Some(k) => Some(k),
            None => if defs.last().enum_handle == h {
                Some(defs.len() - 1)
            } else {
                None
            },
        }
    }
}

/// The position of the first compiled unit named `name` and published at `address`.
pub open spec fn unit_position(units: Seq<CompiledUnit>, name: Seq<char>, address: Seq<u8>) -> Option<int>
    decreases units.len(),
{
    if units.len() == 0 {
        None
    } else {
        match unit_position(units.drop_last(), name, address) {
            Some(k) => Some(k),
            None => if units.last().name@ == name && units.last().address@ == address {
                Some(units.len() - 1)
            } else {
                None
            },
        }
    }
}

/// The position of the first datatype handle of `m` whose name is `name`.
pub open spec fn datatype_handle_position(m: &CompiledModule, name: Seq<char>) -> Option<int>
    decreases m.datatype_handles@.len(),
{
    datatype_handle_position_in(m, m.datatype_handles@.len() as int, name)
}

/// The position of the first datatype handle of `m`, among its first `n`, whose name is `name`.
pub open spec fn datatype_handle_position_in(m: &CompiledModule, n: int, name: Seq<char>) -> Option<int>
    decreases n,
{
    if n <= 0 {
        None
    } else {
        match datatype_handle_position_in(m, n - 1, name) {
            Some(k) => Some(k),
            None => if m.identifier(m.datatype_handles@[n - 1].name as int) == name {
                Some(n - 1)
            } else {
                None
            },
        }
    }
}

/// The module in which an external datatype is looked for: the first dependency with the given
/// name and address, or else the first compiled unit of the package being compiled.
pub open spec fn external_unit(
    dependencies: Seq<CompiledUnit>,
    root_units: Seq<CompiledUnit>,
    name: Seq<char>,
    address: Seq<u8>,
) -> Option<CompiledUnit> {
    match unit_position(dependencies, name, address) {
        Some(k) => Some(dependencies[k]),
        None => match unit_position(root_units, name, address) {
            Some(k) => Some(root_units[k]),
            None => None,
        },
    }
}

/// The datatype that handle `idx` of module `m` refers to, or `None` when it cannot be found.
///
/// A handle of the module itself refers to the first struct definition with that handle, or
/// else to the first enum definition. A handle of another module is looked up by name in that
/// module, found among the dependencies or else among the package's units: it refers to the
/// first struct definition there with the matching handle, or else to the first enum definition
/// there with that handle.
pub open spec fn resolve_datatype_handle(
    module_id: ModuleIdView,
    m: &CompiledModule,
    dependencies: Seq<CompiledUnit>,
    root_units: Seq<CompiledUnit>,
    idx: int,
) -> Option<UserDefinedTypeView> {
    let dh = m.datatype_handles@[idx];
    if dh.module == m.self_handle_idx {
        match struct_def_position(m.struct_defs@, idx as u16) {
            Some(p) => Some(UserDefinedTypeView::Struct { module_id, index: p as u16 }),
            None => match enum_def_position(m.enum_defs@, idx as u16) {
                Some(p) => Some(UserDefinedTypeView::Enum(p as usize)),
                None => None,
            },
        }
    } else {
        let mh = m.module_handles@[dh.module as int];
        let address = m.address_identifiers@[mh.address as int]@;
        let name = m.identifier(mh.name as int);
        match external_unit(dependencies, root_units, name, address) {
            Some(unit) => match datatype_handle_position(&unit.module, m.identifier(dh.name as int)) {
                Some(e) => match struct_def_position(unit.module.struct_defs@, e as u16) {
                    Some(p) => Some(UserDefinedTypeView::Struct {
                        module_id: ModuleIdView { address, module_name: name },
                        index: p as u16,
                    }),
                    None => match enum_def_position(unit.module.enum_defs@, e as u16) {
                        Some(p) => Some(UserDefinedTypeView::Enum(p as usize)),
                        None => None,
                    },
                },
                None => None,
            },
            None => None,
        }
    }
}

} // verus!

verus! {

proof fn lemma_enum_def_position_prefix(defs: Seq<EnumDefinition>, h: u16, n: int)
    requires
        0 <= n <= defs.len(),
        enum_def_position(defs.take(n), h) is Some,
    ensures
        enum_def_position(defs, h) == enum_def_position(defs.take(n), h),
    decreases defs.len() - n,
{
    if n < defs.len() {
        assert(defs.take(n + 1).drop_last() =~= defs.take(n));
        lemma_enum_def_position_prefix(defs, h, n + 1);
    } else {
        assert(defs.take(n) =~= defs);
    }
}

proof fn lemma_enum_def_position_bound(defs: Seq<EnumDefinition>, h: u16)
    ensures
        enum_def_position(defs, h) matches Some(k) ==> 0 <= k < defs.len() && defs[k].enum_handle == h,
    decreases defs.len(),
{
    if defs.len() > 0 {
        lemma_enum_def_position_bound(defs.drop_last(), h);
    }
}

proof fn lemma_struct_def_position_bound(defs: Seq<StructDefinition>, h: u16)
    ensures
        struct_def_position(defs, h) matches Some(k) ==> 0 <= k < defs.len() && defs[k].struct_handle == h,
    decreases defs.len(),
{
    if defs.len() > 0 {
        lemma_struct_def_position_bound(defs.drop_last(), h);
    }
}

/// Finds the first enum definition of handle `h`.
fn find_enum_def(defs: &Vec<EnumDefinition>, h: u16) -> (r: Option<usize>)
    ensures
        match r {
            Some(k) => k < defs@.len() && enum_def_position(defs@, h) == Some(k as int),
            None => enum_def_position(defs@, h) is None,
        },
{
    let mut i: usize = 0;
    while i < defs.len()
        invariant
            0 <= i <= defs@.len(),
            enum_def_position(defs@.take(i as int), h) is None,
        decreases defs@.len() - i,
    {
        proof {
            assert(defs@.take(i + 1).drop_last() =~= defs@.take(i as int));
        }
        if defs[i].enum_handle == h {
            proof {
                lemma_enum_def_position_prefix(defs@, h, i + 1);
            }
            return Some(i);
        }
        i = i + 1;
    }
    proof {
        assert(defs@.take(i as int) =~= defs@);
    }
    None
}

proof fn lemma_unit_position_prefix(units: Seq<CompiledUnit>, name: Seq<char>, address: Seq<u8>, n: int)
    requires
        0 <= n <= units.len(),
        unit_position(units.take(n), name, address) is Some,
    ensures
        unit_position(units, name, address) == unit_position(units.take(n), name, address),
    decreases units.len() - n,
{
    if n < units.len() {
        assert(units.take(n + 1).drop_last() =~= units.take(n));
        lemma_unit_position_prefix(units, name, address, n + 1);
    } else {
        assert(units.take(n) =~= units);
    }
}

/// Finds the first unit named `name` and published at `address`.
fn find_unit(units: &[CompiledUnit], name: &str, address: &Address) -> (r: Option<usize>)
    ensures
        match r {
            Some(k) => k < units@.len() && unit_position(units@, name@, address@) == Some(k as int),
            None => unit_position(units@, name@, address@) is None,
        },
{
    let mut i: usize = 0;
    while i < units.len()
        invariant
            0 <= i <= units@.len(),
            unit_position(units@.take(i as int), name@, address@) is None,
        decreases units@.len() - i,
    {
        proof {
            assert(units@.take(i + 1).drop_last() =~= units@.take(i as int));
        }
        if str_equals(units[i].name.as_str(), name) && units[i].address == *address {
            proof {
                lemma_unit_position_prefix(units@, name@, address@, i + 1);
            }
            return Some(i);
        }
        i = i + 1;
    }
    proof {
        assert(units@.take(i as int) =~= units@);
    }
    None
}

proof fn lemma_datatype_handle_position_in_mono(m: &CompiledModule, n: int, n2: int, name: Seq<char>)
    requires
        0 <= n <= n2,
        datatype_handle_position_in(m, n, name) is Some,
    ensures
        datatype_handle_position_in(m, n2, name) == datatype_handle_position_in(m, n, name),
    decreases n2 - n,
{
    if n < n2 {
        lemma_datatype_handle_position_in_mono(m, n, n2 - 1, name);
    }
}

proof fn lemma_datatype_handle_position_in_bound(m: &CompiledModule, n: int, name: Seq<char>)
    ensures
        datatype_handle_position_in(m, n, name) matches Some(k) ==> 0 <= k < n,
    decreases n,
{
    if n > 0 {
        lemma_datatype_handle_position_in_bound(m, n - 1, name);
    }
}

/// Finds the first datatype handle of `m` whose name is `name`.
fn find_datatype_handle_by_name(m: &CompiledModule, name: &str) -> (r: Option<usize>)
    requires
        handles_in_range(m),
    ensures
        match r {
            Some(k) => k < m.datatype_handles@.len() && datatype_handle_position(m, name@) == Some(k as int),
            None => datatype_handle_position(m, name@) is None,
        },
{
    let mut i: usize = 0;
    while i < m.datatype_handles.len()
        invariant
            0 <= i <= m.datatype_handles@.len(),
            handles_in_range(m),
            datatype_handle_position_in(m, i as int, name@) is None,
        decreases m.datatype_handles@.len() - i,
    {
        let handle_name = m.identifiers[m.datatype_handles[i].name as usize].as_str();
        if str_equals(handle_name, name) {
            proof {
                lemma_datatype_handle_position_in_mono(m, i + 1, m.datatype_handles@.len() as int, name@);
            }
            return Some(i);
        }
        i = i + 1;
    }
    None
}

} // verus!

verus! {

/// Whether every unit's handles are in range of its tables.
pub open spec fn units_in_range(units: Seq<CompiledUnit>) -> bool {
    forall|i: int| 0 <= i < units.len() ==> handles_in_range(&(#[trigger] units[i]).module)
}

/// Resolves datatype handle `idx` of `module` (see `resolve_datatype_handle`).
fn resolve_handle(
    module_id: &ModuleId,
    module: &CompiledModule,
    move_module_dependencies: &[CompiledUnit],
    root_compiled_units: &[CompiledUnit],
    idx: usize,
) -> (r: UserDefinedType)
    requires
        idx < module.datatype_handles@.len(),
        handles_in_range(module),
        units_in_range(move_module_dependencies@),
        units_in_range(root_compiled_units@),
        resolve_datatype_handle(module_id@, module, move_module_dependencies@, root_compiled_units@, idx as int) is Some,
    ensures
        Some(r@) == resolve_datatype_handle(module_id@, module, move_module_dependencies@, root_compiled_units@, idx as int),
{
    let datatype_handle = &module.datatype_handles[idx];
    let handle_idx = idx as u16;
    if datatype_handle.module == module.self_handle_idx {
        // The datatype is defined in this module
        if let Some(position) = find_struct_def(module, handle_idx) {
            UserDefinedType::Struct { module_id: module_id.duplicate(), index: position as u16 }
        } else if let Some(position) = find_enum_def(&module.enum_defs, handle_idx) {
            UserDefinedType::Enum(position)
        } else {
            proof {
                assert(false);
            }
            UserDefinedType::Enum(0)
        }
    } else {
        let datatype_module = &module.module_handles[datatype_handle.module as usize];
        let module_address = &module.address_identifiers[datatype_module.address as usize];
        let module_name = module.identifiers[datatype_module.name as usize].as_str();

        // The module that defines the datatype: first among the dependencies, then among the
        // units of the package being compiled
        let external_module_source = if let Some(k) = find_unit(move_module_dependencies, module_name, module_address) {
            &move_module_dependencies[k].module
        } else if let Some(k) = find_unit(root_compiled_units, module_name, module_address) {
            &root_compiled_units[k].module
        } else {
            proof {
                assert(false);
            }
            return UserDefinedType::Enum(0);
        };
        assert(handles_in_range(external_module_source));

        let external_data_name = module.identifiers[datatype_handle.name as usize].as_str();
        let external_dth_idx = match find_datatype_handle_by_name(external_module_source, external_data_name) {
            Some(e) => e as u16,
            None => {
                proof {
                    assert(false);
                }
                return UserDefinedType::Enum(0);
            },
        };

        if let Some(position) = find_struct_def(external_module_source, external_dth_idx) {
            let external_module_id = ModuleId {
                address: Address(module_address.0),
                module_name: String::from_str(module_name),
            };
            UserDefinedType::Struct { module_id: external_module_id, index: position as u16 }
        } else if let Some(position) = find_enum_def(&external_module_source.enum_defs, external_dth_idx) {
            UserDefinedType::Enum(position)
        } else {
            proof {
                assert(false);
            }
            UserDefinedType::Enum(0)
        }
    }
}

impl ModuleData {
    /// Maps each datatype handle of `module` to the datatype it refers to (see
    /// `resolve_datatype_handle`); every handle must refer to some datatype.
    pub fn process_datatype_handles(
        module_id: &ModuleId,
        module: &CompiledModule,
        move_module_dependencies: &[CompiledUnit],
        root_compiled_units: &[CompiledUnit],
    ) -> (r: Vec<UserDefinedType>)
        requires
            handles_in_range(module),
            units_in_range(move_module_dependencies@),
            units_in_range(root_compiled_units@),
            forall|i: int| 0 <= i < module.datatype_handles@.len() ==> (#[trigger] resolve_datatype_handle(
                module_id@,
                module,
                move_module_dependencies@,
                root_compiled_units@,
                i,
            )) is Some,
        ensures
            r@.len() == module.datatype_handles@.len(),
            forall|i: int| 0 <= i < r@.len() ==> Some((#[trigger] r@[i])@) == resolve_datatype_handle(
                module_id@,
                module,
                move_module_dependencies@,
                root_compiled_units@,
                i,
            ),
    {
        let mut datatype_handles_map: Vec<UserDefinedType> = Vec::new();
        let mut index: usize = 0;
        while index < module.datatype_handles.len()
            invariant
                0 <= index <= module.datatype_handles@.len(),
                handles_in_range(module),
                units_in_range(move_module_dependencies@),
                units_in_range(root_compiled_units@),
                forall|i: int| 0 <= i < module.datatype_handles@.len() ==> (#[trigger] resolve_datatype_handle(
                    module_id@,
                    module,
                    move_module_dependencies@,
                    root_compiled_units@,
                    i,
                )) is Some,
                datatype_handles_map@.len() == index,
                forall|i: int| 0 <= i < index ==> Some((#[trigger] datatype_handles_map@[i])@) == resolve_datatype_handle(
                    module_id@,
                    module,
                    move_module_dependencies@,
                    root_compiled_units@,
                    i,
                ),
            decreases module.datatype_handles@.len() - index,
        {
            let udt = resolve_handle(module_id, module, move_module_dependencies, root_compiled_units, index);
            datatype_handles_map.push(udt);
            index = index + 1;
        }
        datatype_handles_map
    }
}

} // verus!

verus! {

/// Why a function named `init` is not a valid module initializer.
#[derive(Debug, PartialEq, Eq, Structural, Clone, Copy)]
pub enum InitFunctionError {
    /// The function is not private.
    NotPrivate,
    /// The arguments are not an optional one-time witness followed by a reference to the
    /// Stylus framework's `TxContext`.
    InvalidArguments,
    /// The function returns values.
    ReturnsValues,
    /// An argument's type refers to a datatype that cannot be converted.
    UnknownType(TypeConversionError),
    /// The Stylus framework's `tx_context` module is not among the dependencies.
    FrameworkNotFound,
    /// The struct that the argument refers to is not in the framework's `tx_context` module.
    FrameworkStructNotFound,
}

/// Whether the struct `index` of the framework's `tx_context` unit among `dependencies` is named
/// `TxContext`, or why it cannot be told.
pub open spec fn framework_struct_is_tx_context(dependencies: Seq<CompiledUnit>, index: u16) -> Result<bool, InitFunctionError> {
    match unit_position(dependencies, tx_context_module_view().module_name, stylus_framework_address()) {
        None => Err(InitFunctionError::FrameworkNotFound),
        Some(k) => {
            let ext = dependencies[k].module;
            if index < ext.struct_defs@.len() && ext.struct_defs@[index as int].struct_handle < ext.datatype_handles@.len() {
                Ok(ext.identifier(ext.datatype_handles@[ext.struct_defs@[index as int].struct_handle as int].name as int) == tx_context_identifier())
            } else {
                Err(InitFunctionError::FrameworkStructNotFound)
            }
        },
    }
}

/// Whether a type is a reference, shared or mutable, to the `TxContext` struct of the Stylus
/// framework, or why it cannot be told.
pub open spec fn is_tx_context_ref(t: IType, dependencies: Seq<CompiledUnit>) -> Result<bool, InitFunctionError> {
    match t {
        IType::Ref(inner) | IType::MutRef(inner) => match *inner {
            IType::Struct { module_id, index } => if module_id.module_name == tx_context_module_view().module_name
                && module_id.address == stylus_framework_address() {
                framework_struct_is_tx_context(dependencies, index)
            } else {
                Ok(false)
            },
            _ => Ok(false),
        },
        _ => Ok(false),
    }
}

/// Whether a function is the module initializer, or why a function named `init` is not a valid
/// one. A valid `init` is private, takes a reference to the Stylus framework's `TxContext` as its
/// last argument, optionally preceded by a one-time witness, and returns nothing.
pub open spec fn init_check(
    name: Seq<char>,
    visibility: Visibility,
    arguments: Seq<Token>,
    return_types: Seq<Token>,
    handles: Seq<UserDefinedTypeView>,
    module: &CompiledModule,
    dependencies: Seq<CompiledUnit>,
) -> Result<bool, InitFunctionError> {
    if name != seq!['i', 'n', 'i', 't'] {
        Ok(false)
    } else if visibility != Visibility::Private {
        Err(InitFunctionError::NotPrivate)
    } else if !(1 <= arguments.len() <= 2) {
        Err(InitFunctionError::InvalidArguments)
    } else {
        match itype_of_token(arguments.last(), handles) {
            Err(e) => Err(InitFunctionError::UnknownType(e)),
            Ok(last) => match is_tx_context_ref(last, dependencies) {
                Err(e) => Err(e),
                Ok(false) => Err(InitFunctionError::InvalidArguments),
                Ok(true) => if arguments.len() == 2 && !(arguments[0] matches Token::Datatype(idx)
                    && idx < module.datatype_handles@.len() && is_one_time_witness_spec(module, idx)) {
                    Err(InitFunctionError::InvalidArguments)
                } else if return_types.len() != 0 {
                    Err(InitFunctionError::ReturnsValues)
                } else {
                    Ok(true)
                },
            },
        }
    }
}

/// A one-time witness is named after its module in uppercase, takes no type parameter, and has
/// a definition with no field or with a single `bool` field.
pub proof fn law_one_time_witness_shape(m: &CompiledModule, idx: u16)
    requires
        is_one_time_witness_spec(m, idx),
    ensures
        m.identifier(m.datatype_handles@[idx as int].name as int)
            == ascii_upper_text(m.identifier(m.module_handles@[m.datatype_handles@[idx as int].module as int].name as int)),
        m.datatype_handles@[idx as int].type_parameters == 0,
        struct_def_position(m.struct_defs@, idx) is Some,
        declared_field_count(m.struct_defs@[struct_def_position(m.struct_defs@, idx)->0]) <= 1,
{
}

/// An initializer that takes two arguments is accepted only when the first is a one-time
/// witness: a datatype of the module with exactly the `drop` ability. One whose first argument
/// can be copied, stored or used as a key is rejected.
pub proof fn law_init_witness_has_only_drop(
    name: Seq<char>,
    visibility: Visibility,
    arguments: Seq<Token>,
    return_types: Seq<Token>,
    handles: Seq<UserDefinedTypeView>,
    module: &CompiledModule,
    dependencies: Seq<CompiledUnit>,
)
    requires
        init_check(name, visibility, arguments, return_types, handles, module, dependencies)
            == Ok::<bool, InitFunctionError>(true),
        arguments.len() == 2,
    ensures
        arguments[0] matches Token::Datatype(idx) && {
            &&& idx < module.datatype_handles@.len()
            &&& is_one_time_witness_spec(module, idx)
            &&& module.datatype_handles@[idx as int].abilities == ABILITY_DROP
            &&& module.datatype_handles@[idx as int].abilities & ABILITY_COPY == 0
        },
{
    if let Token::Datatype(idx) = arguments[0] {
        law_one_time_witness_has_only_drop(module, idx);
        let a = module.datatype_handles@[idx as int].abilities;
        assert(a == 2u8 ==> a & 1u8 == 0) by (bit_vector);
    }
}

/// The framework check of `is_tx_context_ref`, for a struct of the framework's `tx_context`.
fn check_framework_struct(move_module_dependencies: &[CompiledUnit], index: u16) -> (r: Result<bool, InitFunctionError>)
    requires
        units_in_range(move_module_dependencies@),
    ensures
        r == framework_struct_is_tx_context(move_module_dependencies@, index),
{
    let framework = TxContext::tx_context_module();
    let k = match find_unit(move_module_dependencies, framework.module_name.as_str(), &framework.address) {
        Some(k) => k,
        None => return Err(InitFunctionError::FrameworkNotFound),
    };
    let external_module_source = &move_module_dependencies[k].module;
    assert(handles_in_range(external_module_source));
    if (index as usize) < external_module_source.struct_defs.len() {
        let struct_ = &external_module_source.struct_defs[index as usize];
        if (struct_.struct_handle as usize) < external_module_source.datatype_handles.len() {
            let handle = &external_module_source.datatype_handles[struct_.struct_handle as usize];
            let identifier = external_module_source.identifiers[handle.name as usize].as_str();
            proof {
                reveal_strlit("TxContext");
                assert(TxContext::TX_CONTEXT_IDENTIFIER@ =~= tx_context_identifier());
            }
            return Ok(str_equals(identifier, TxContext::TX_CONTEXT_IDENTIFIER));
        }
    }
    Err(InitFunctionError::FrameworkStructNotFound)
}

impl ModuleData {
    /// Checks whether the given function is the module initializer (see `init_check`). A
    /// function not named `init` is not; a function named `init` that breaks the rules for an
    /// initializer is rejected with the rule it breaks.
    pub fn is_init(
        function_id: &FunctionId,
        move_function_arguments: &Vec<SignatureToken>,
        move_function_return: &Vec<SignatureToken>,
        function_def: &FunctionDefinition,
        datatype_handles_map: &Vec<UserDefinedType>,
        module: &CompiledModule,
        move_module_dependencies: &[CompiledUnit],
    ) -> (r: Result<bool, InitFunctionError>)
        requires
            handles_in_range(module),
            units_in_range(move_module_dependencies@),
        ensures
            r == init_check(
                function_id.identifier@,
                function_def.visibility,
                token_seq_view(move_function_arguments@),
                token_seq_view(move_function_return@),
                udt_seq_view(datatype_handles_map@),
                module,
                move_module_dependencies@,
            ),
            (r == Ok::<bool, InitFunctionError>(false)) <==> function_id.identifier@ != seq!['i', 'n', 'i', 't'],
            r is Err ==> function_id.identifier@ == seq!['i', 'n', 'i', 't'],
            r == Ok::<bool, InitFunctionError>(true) ==> {
                &&& function_def.visibility == Visibility::Private
                &&& 1 <= move_function_arguments@.len() <= 2
                &&& move_function_return@.len() == 0
            },
            r == Err::<bool, InitFunctionError>(InitFunctionError::NotPrivate) <==> {
                &&& function_id.identifier@ == seq!['i', 'n', 'i', 't']
                &&& function_def.visibility != Visibility::Private
            },
    {
        proof {
            lemma_token_seq_view(move_function_arguments@);
            lemma_token_seq_view(move_function_return@);
            reveal_strlit("init");
            reveal_with_fuel(crate::intermediate_types::itype_view, 2);
            assert("init"@ =~= seq!['i', 'n', 'i', 't']);
        }
        // Must be named `init`
        if !str_equals(function_id.identifier.as_str(), "init") {
            return Ok(false);
        }

        // Must be private
        if function_def.visibility != Visibility::Private {
            return Err(InitFunctionError::NotPrivate);
        }

        // Must have 1 or 2 arguments
        let arg_count = move_function_arguments.len();
        if arg_count < 1 || arg_count > 2 {
            return Err(InitFunctionError::InvalidArguments);
        }

        // The last argument must be a reference to the framework's TxContext
        assert(token_seq_view(move_function_arguments@).last() == move_function_arguments@[arg_count - 1]@);
        let last_arg = match IntermediateType::try_from_signature_token(
            &move_function_arguments[arg_count - 1],
            datatype_handles_map,
        ) {
            Ok(t) => t,
            Err(e) => return Err(InitFunctionError::UnknownType(e)),
        };
        let framework = TxContext::tx_context_module();
        let ghost tx_check = is_tx_context_ref(last_arg@, move_module_dependencies@);
        let referred: Option<&IntermediateType> = match &last_arg {
            IntermediateType::IRef(inner) => Some(&**inner),
            IntermediateType::IMutRef(inner) => Some(&**inner),
            _ => None,
        };
        let is_tx_context_ref: bool = match referred {
            Some(IntermediateType::IStruct { module_id, index }) => {
                if str_equals(module_id.module_name.as_str(), framework.module_name.as_str())
                    && module_id.address == framework.address {
                    match check_framework_struct(move_module_dependencies, *index) {
                        Ok(b) => b,
                        Err(e) => return Err(e),
                    }
                } else {
                    false
                }
            },
            _ => false,
        };
        assert(tx_check == Ok::<bool, InitFunctionError>(is_tx_context_ref));
        if !is_tx_context_ref {
            return Err(InitFunctionError::InvalidArguments);
        }

        // With two arguments, the first must be a one-time witness
        if arg_count == 2 {
            match &move_function_arguments[0] {
                SignatureToken::Datatype(idx) => {
                    if (*idx as usize) >= module.datatype_handles.len() || !is_one_time_witness(module, *idx) {
                        return Err(InitFunctionError::InvalidArguments);
                    }
                },
                _ => return Err(InitFunctionError::InvalidArguments),
            }
        }

        // Must not return any values
        if move_function_return.len() != 0 {
            return Err(InitFunctionError::ReturnsValues);
        }
        Ok(true)
    }
}

} // verus!

verus! {

/// The types of the fields, as tokens.
pub open spec fn field_tokens(fields: Seq<FieldDefinition>) -> Seq<Token> {
    fields.map_values(|f: FieldDefinition| f.signature@)
}

/// Converts the types of the fields to intermediate types (see `itype_of_tokens`).
pub fn convert_field_types(
    fields: &Vec<FieldDefinition>,
    datatype_handles_map: &Vec<UserDefinedType>,
) -> (r: Result<Vec<IntermediateType>, TypeConversionError>)
    ensures
        match r {
            Ok(v) => itype_of_tokens(field_tokens(fields@), udt_seq_view(datatype_handles_map@)) == Ok::<Seq<IType>, TypeConversionError>(itype_seq_view(v@)),
            Err(e) => itype_of_tokens(field_tokens(fields@), udt_seq_view(datatype_handles_map@)) == Err::<Seq<IType>, TypeConversionError>(e),
        },
{
    let ghost handles = udt_seq_view(datatype_handles_map@);
    let ghost ts = field_tokens(fields@);
    let mut converted: Vec<IntermediateType> = Vec::new();
    let mut i: usize = 0;
    proof {
        assert(ts.take(0) =~= Seq::<Token>::empty());
        assert(itype_seq_view(converted@) =~= Seq::<IType>::empty());
    }
    while i < fields.len()
        invariant
            0 <= i <= fields@.len(),
            ts == field_tokens(fields@),
            handles == udt_seq_view(datatype_handles_map@),
            itype_of_tokens(ts.take(i as int), handles) == Ok::<Seq<IType>, TypeConversionError>(itype_seq_view(converted@)),
        decreases fields@.len() - i,
    {
        let c = IntermediateType::try_from_signature_token(&fields[i].signature, datatype_handles_map);
        proof {
            assert(ts.take(i + 1).drop_last() =~= ts.take(i as int));
            assert(ts.take(i + 1).last() == fields@[i as int].signature@);
        }
        match c {
            Ok(t) => {
                proof {
                    lemma_itype_seq_view_push(converted@, t);
                }
                converted.push(t);
            },
            Err(e) => {
                proof {
                    lemma_itype_of_tokens_prefix(ts, handles, i + 1);
                }
                return Err(e);
            },
        }
        i = i + 1;
    }
    proof {
        assert(ts.take(i as int) =~= ts);
    }
    Ok(converted)
}

} // verus!

verus! {

/// Where an enum variant is: the enum's index and the variant's position in it.
#[derive(Debug, Clone, Copy)]
pub struct VariantData {
    pub enum_index: usize,
    pub index_inside_enum: usize,
}

/// The position of the first variant handle for variant `variant` of enum `enum_def`.
pub open spec fn variant_handle_position(hs: Seq<VariantHandle>, variant: u16, enum_def: u16) -> Option<int>
    decreases hs.len(),
{
    if hs.len() == 0 {
        None
    } else {
        match variant_handle_position(hs.drop_last(), variant, enum_def) {
            Some(k) => Some(k),
            None => if hs.last().variant == variant && hs.last().enum_def == enum_def {
                Some(hs.len() - 1)
            } else {
                None
            },
        }
    }
}

/// The variant that variant handle `h` of `m` stands for, when `h` is the first handle for a
/// variant of an enum of `m`; other handles stand for none.
pub open spec fn variant_handle_target(m: &CompiledModule, h: int) -> Option<VariantData> {
    let vh = m.variant_handles@[h];
    if vh.enum_def < m.enum_defs@.len() && vh.variant < m.enum_defs@[vh.enum_def as int].variants@.len()
        && variant_handle_position(m.variant_handles@, vh.variant, vh.enum_def) == Some(h) {
        Some(VariantData { enum_index: vh.enum_def as usize, index_inside_enum: vh.variant as usize })
    } else {
        None
    }
}

proof fn lemma_variant_handle_position(hs: Seq<VariantHandle>, variant: u16, enum_def: u16)
    ensures
        variant_handle_position(hs, variant, enum_def) matches Some(k) ==> {
            &&& 0 <= k < hs.len()
            &&& hs[k].variant == variant && hs[k].enum_def == enum_def
            &&& forall|j: int| 0 <= j < k ==> !(#[trigger] hs[j].variant == variant && hs[j].enum_def == enum_def)
        },
        variant_handle_position(hs, variant, enum_def) is None ==> forall|j: int| 0 <= j < hs.len() ==> !(#[trigger] hs[j].variant == variant && hs[j].enum_def == enum_def),
    decreases hs.len(),
{
    if hs.len() > 0 {
        lemma_variant_handle_position(hs.drop_last(), variant, enum_def);
        assert forall|j: int| 0 <= j < hs.len() - 1 implies hs.drop_last()[j] == hs[j] by {}
    }
}

proof fn lemma_variant_handle_position_prefix(hs: Seq<VariantHandle>, variant: u16, enum_def: u16, n: int)
    requires
        0 <= n <= hs.len(),
        variant_handle_position(hs.take(n), variant, enum_def) is Some,
    ensures
        variant_handle_position(hs, variant, enum_def) == variant_handle_position(hs.take(n), variant, enum_def),
    decreases hs.len() - n,
{
    if n < hs.len() {
        assert(hs.take(n + 1).drop_last() =~= hs.take(n));
        lemma_variant_handle_position_prefix(hs, variant, enum_def, n + 1);
    } else {
        assert(hs.take(n) =~= hs);
    }
}

/// Finds the first variant handle for variant `variant` of enum `enum_def`.
fn find_variant_handle(hs: &Vec<VariantHandle>, variant: u16, enum_def: u16) -> (r: Option<usize>)
    ensures
        match r {
            Some(k) => k < hs@.len() && variant_handle_position(hs@, variant, enum_def) == Some(k as int),
            None => variant_handle_position(hs@, variant, enum_def) is None,
        },
{
    let mut i: usize = 0;
    while i < hs.len()
        invariant
            0 <= i <= hs@.len(),
            variant_handle_position(hs@.take(i as int), variant, enum_def) is None,
        decreases hs@.len() - i,
    {
        proof {
            assert(hs@.take(i + 1).drop_last() =~= hs@.take(i as int));
        }
        if hs[i].variant == variant && hs[i].enum_def == enum_def {
            proof {
                lemma_variant_handle_position_prefix(hs@, variant, enum_def, i + 1);
            }
            return Some(i);
        }
        i = i + 1;
    }
    proof {
        assert(hs@.take(i as int) =~= hs@);
    }
    None
}

/// The field types of variant `v` of enum `e` of `m`.
pub open spec fn variant_field_types(m: &CompiledModule, handles: Seq<UserDefinedTypeView>, e: int, v: int) -> Result<Seq<IType>, TypeConversionError> {
    itype_of_tokens(field_tokens(m.enum_defs@[e].variants@[v].fields@), handles)
}

/// Whether the enums of `m` are within the format's limits and the types of all their variants'
/// fields convert.
pub open spec fn enums_convertible(m: &CompiledModule, handles: Seq<UserDefinedTypeView>) -> bool {
    &&& m.enum_defs@.len() <= 0x10000
    &&& forall|e: int| 0 <= e < m.enum_defs@.len() ==> (#[trigger] m.enum_defs@[e]).variants@.len() <= 0x10000
    &&& forall|e: int, v: int| 0 <= e < m.enum_defs@.len() && 0 <= v < m.enum_defs@[e].variants@.len()
        ==> (#[trigger] variant_field_types(m, handles, e, v)) is Ok
}

/// Whether variant handle `h` was processed once the variants before variant `v` of enum `e`
/// were.
pub open spec fn variant_handle_done(m: &CompiledModule, h: int, e: int, v: int) -> bool {
    let vh = m.variant_handles@[h];
    vh.enum_def < e || (vh.enum_def == e && vh.variant < v)
}

/// Whether `enum_` is enum `e` of `m`, built from its definition.
pub open spec fn enum_built(enum_: IEnum, m: &CompiledModule, handles: Seq<UserDefinedTypeView>, e: int) -> bool {
    &&& enum_.index == e as u16
    &&& enum_.variants@.len() == m.enum_defs@[e].variants@.len()
    &&& enum_.is_simple == all_variants_fieldless(enum_.variants@)
    &&& forall|v: int| 0 <= v < enum_.variants@.len() ==> {
        &&& (#[trigger] enum_.variants@[v]).index == v as u16
        &&& enum_.variants@[v].belongs_to == e as u16
        &&& variant_field_types(m, handles, e, v) == Ok::<Seq<IType>, TypeConversionError>(itype_seq_view(enum_.variants@[v].fields@))
    }
}

/// What the compiler knows of the enums of a module.
pub struct EnumData {
    /// The module's enums, by index.
    pub enums: Vec<IEnum>,
    /// Where each variant handle's variant is, by variant handle index; `None` for a handle
    /// that no variant is found through.
    pub variants_to_enum: Vec<Option<VariantData>>,
}

impl ModuleData {
    /// Builds the module's enums, and maps each variant handle to its enum and position.
    pub fn process_concrete_enums(
        module: &CompiledModule,
        datatype_handles_map: &Vec<UserDefinedType>,
    ) -> (r: (Vec<IEnum>, Vec<Option<VariantData>>))
        requires
            enums_convertible(module, udt_seq_view(datatype_handles_map@)),
        ensures
            r.0@.len() == module.enum_defs@.len(),
            forall|e: int| 0 <= e < r.0@.len() ==> enum_built(#[trigger] r.0@[e], module, udt_seq_view(datatype_handles_map@), e),
            r.1@.len() == module.variant_handles@.len(),
            forall|h: int| 0 <= h < r.1@.len() ==> #[trigger] r.1@[h] == variant_handle_target(module, h),
    {
        let ghost handles = udt_seq_view(datatype_handles_map@);
        let mut module_enums: Vec<IEnum> = Vec::new();
        let mut variants_to_enum_map: Vec<Option<VariantData>> = Vec::new();
        let mut h: usize = 0;
        while h < module.variant_handles.len()
            invariant
                0 <= h <= module.variant_handles@.len(),
                variants_to_enum_map@.len() == h,
                forall|j: int| 0 <= j < h ==> #[trigger] variants_to_enum_map@[j] is None,
            decreases module.variant_handles@.len() - h,
        {
            variants_to_enum_map.push(None);
            h = h + 1;
        }
        let mut index: usize = 0;
        while index < module.enum_defs.len()
            invariant
                0 <= index <= module.enum_defs@.len(),
                handles == udt_seq_view(datatype_handles_map@),
                enums_convertible(module, handles),
                module_enums@.len() == index,
                forall|e: int| 0 <= e < index ==> enum_built(#[trigger] module_enums@[e], module, handles, e),
                variants_to_enum_map@.len() == module.variant_handles@.len(),
                forall|j: int| 0 <= j < variants_to_enum_map@.len() ==> #[trigger] variants_to_enum_map@[j] == (
                    if variant_handle_done(module, j, index as int, 0) { variant_handle_target(module, j) } else { None }),
            decreases module.enum_defs@.len() - index,
        {
            let enum_def = &module.enum_defs[index];
            let mut variants: Vec<IEnumVariant> = Vec::new();
            let mut variant_index: usize = 0;
            while variant_index < enum_def.variants.len()
                invariant
                    0 <= index < module.enum_defs@.len(),
                    *enum_def == module.enum_defs@[index as int],
                    0 <= variant_index <= enum_def.variants@.len(),
                    handles == udt_seq_view(datatype_handles_map@),
                    enums_convertible(module, handles),
                    variants@.len() == variant_index,
                    forall|v: int| 0 <= v < variant_index ==> {
                        &&& (#[trigger] variants@[v]).index == v as u16
                        &&& variants@[v].belongs_to == index as u16
                        &&& variant_field_types(module, handles, index as int, v) == Ok::<Seq<IType>, TypeConversionError>(itype_seq_view(variants@[v].fields@))
                    },
                    variants_to_enum_map@.len() == module.variant_handles@.len(),
                    forall|j: int| 0 <= j < variants_to_enum_map@.len() ==> #[trigger] variants_to_enum_map@[j] == (
                        if variant_handle_done(module, j, index as int, variant_index as int) { variant_handle_target(module, j) } else { None }),
                decreases enum_def.variants@.len() - variant_index,
            {
                let variant = &enum_def.variants[variant_index];
                let fields = match convert_field_types(&variant.fields, datatype_handles_map) {
                    Ok(f) => f,
                    Err(_) => {
                        proof {
                            assert(variant_field_types(module, handles, index as int, variant_index as int) is Ok);
                        }
                        return (module_enums, variants_to_enum_map);
                    },
                };
                variants.push(IEnumVariant::new(variant_index as u16, index as u16, fields));

                // The first variant handle of this variant, if the code refers to it
                let found = find_variant_handle(&module.variant_handles, variant_index as u16, index as u16);
                proof {
                    lemma_variant_handle_position(module.variant_handles@, variant_index as u16, index as u16);
                }
                if let Some(vh) = found {
                    variants_to_enum_map.set(vh, Some(VariantData { enum_index: index, index_inside_enum: variant_index }));
                }
                proof {
                    assert forall|j: int| 0 <= j < variants_to_enum_map@.len() implies #[trigger] variants_to_enum_map@[j] == (
                        if variant_handle_done(module, j, index as int, variant_index + 1) { variant_handle_target(module, j) } else { None }) by {
                        let hj = module.variant_handles@[j];
                        if hj.enum_def == index as u16 && hj.variant == variant_index as u16 {
                            assert(hj.enum_def as int == index as int);
                            assert(hj.variant as int == variant_index as int);
                        }
                    }
                }
                variant_index = variant_index + 1;
            }
            let enum_ = IEnum::new(index as u16, variants);
            module_enums.push(enum_);
            proof {
                assert forall|j: int| 0 <= j < variants_to_enum_map@.len() implies #[trigger] variants_to_enum_map@[j] == (
                    if variant_handle_done(module, j, index + 1, 0) { variant_handle_target(module, j) } else { None }) by {
                    let hj = module.variant_handles@[j];
                    if hj.enum_def == index && hj.variant >= enum_def.variants@.len() {
                        assert(variant_handle_target(module, j) is None);
                    }
                }
            }
            index = index + 1;
        }
        proof {
            assert forall|j: int| 0 <= j < variants_to_enum_map@.len() implies #[trigger] variants_to_enum_map@[j] == variant_handle_target(module, j) by {
                let hj = module.variant_handles@[j];
                if hj.enum_def >= module.enum_defs@.len() {
                    assert(variant_handle_target(module, j) is None);
                }
            }
        }
        (module_enums, variants_to_enum_map)
    }
}

} // verus!

verus! {

impl EnumData {
    /// Where the variant of variant handle `idx` is, if the handle is known.
    pub open spec fn variant_entry(&self, idx: u16) -> Option<VariantData> {
        if (idx as int) < self.variants_to_enum@.len() {
            self.variants_to_enum@[idx as int]
        } else {
            None
        }
    }

    /// The enum that has a variant of variant handle `idx`.
    pub fn get_enum_by_variant_handle_idx(&self, idx: u16) -> (r: Result<&IEnum, CompilationContextError>)
        ensures
            match r {
                Ok(e) => self.variant_entry(idx) is Some
                    && self.variant_entry(idx)->Some_0.enum_index < self.enums@.len()
                    && *e == self.enums@[self.variant_entry(idx)->Some_0.enum_index as int],
                Err(CompilationContextError::EnumWithVariantIdxNotFound(i)) => i == idx && self.variant_entry(idx) is None,
                Err(CompilationContextError::EnumNotFound(i)) => self.variant_entry(idx) is Some
                    && self.variant_entry(idx)->Some_0.enum_index >= self.enums@.len()
                    && i == self.variant_entry(idx)->Some_0.enum_index as u16,
                Err(_) => false,
            },
    {
        if (idx as usize) >= self.variants_to_enum.len() {
            return Err(CompilationContextError::EnumWithVariantIdxNotFound(idx));
        }
        match &self.variants_to_enum[idx as usize] {
            None => Err(CompilationContextError::EnumWithVariantIdxNotFound(idx)),
            Some(vd) => {
                if vd.enum_index < self.enums.len() {
                    Ok(&self.enums[vd.enum_index])
                } else {
                    Err(CompilationContextError::EnumNotFound(vd.enum_index as u16))
                }
            },
        }
    }

    /// The position, in its enum, of the variant of variant handle `idx`.
    pub fn get_variant_position_by_variant_handle_idx(&self, idx: u16) -> (r: Result<u16, CompilationContextError>)
        ensures
            match r {
                Ok(p) => self.variant_entry(idx) is Some && p == self.variant_entry(idx)->Some_0.index_inside_enum as u16,
                Err(CompilationContextError::EnumWithVariantIdxNotFound(i)) => i == idx && self.variant_entry(idx) is None,
                Err(_) => false,
            },
    {
        if (idx as usize) >= self.variants_to_enum.len() {
            return Err(CompilationContextError::EnumWithVariantIdxNotFound(idx));
        }
        match &self.variants_to_enum[idx as usize] {
            None => Err(CompilationContextError::EnumWithVariantIdxNotFound(idx)),
            Some(vd) => Ok(vd.index_inside_enum as u16),
        }
    }

    /// The enum of index `index`.
    pub fn get_enum_by_index(&self, index: u16) -> (r: Result<&IEnum, CompilationContextError>)
        ensures
            match r {
                Ok(e) => (index as int) < self.enums@.len() && *e == self.enums@[index as int],
                Err(CompilationContextError::EnumNotFound(i)) => i == index && (index as int) >= self.enums@.len(),
                Err(_) => false,
            },
    {
        if (index as usize) < self.enums.len() {
            Ok(&self.enums[index as usize])
        } else {
            Err(CompilationContextError::EnumNotFound(index))
        }
    }
}

} // verus!

verus! {

/// The position of the first field handle for field `field` of struct definition `owner`.
pub open spec fn field_handle_position(hs: Seq<FieldHandle>, field: u16, owner: u16) -> Option<int>
    decreases hs.len(),
{
    if hs.len() == 0 {
        None
    } else {
        match field_handle_position(hs.drop_last(), field, owner) {
            Some(k) => Some(k),
            None => if hs.last().field == field && hs.last().owner == owner {
                Some(hs.len() - 1)
            } else {
                None
            },
        }
    }
}

proof fn lemma_field_handle_position(hs: Seq<FieldHandle>, field: u16, owner: u16)
    ensures
        field_handle_position(hs, field, owner) matches Some(k) ==> {
            &&& 0 <= k < hs.len()
            &&& hs[k].field == field && hs[k].owner == owner
        },
    decreases hs.len(),
{
    if hs.len() > 0 {
        lemma_field_handle_position(hs.drop_last(), field, owner);
    }
}

proof fn lemma_field_handle_position_prefix(hs: Seq<FieldHandle>, field: u16, owner: u16, n: int)
    requires
        0 <= n <= hs.len(),
        field_handle_position(hs.take(n), field, owner) is Some,
    ensures
        field_handle_position(hs, field, owner) == field_handle_position(hs.take(n), field, owner),
    decreases hs.len() - n,
{
    if n < hs.len() {
        assert(hs.take(n + 1).drop_last() =~= hs.take(n));
        lemma_field_handle_position_prefix(hs, field, owner, n + 1);
    } else {
        assert(hs.take(n) =~= hs);
    }
}

/// Finds the first field handle for field `field` of struct definition `owner`.
fn find_field_handle(hs: &Vec<FieldHandle>, field: u16, owner: u16) -> (r: Option<usize>)
    ensures
        match r {
            Some(k) => k < hs@.len() && field_handle_position(hs@, field, owner) == Some(k as int),
            None => field_handle_position(hs@, field, owner) is None,
        },
{
    let mut i: usize = 0;
    while i < hs.len()
        invariant
            0 <= i <= hs@.len(),
            field_handle_position(hs@.take(i as int), field, owner) is None,
        decreases hs@.len() - i,
    {
        proof {
            assert(hs@.take(i + 1).drop_last() =~= hs@.take(i as int));
        }
        if hs[i].field == field && hs[i].owner == owner {
            proof {
                lemma_field_handle_position_prefix(hs@, field, owner, i + 1);
            }
            return Some(i);
        }
        i = i + 1;
    }
    proof {
        assert(hs@.take(i as int) =~= hs@);
    }
    None
}

/// The fields of struct definition `i` of `m`; a native struct has none.
pub open spec fn struct_fields(m: &CompiledModule, i: int) -> Seq<FieldDefinition> {
    match m.struct_defs@[i].fields {
        Some(fields) => fields@,
        None => Seq::empty(),
    }
}

/// The struct definition that field handle `h` of `m` refers into, when `h` is the first
/// handle for a field of a struct of `m`; other handles refer into none.
pub open spec fn field_handle_target(m: &CompiledModule, h: int) -> Option<u16> {
    let fh = m.field_handles@[h];
    if fh.owner < m.struct_defs@.len() && fh.field < struct_fields(m, fh.owner as int).len()
        && field_handle_position(m.field_handles@, fh.field, fh.owner) == Some(h) {
        Some(fh.owner)
    } else {
        None
    }
}

/// Whether the structs of `m` are within the format's limits, refer to datatype handles in
/// range, and have field types that convert.
pub open spec fn structs_convertible(m: &CompiledModule, handles: Seq<UserDefinedTypeView>) -> bool {
    &&& handles_in_range(m)
    &&& m.struct_defs@.len() <= 0x10000
    &&& forall|i: int| 0 <= i < m.struct_defs@.len() ==> {
        &&& (#[trigger] m.struct_defs@[i]).struct_handle < m.datatype_handles@.len()
        &&& struct_fields(m, i).len() <= 0x10000
        &&& itype_of_tokens(field_tokens(struct_fields(m, i)), handles) is Ok
    }
}

/// The handle index of each field's first field handle, when the code refers to the field.
pub open spec fn struct_field_handles(m: &CompiledModule, i: int) -> Seq<Option<u16>> {
    Seq::new(
        struct_fields(m, i).len(),
        |j: int| match field_handle_position(m.field_handles@, j as u16, i as u16) {
            Some(h) => Some(h as u16),
            None => None,
        },
    )
}

/// Whether `s` is struct `i` of `m`, built from its definition.
pub open spec fn struct_built(s: IStruct, m: &CompiledModule, handles: Seq<UserDefinedTypeView>, i: int) -> bool {
    let dh = m.datatype_handles@[m.struct_defs@[i].struct_handle as int];
    &&& s.struct_definition_index == i as u16
    &&& s.identifier@ == m.identifier(dh.name as int)
    &&& itype_of_tokens(field_tokens(struct_fields(m, i)), handles) == Ok::<Seq<IType>, TypeConversionError>(itype_seq_view(s.fields@))
    &&& s.field_handles@ == struct_field_handles(m, i)
    &&& s.saved_in_storage == (dh.abilities & ABILITY_KEY != 0)
    &&& s.is_one_time_witness == is_one_time_witness_spec(m, m.struct_defs@[i].struct_handle)
}

/// Whether field handle `h` was processed once the fields before field `f` of struct `i` were.
pub open spec fn field_handle_done(m: &CompiledModule, h: int, i: int, f: int) -> bool {
    let fh = m.field_handles@[h];
    fh.owner < i || (fh.owner == i && fh.field < f)
}

impl ModuleData {
    /// Builds the module's structs, and maps each field handle to the struct it refers into.
    pub fn process_concrete_structs(
        module: &CompiledModule,
        datatype_handles_map: &Vec<UserDefinedType>,
    ) -> (r: (Vec<IStruct>, Vec<Option<u16>>))
        requires
            structs_convertible(module, udt_seq_view(datatype_handles_map@)),
        ensures
            r.0@.len() == module.struct_defs@.len(),
            forall|i: int| 0 <= i < r.0@.len() ==> struct_built(#[trigger] r.0@[i], module, udt_seq_view(datatype_handles_map@), i),
            r.1@.len() == module.field_handles@.len(),
            forall|h: int| 0 <= h < r.1@.len() ==> #[trigger] r.1@[h] == field_handle_target(module, h),
    {
        let ghost handles = udt_seq_view(datatype_handles_map@);
        let mut module_structs: Vec<IStruct> = Vec::new();
        let mut fields_to_struct_map: Vec<Option<u16>> = Vec::new();
        let mut h: usize = 0;
        while h < module.field_handles.len()
            invariant
                0 <= h <= module.field_handles@.len(),
                fields_to_struct_map@.len() == h,
                forall|j: int| 0 <= j < h ==> #[trigger] fields_to_struct_map@[j] is None,
            decreases module.field_handles@.len() - h,
        {
            fields_to_struct_map.push(None);
            h = h + 1;
        }
        let mut index: usize = 0;
        while index < module.struct_defs.len()
            invariant
                0 <= index <= module.struct_defs@.len(),
                handles == udt_seq_view(datatype_handles_map@),
                structs_convertible(module, handles),
                module_structs@.len() == index,
                forall|i: int| 0 <= i < index ==> struct_built(#[trigger] module_structs@[i], module, handles, i),
                fields_to_struct_map@.len() == module.field_handles@.len(),
                forall|j: int| 0 <= j < fields_to_struct_map@.len() ==> #[trigger] fields_to_struct_map@[j] == (
                    if field_handle_done(module, j, index as int, 0) { field_handle_target(module, j) } else { None }),
            decreases module.struct_defs@.len() - index,
        {
            let struct_def = &module.struct_defs[index];
            assert(struct_def.struct_handle < module.datatype_handles@.len());
            let empty: Vec<FieldDefinition> = Vec::new();
            let fields: &Vec<FieldDefinition> = match &struct_def.fields {
                Some(f) => f,
                None => &empty,
            };
            assert(fields@ == struct_fields(module, index as int));
            let field_types = match convert_field_types(fields, datatype_handles_map) {
                Ok(f) => f,
                Err(_) => {
                    proof {
                        assert(false);
                    }
                    return (module_structs, fields_to_struct_map);
                },
            };
            let mut field_handles: Vec<Option<u16>> = Vec::new();
            let mut field_index: usize = 0;
            while field_index < fields.len()
                invariant
                    0 <= index < module.struct_defs@.len(),
                    module.struct_defs@.len() <= 0x10000,
                    fields@ == struct_fields(module, index as int),
                    fields@.len() <= 0x10000,
                    0 <= field_index <= fields@.len(),
                    field_handles@ == struct_field_handles(module, index as int).take(field_index as int),
                    fields_to_struct_map@.len() == module.field_handles@.len(),
                    forall|j: int| 0 <= j < fields_to_struct_map@.len() ==> #[trigger] fields_to_struct_map@[j] == (
                        if field_handle_done(module, j, index as int, field_index as int) { field_handle_target(module, j) } else { None }),
                decreases fields@.len() - field_index,
            {
                let found = find_field_handle(&module.field_handles, field_index as u16, index as u16);
                proof {
                    lemma_field_handle_position(module.field_handles@, field_index as u16, index as u16);
                }
                match found {
                    Some(fh) => {
                        fields_to_struct_map.set(fh, Some(index as u16));
                        field_handles.push(Some(fh as u16));
                    },
                    None => {
                        field_handles.push(None);
                    },
                }
                proof {
                    assert(field_handles@ =~= struct_field_handles(module, index as int).take(field_index + 1));
                    assert forall|j: int| 0 <= j < fields_to_struct_map@.len() implies #[trigger] fields_to_struct_map@[j] == (
                        if field_handle_done(module, j, index as int, field_index + 1) { field_handle_target(module, j) } else { None }) by {
                        let hj = module.field_handles@[j];
                        if hj.owner == index as u16 && hj.field == field_index as u16 {
                            assert(hj.owner as int == index as int);
                            assert(hj.field as int == field_index as int);
                        }
                    }
                }
                field_index = field_index + 1;
            }
            proof {
                assert(field_handles@ =~= struct_field_handles(module, index as int));
            }
            let datatype_handle = &module.datatype_handles[struct_def.struct_handle as usize];
            let identifier = String::from_str(module.identifiers[datatype_handle.name as usize].as_str());
            let saved_in_storage = datatype_handle.abilities & ABILITY_KEY != 0;
            let otw = is_one_time_witness(module, struct_def.struct_handle);
            module_structs.push(IStruct {
                struct_definition_index: index as u16,
                identifier,
                fields: field_types,
                field_handles,
                saved_in_storage,
                is_one_time_witness: otw,
            });
            proof {
                assert forall|j: int| 0 <= j < fields_to_struct_map@.len() implies #[trigger] fields_to_struct_map@[j] == (
                    if field_handle_done(module, j, index + 1, 0) { field_handle_target(module, j) } else { None }) by {
                    let hj = module.field_handles@[j];
                    if hj.owner == index && hj.field >= fields@.len() {
                        assert(field_handle_target(module, j) is None);
                    }
                }
            }
            index = index + 1;
        }
        proof {
            assert forall|j: int| 0 <= j < fields_to_struct_map@.len() implies #[trigger] fields_to_struct_map@[j] == field_handle_target(module, j) by {
                let hj = module.field_handles@[j];
                if hj.owner >= module.struct_defs@.len() {
                    assert(field_handle_target(module, j) is None);
                }
            }
        }
        (module_structs, fields_to_struct_map)
    }
}

} // verus!

verus! {

/// The intermediate types of signature `s` of `m`.
pub open spec fn signature_types(m: &CompiledModule, handles: Seq<UserDefinedTypeView>, s: int) -> Result<Seq<IType>, TypeConversionError> {
    itype_of_tokens(token_seq_view(m.signatures@[s]@), handles)
}

/// Whether every signature of `m` converts to intermediate types.
pub open spec fn signatures_convertible(m: &CompiledModule, handles: Seq<UserDefinedTypeView>) -> bool {
    forall|s: int| 0 <= s < m.signatures@.len() ==> (#[trigger] signature_types(m, handles, s)) is Ok
}

/// Converts a signature's types to intermediate types (see `itype_of_tokens`).
pub fn convert_signature(
    tokens: &Vec<SignatureToken>,
    datatype_handles_map: &Vec<UserDefinedType>,
) -> (r: Result<Vec<IntermediateType>, TypeConversionError>)
    ensures
        match r {
            Ok(v) => itype_of_tokens(token_seq_view(tokens@), udt_seq_view(datatype_handles_map@)) == Ok::<Seq<IType>, TypeConversionError>(itype_seq_view(v@)),
            Err(e) => itype_of_tokens(token_seq_view(tokens@), udt_seq_view(datatype_handles_map@)) == Err::<Seq<IType>, TypeConversionError>(e),
        },
{
    let ghost handles = udt_seq_view(datatype_handles_map@);
    let ghost ts = token_seq_view(tokens@);
    proof {
        lemma_token_seq_view(tokens@);
    }
    let mut converted: Vec<IntermediateType> = Vec::new();
    let mut i: usize = 0;
    proof {
        assert(ts.take(0) =~= Seq::<Token>::empty());
        assert(itype_seq_view(converted@) =~= Seq::<IType>::empty());
    }
    while i < tokens.len()
        invariant
            0 <= i <= tokens@.len(),
            ts == token_seq_view(tokens@),
            ts.len() == tokens@.len(),
            forall|j: int| 0 <= j < tokens@.len() ==> #[trigger] ts[j] == tokens@[j]@,
            handles == udt_seq_view(datatype_handles_map@),
            itype_of_tokens(ts.take(i as int), handles) == Ok::<Seq<IType>, TypeConversionError>(itype_seq_view(converted@)),
        decreases tokens@.len() - i,
    {
        let c = IntermediateType::try_from_signature_token(&tokens[i], datatype_handles_map);
        proof {
            assert(ts.take(i + 1).drop_last() =~= ts.take(i as int));
            assert(ts.take(i + 1).last() == tokens@[i as int]@);
        }
        match c {
            Ok(t) => {
                proof {
                    lemma_itype_seq_view_push(converted@, t);
                }
                converted.push(t);
            },
            Err(e) => {
                proof {
                    lemma_itype_of_tokens_prefix(ts, handles, i + 1);
                }
                return Err(e);
            },
        }
        i = i + 1;
    }
    proof {
        assert(ts.take(i as int) =~= ts);
    }
    Ok(converted)
}

impl ModuleData {
    /// The intermediate types of every signature of the module, by signature index.
    pub fn process_signatures(
        module: &CompiledModule,
        datatype_handles_map: &Vec<UserDefinedType>,
    ) -> (r: Vec<Vec<IntermediateType>>)
        requires
            signatures_convertible(module, udt_seq_view(datatype_handles_map@)),
        ensures
            r@.len() == module.signatures@.len(),
            forall|s: int| 0 <= s < r@.len() ==> signature_types(module, udt_seq_view(datatype_handles_map@), s)
                == Ok::<Seq<IType>, TypeConversionError>(itype_seq_view((#[trigger] r@[s])@)),
    {
        let mut signatures: Vec<Vec<IntermediateType>> = Vec::new();
        let mut s: usize = 0;
        while s < module.signatures.len()
            invariant
                0 <= s <= module.signatures@.len(),
                signatures_convertible(module, udt_seq_view(datatype_handles_map@)),
                signatures@.len() == s,
                forall|j: int| 0 <= j < s ==> signature_types(module, udt_seq_view(datatype_handles_map@), j)
                    == Ok::<Seq<IType>, TypeConversionError>(itype_seq_view((#[trigger] signatures@[j])@)),
            decreases module.signatures@.len() - s,
        {
            match convert_signature(&module.signatures[s], datatype_handles_map) {
                Ok(types) => signatures.push(types),
                Err(_) => {
                    proof {
                        assert(signature_types(module, udt_seq_view(datatype_handles_map@), s as int) is Ok);
                    }
                    return signatures;
                },
            }
            s = s + 1;
        }
        signatures
    }

    /// Maps each field instantiation of the module to its generic field handle and the
    /// intermediate types of its type arguments.
    pub fn process_generic_field_instances(
        module: &CompiledModule,
        datatype_handles_map: &Vec<UserDefinedType>,
    ) -> (r: Vec<(u16, Vec<IntermediateType>)>)
        requires
            signatures_convertible(module, udt_seq_view(datatype_handles_map@)),
            forall|k: int| 0 <= k < module.field_instantiations@.len() ==> (#[trigger] module.field_instantiations@[k]).type_parameters < module.signatures@.len(),
        ensures
            r@.len() == module.field_instantiations@.len(),
            forall|k: int| 0 <= k < r@.len() ==> {
                &&& (#[trigger] r@[k]).0 == module.field_instantiations@[k].handle
                &&& signature_types(module, udt_seq_view(datatype_handles_map@), module.field_instantiations@[k].type_parameters as int)
                    == Ok::<Seq<IType>, TypeConversionError>(itype_seq_view(r@[k].1@))
            },
    {
        let mut instances: Vec<(u16, Vec<IntermediateType>)> = Vec::new();
        let mut k: usize = 0;
        while k < module.field_instantiations.len()
            invariant
                0 <= k <= module.field_instantiations@.len(),
                signatures_convertible(module, udt_seq_view(datatype_handles_map@)),
                forall|j: int| 0 <= j < module.field_instantiations@.len() ==> (#[trigger] module.field_instantiations@[j]).type_parameters < module.signatures@.len(),
                instances@.len() == k,
                forall|j: int| 0 <= j < k ==> {
                    &&& (#[trigger] instances@[j]).0 == module.field_instantiations@[j].handle
                    &&& signature_types(module, udt_seq_view(datatype_handles_map@), module.field_instantiations@[j].type_parameters as int)
                        == Ok::<Seq<IType>, TypeConversionError>(itype_seq_view(instances@[j].1@))
                },
            decreases module.field_instantiations@.len() - k,
        {
            let field_instance = &module.field_instantiations[k];
            let sig = field_instance.type_parameters as usize;
            match convert_signature(&module.signatures[sig], datatype_handles_map) {
                Ok(types) => instances.push((field_instance.handle, types)),
                Err(_) => {
                    proof {
                        assert(signature_types(module, udt_seq_view(datatype_handles_map@), sig as int) is Ok);
                    }
                    return instances;
                },
            }
            k = k + 1;
        }
        instances
    }
}

} // verus!

verus! {

/// Why the function definitions of a module are rejected.
#[derive(Debug, PartialEq, Eq, Structural, Clone, Copy)]
pub enum FunctionDefinitionError {
    /// A function acquires global resources, which is not supported.
    AcquiresGlobalResources,
    /// A function named `init` is not a valid initializer.
    InvalidInit(InitFunctionError),
    /// The module has more than one initializer.
    MultipleInit,
}

/// Whether the function handles and instantiations of `m` hold indices in range, and the
/// handles of the module's own functions have definitions.
pub open spec fn functions_in_range(m: &CompiledModule) -> bool {
    &&& forall|i: int| 0 <= i < m.function_handles@.len() ==> {
        &&& (#[trigger] m.function_handles@[i]).module < m.module_handles@.len()
        &&& m.function_handles@[i].name < m.identifiers@.len()
        &&& m.function_handles@[i].parameters < m.signatures@.len()
        &&& m.function_handles@[i].return_ < m.signatures@.len()
    }
    &&& forall|k: int| 0 <= k < m.function_instantiations@.len() ==> {
        &&& (#[trigger] m.function_instantiations@[k]).handle < m.function_handles@.len()
        &&& m.function_instantiations@[k].type_parameters < m.signatures@.len()
    }
}

/// The identifier of the function of handle `i` of `m`, without type arguments.
pub open spec fn function_handle_id(m: &CompiledModule, i: int) -> FunctionIdView {
    let fh = m.function_handles@[i];
    let mh = m.module_handles@[fh.module as int];
    FunctionIdView {
        identifier: m.identifier(fh.name as int),
        module_id: ModuleIdView {
            address: m.address_identifiers@[mh.address as int]@,
            module_name: m.identifier(mh.name as int),
        },
        type_instantiations: None,
    }
}

/// The identifier of the generic call of function instantiation `k` of `m`.
pub open spec fn function_instantiation_id(m: &CompiledModule, handles: Seq<UserDefinedTypeView>, k: int) -> FunctionIdView {
    let fi = m.function_instantiations@[k];
    let id = function_handle_id(m, fi.handle as int);
    FunctionIdView {
        type_instantiations: Some(signature_types(m, handles, fi.type_parameters as int)->Ok_0),
        ..id
    }
}

/// Whether function handle `i` of `m` is a function of the module `module_id` itself.
pub open spec fn is_own_function(m: &CompiledModule, module_id: ModuleIdView, i: int) -> bool {
    function_handle_id(m, i).module_id == module_id
}

/// The entries that the functions among the first `n` function handles of `m` that are defined
/// in module `module_id` add to the table of function definitions: each handle's identifier and
/// the index of its definition, in handle order.
pub open spec fn own_definitions(m: &CompiledModule, module_id: ModuleIdView, n: int) -> Seq<(FunctionIdView, int)>
    decreases n,
{
    if n <= 0 {
        Seq::empty()
    } else {
        let rest = own_definitions(m, module_id, n - 1);
        if is_own_function(m, module_id, n - 1) {
            rest.push((function_handle_id(m, n - 1), n - 1))
        } else {
            rest
        }
    }
}

/// Scans the first `n` function handles of `m`: the index of the module's initializer among
/// them, or the first rule that a function breaks.
pub open spec fn scan_functions(
    m: &CompiledModule,
    module_id: ModuleIdView,
    handles: Seq<UserDefinedTypeView>,
    dependencies: Seq<CompiledUnit>,
    n: int,
) -> Result<Option<int>, FunctionDefinitionError>
    decreases n,
{
    if n <= 0 {
        Ok(None)
    } else {
        match scan_functions(m, module_id, handles, dependencies, n - 1) {
            Err(e) => Err(e),
            Ok(init) => {
                let i = n - 1;
                if !is_own_function(m, module_id, i) {
                    Ok(init)
                } else {
                    let def = m.function_defs@[i];
                    let fh = m.function_handles@[i];
                    if def.acquires_global_resources != 0 {
                        Err(FunctionDefinitionError::AcquiresGlobalResources)
                    } else {
                        match init_check(
                            m.identifier(fh.name as int),
                            def.visibility,
                            token_seq_view(m.signatures@[fh.parameters as int]@),
                            token_seq_view(m.signatures@[fh.return_ as int]@),
                            handles,
                            m,
                            dependencies,
                        ) {
                            Err(e) => Err(FunctionDefinitionError::InvalidInit(e)),
                            Ok(false) => Ok(init),
                            Ok(true) => if init is Some {
                                Err(FunctionDefinitionError::MultipleInit)
                            } else {
                                Ok(Some(i))
                            },
                        }
                    }
                }
            },
        }
    }
}

/// Once a function breaks a rule, the scan of any longer prefix reports the same.
proof fn lemma_scan_functions_err(
    m: &CompiledModule,
    module_id: ModuleIdView,
    handles: Seq<UserDefinedTypeView>,
    dependencies: Seq<CompiledUnit>,
    k: int,
    n: int,
)
    requires
        0 <= k <= n,
        scan_functions(m, module_id, handles, dependencies, k) is Err,
    ensures
        scan_functions(m, module_id, handles, dependencies, n) == scan_functions(m, module_id, handles, dependencies, k),
    decreases n - k,
{
    if k < n {
        lemma_scan_functions_err(m, module_id, handles, dependencies, k, n - 1);
    }
}

/// The identifier of a function handle of `m`.
fn function_id_of_handle(module: &CompiledModule, i: usize) -> (r: FunctionId)
    requires
        handles_in_range(module),
        functions_in_range(module),
        i < module.function_handles@.len(),
    ensures
        r@ == function_handle_id(module, i as int),
{
    let function = &module.function_handles[i];
    let function_module = &module.module_handles[function.module as usize];
    let function_name = module.identifiers[function.name as usize].as_str();
    let function_module_name = module.identifiers[function_module.name as usize].as_str();
    let function_module_address = &module.address_identifiers[function_module.address as usize];
    FunctionId {
        identifier: String::from_str(function_name),
        module_id: ModuleId {
            address: Address(function_module_address.0),
            module_name: String::from_str(function_module_name),
        },
        type_instantiations: None,
    }
}

impl ModuleData {
    /// Gathers the argument and return types of every function handle of the module, the
    /// identifiers of the functions it calls and of its generic calls, and its initializer,
    /// checking the rules for the module's own functions (see `scan_functions`); the module's
    /// own functions are added to `function_definitions` (see `own_definitions`).
    pub fn process_function_definitions(
        module_id: &ModuleId,
        move_module: &CompiledModule,
        datatype_handles_map: &Vec<UserDefinedType>,
        function_definitions: &mut GlobalFunctionTable,
        move_module_dependencies: &[CompiledUnit],
    ) -> (r: Result<FunctionData, FunctionDefinitionError>)
        requires
            handles_in_range(move_module),
            functions_in_range(move_module),
            units_in_range(move_module_dependencies@),
            signatures_convertible(move_module, udt_seq_view(datatype_handles_map@)),
            forall|i: int| 0 <= i < move_module.function_handles@.len() && is_own_function(move_module, module_id@, i)
                ==> i < #[trigger] move_module.function_defs@.len(),
        ensures
            match r {
                Ok(data) => {
                    let handles = udt_seq_view(datatype_handles_map@);
                    let n = move_module.function_handles@.len() as int;
                    &&& scan_functions(move_module, module_id@, handles, move_module_dependencies@, n) is Ok
                    &&& data.arguments@.len() == n
                    &&& data.returns@.len() == n
                    &&& data.calls@.len() == n
                    &&& forall|i: int| 0 <= i < n ==> {
                        &&& signature_types(move_module, handles, move_module.function_handles@[i].parameters as int)
                            == Ok::<Seq<IType>, TypeConversionError>(itype_seq_view((#[trigger] data.arguments@[i])@))
                        &&& signature_types(move_module, handles, move_module.function_handles@[i].return_ as int)
                            == Ok::<Seq<IType>, TypeConversionError>(itype_seq_view(data.returns@[i]@))
                        &&& data.calls@[i]@ == function_handle_id(move_module, i)
                    }
                    &&& data.generic_calls@.len() == move_module.function_instantiations@.len()
                    &&& forall|k: int| 0 <= k < data.generic_calls@.len() ==> (#[trigger] data.generic_calls@[k])@
                        == function_instantiation_id(move_module, handles, k)
                    &&& match scan_functions(move_module, module_id@, handles, move_module_dependencies@, n) {
                        Ok(Some(i)) => data.init matches Some(f) && f@ == function_handle_id(move_module, i),
                        _ => data.init is None,
                    }
                    &&& final(function_definitions)@ == old(function_definitions)@ + own_definitions(move_module, module_id@, n)
                },
                Err(e) => {
                    &&& scan_functions(
                        move_module,
                        module_id@,
                        udt_seq_view(datatype_handles_map@),
                        move_module_dependencies@,
                        move_module.function_handles@.len() as int,
                    ) == Err::<Option<int>, FunctionDefinitionError>(e)
                    &&& final(function_definitions)@ == old(function_definitions)@
                },
            },
    {
        let ghost handles = udt_seq_view(datatype_handles_map@);
        let ghost deps = move_module_dependencies@;
        let mut functions_arguments: Vec<Vec<IntermediateType>> = Vec::new();
        let mut functions_returns: Vec<Vec<IntermediateType>> = Vec::new();
        let mut function_calls: Vec<FunctionId> = Vec::new();
        let mut init: Option<FunctionId> = None;
        let ghost mut init_index: Option<int> = None;
        let mut own = GlobalFunctionTable::new();

        let mut index: usize = 0;
        while index < move_module.function_handles.len()
            invariant
                0 <= index <= move_module.function_handles@.len(),
                handles == udt_seq_view(datatype_handles_map@),
                deps == move_module_dependencies@,
                handles_in_range(move_module),
                functions_in_range(move_module),
                units_in_range(deps),
                signatures_convertible(move_module, handles),
                forall|i: int| 0 <= i < move_module.function_handles@.len() && is_own_function(move_module, module_id@, i)
                    ==> i < #[trigger] move_module.function_defs@.len(),
                scan_functions(move_module, module_id@, handles, deps, index as int) == Ok::<Option<int>, FunctionDefinitionError>(init_index),
                match init_index {
                    Some(i) => init matches Some(f) && f@ == function_handle_id(move_module, i),
                    None => init is None,
                },
                functions_arguments@.len() == index,
                functions_returns@.len() == index,
                function_calls@.len() == index,
                own@ == own_definitions(move_module, module_id@, index as int),
                function_definitions@ == old(function_definitions)@,
                forall|i: int| 0 <= i < index ==> {
                    &&& signature_types(move_module, handles, move_module.function_handles@[i].parameters as int)
                        == Ok::<Seq<IType>, TypeConversionError>(itype_seq_view((#[trigger] functions_arguments@[i])@))
                    &&& signature_types(move_module, handles, move_module.function_handles@[i].return_ as int)
                        == Ok::<Seq<IType>, TypeConversionError>(itype_seq_view(functions_returns@[i]@))
                    &&& function_calls@[i]@ == function_handle_id(move_module, i)
                },
            decreases move_module.function_handles@.len() - index,
        {
            let function = &move_module.function_handles[index];
            let move_function_arguments = &move_module.signatures[function.parameters as usize];
            let move_function_return = &move_module.signatures[function.return_ as usize];
            let arguments = match convert_signature(move_function_arguments, datatype_handles_map) {
                Ok(a) => a,
                Err(_) => {
                    proof {
                        assert(signature_types(move_module, handles, function.parameters as int) is Ok);
                    }
                    return Err(FunctionDefinitionError::MultipleInit);
                },
            };
            let returns_types = match convert_signature(move_function_return, datatype_handles_map) {
                Ok(a) => a,
                Err(_) => {
                    proof {
                        assert(signature_types(move_module, handles, function.return_ as int) is Ok);
                    }
                    return Err(FunctionDefinitionError::MultipleInit);
                },
            };
            functions_arguments.push(arguments);
            functions_returns.push(returns_types);

            let function_id = function_id_of_handle(move_module, index);

            // A function defined in this module is checked here; one defined elsewhere is
            // checked when its module is processed
            if str_equals(function_id.module_id.module_name.as_str(), module_id.module_name.as_str())
                && function_id.module_id.address == module_id.address {
                assert(is_own_function(move_module, module_id@, index as int));
                let function_def = &move_module.function_defs[index];
                if function_def.acquires_global_resources != 0 {
                    proof {
                        lemma_scan_functions_err(move_module, module_id@, handles, deps, index + 1, move_module.function_handles@.len() as int);
                    }
                    return Err(FunctionDefinitionError::AcquiresGlobalResources);
                }
                let is_init = match Self::is_init(
                    &function_id,
                    move_function_arguments,
                    move_function_return,
                    function_def,
                    datatype_handles_map,
                    move_module,
                    move_module_dependencies,
                ) {
                    Ok(b) => b,
                    Err(e) => {
                        proof {
                            lemma_scan_functions_err(move_module, module_id@, handles, deps, index + 1, move_module.function_handles@.len() as int);
                        }
                        return Err(FunctionDefinitionError::InvalidInit(e));
                    },
                };
                if is_init {
                    if init.is_some() {
                        proof {
                            lemma_scan_functions_err(move_module, module_id@, handles, deps, index + 1, move_module.function_handles@.len() as int);
                        }
                        return Err(FunctionDefinitionError::MultipleInit);
                    }
                    init = Some(function_id_of_handle(move_module, index));
                    proof {
                        init_index = Some(index as int);
                    }
                }
                own.insert(function_id_of_handle(move_module, index), index);
            } else {
                assert(!is_own_function(move_module, module_id@, index as int));
            }
            function_calls.push(function_id);
            index = index + 1;
        }

        let mut generic_function_calls: Vec<FunctionId> = Vec::new();
        let mut k: usize = 0;
        while k < move_module.function_instantiations.len()
            invariant
                0 <= k <= move_module.function_instantiations@.len(),
                handles == udt_seq_view(datatype_handles_map@),
                handles_in_range(move_module),
                functions_in_range(move_module),
                signatures_convertible(move_module, handles),
                generic_function_calls@.len() == k,
                forall|j: int| 0 <= j < k ==> (#[trigger] generic_function_calls@[j])@ == function_instantiation_id(move_module, handles, j),
                function_definitions@ == old(function_definitions)@,
            decreases move_module.function_instantiations@.len() - k,
        {
            let function = &move_module.function_instantiations[k];
            let type_instantiations = match convert_signature(&move_module.signatures[function.type_parameters as usize], datatype_handles_map) {
                Ok(t) => t,
                Err(_) => {
                    proof {
                        assert(signature_types(move_module, handles, function.type_parameters as int) is Ok);
                    }
                    return Err(FunctionDefinitionError::MultipleInit);
                },
            };
            let base = function_id_of_handle(move_module, function.handle as usize);
            let function_id = FunctionId {
                identifier: base.identifier,
                module_id: base.module_id,
                type_instantiations: Some(type_instantiations),
            };
            generic_function_calls.push(function_id);
            k = k + 1;
        }

        function_definitions.append(&mut own);
        Ok(FunctionData {
            arguments: functions_arguments,
            returns: functions_returns,
            calls: function_calls,
            generic_calls: generic_function_calls,
            init,
        })
    }
}

} // verus!

verus! {

/// The position of the first field instantiation of field `field` of struct `owner` whose type
/// arguments are signature `tp`.
pub open spec fn generic_field_position(m: &CompiledModule, n: int, field: u16, owner: u16, tp: u16) -> Option<int>
    decreases n,
{
    if n <= 0 {
        None
    } else {
        match generic_field_position(m, n - 1, field, owner, tp) {
            Some(k) => Some(k),
            None => {
                let fi = m.field_instantiations@[n - 1];
                let fh = m.field_handles@[fi.handle as int];
                if fh.field == field && fh.owner == owner && fi.type_parameters == tp {
                    Some(n - 1)
                } else {
                    None
                }
            },
        }
    }
}

/// Whether field instantiation `k` is the first for a field of struct instantiation `a`.
pub open spec fn generic_field_of(m: &CompiledModule, k: int, a: int) -> bool {
    let si = m.struct_instantiations@[a];
    let fi = m.field_instantiations@[k];
    let fh = m.field_handles@[fi.handle as int];
    &&& 0 <= a < m.struct_instantiations@.len()
    &&& fh.owner == si.def
    &&& fh.field < struct_fields(m, si.def as int).len()
    &&& generic_field_position(m, m.field_instantiations@.len() as int, fh.field, si.def, si.type_parameters) == Some(k)
}

/// The struct instantiation that field instantiation `k` is the first for a field of, if any.
pub open spec fn generic_field_target(m: &CompiledModule, k: int) -> Option<usize> {
    if exists|a: int| generic_field_of(m, k, a) {
        Some((choose|a: int| generic_field_of(m, k, a)) as usize)
    } else {
        None
    }
}

/// Whether the struct and field instantiations of `m` hold indices in range, are within the
/// format's limits, and no struct instantiation occurs twice.
pub open spec fn generic_structs_well_formed(m: &CompiledModule, handles: Seq<UserDefinedTypeView>) -> bool {
    &&& signatures_convertible(m, handles)
    &&& m.struct_instantiations@.len() <= 0x10000
    &&& forall|a: int| 0 <= a < m.struct_instantiations@.len() ==> {
        &&& (#[trigger] m.struct_instantiations@[a]).def < m.struct_defs@.len()
        &&& m.struct_instantiations@[a].type_parameters < m.signatures@.len()
    }
    &&& forall|i: int| 0 <= i < m.struct_defs@.len() ==> (#[trigger] struct_fields(m, i)).len() <= 0x10000
    &&& forall|k: int| 0 <= k < m.field_instantiations@.len() ==> (#[trigger] m.field_instantiations@[k]).handle < m.field_handles@.len()
    &&& forall|a: int, b: int| 0 <= a < b < m.struct_instantiations@.len() ==> !(
        (#[trigger] m.struct_instantiations@[a]).def == (#[trigger] m.struct_instantiations@[b]).def
        && m.struct_instantiations@[a].type_parameters == m.struct_instantiations@[b].type_parameters)
}

proof fn lemma_generic_field_position(m: &CompiledModule, n: int, field: u16, owner: u16, tp: u16)
    requires
        0 <= n <= m.field_instantiations@.len(),
    ensures
        generic_field_position(m, n, field, owner, tp) matches Some(k) ==> {
            let fi = m.field_instantiations@[k];
            let fh = m.field_handles@[fi.handle as int];
            &&& 0 <= k < n
            &&& fh.field == field && fh.owner == owner && fi.type_parameters == tp
        },
    decreases n,
{
    if n > 0 {
        lemma_generic_field_position(m, n - 1, field, owner, tp);
    }
}

proof fn lemma_generic_field_position_mono(m: &CompiledModule, n: int, n2: int, field: u16, owner: u16, tp: u16)
    requires
        0 <= n <= n2,
        generic_field_position(m, n, field, owner, tp) is Some,
    ensures
        generic_field_position(m, n2, field, owner, tp) == generic_field_position(m, n, field, owner, tp),
    decreases n2 - n,
{
    if n < n2 {
        lemma_generic_field_position_mono(m, n, n2 - 1, field, owner, tp);
    }
}

/// At most one struct instantiation has a given field instantiation as the first of a field.
proof fn lemma_generic_field_of_unique(m: &CompiledModule, handles: Seq<UserDefinedTypeView>, k: int, a: int, b: int)
    requires
        generic_structs_well_formed(m, handles),
        0 <= k < m.field_instantiations@.len(),
        generic_field_of(m, k, a),
        generic_field_of(m, k, b),
    ensures
        a == b,
{
    let sa = m.struct_instantiations@[a];
    let sb = m.struct_instantiations@[b];
    let fi = m.field_instantiations@[k];
    let fh = m.field_handles@[fi.handle as int];
    lemma_generic_field_position(m, m.field_instantiations@.len() as int, fh.field, sa.def, sa.type_parameters);
    lemma_generic_field_position(m, m.field_instantiations@.len() as int, fh.field, sb.def, sb.type_parameters);
    if a < b {
        assert(!(m.struct_instantiations@[a].def == m.struct_instantiations@[b].def
            && m.struct_instantiations@[a].type_parameters == m.struct_instantiations@[b].type_parameters));
    } else if b < a {
        assert(!(m.struct_instantiations@[b].def == m.struct_instantiations@[a].def
            && m.struct_instantiations@[b].type_parameters == m.struct_instantiations@[a].type_parameters));
    }
}

/// Finds the first field instantiation of field `field` of struct `owner` with type arguments `tp`.
fn find_generic_field(m: &CompiledModule, field: u16, owner: u16, tp: u16) -> (r: Option<usize>)
    requires
        forall|k: int| 0 <= k < m.field_instantiations@.len() ==> (#[trigger] m.field_instantiations@[k]).handle < m.field_handles@.len(),
    ensures
        match r {
            Some(k) => k < m.field_instantiations@.len()
                && generic_field_position(m, m.field_instantiations@.len() as int, field, owner, tp) == Some(k as int),
            None => generic_field_position(m, m.field_instantiations@.len() as int, field, owner, tp) is None,
        },
{
    let mut i: usize = 0;
    while i < m.field_instantiations.len()
        invariant
            0 <= i <= m.field_instantiations@.len(),
            forall|k: int| 0 <= k < m.field_instantiations@.len() ==> (#[trigger] m.field_instantiations@[k]).handle < m.field_handles@.len(),
            generic_field_position(m, i as int, field, owner, tp) is None,
        decreases m.field_instantiations@.len() - i,
    {
        let fi = &m.field_instantiations[i];
        let fh = &m.field_handles[fi.handle as usize];
        if fh.field == field && fh.owner == owner && fi.type_parameters == tp {
            proof {
                lemma_generic_field_position_mono(m, i + 1, m.field_instantiations@.len() as int, field, owner, tp);
            }
            return Some(i);
        }
        i = i + 1;
    }
    None
}

/// Whether field instantiation `k` was processed once the fields before field `f` of struct
/// instantiation `a` were.
pub open spec fn generic_field_done(m: &CompiledModule, k: int, a: int, f: int) -> bool {
    match generic_field_target(m, k) {
        Some(t) => t < a || (t == a && m.field_handles@[m.field_instantiations@[k].handle as int].field < f),
        None => false,
    }
}

impl ModuleData {
    /// Lists the module's generic struct instantiations, as their struct definition and the
    /// intermediate types of their type arguments, and maps each field instantiation that is the
    /// first for a field of an instantiation to that instantiation.
    pub fn process_generic_structs(
        module: &CompiledModule,
        datatype_handles_map: &Vec<UserDefinedType>,
    ) -> (r: (Vec<(u16, Vec<IntermediateType>)>, Vec<Option<usize>>))
        requires
            generic_structs_well_formed(module, udt_seq_view(datatype_handles_map@)),
        ensures
            r.0@.len() == module.struct_instantiations@.len(),
            forall|a: int| 0 <= a < r.0@.len() ==> {
                &&& (#[trigger] r.0@[a]).0 == module.struct_instantiations@[a].def
                &&& signature_types(module, udt_seq_view(datatype_handles_map@), module.struct_instantiations@[a].type_parameters as int)
                    == Ok::<Seq<IType>, TypeConversionError>(itype_seq_view(r.0@[a].1@))
            },
            r.1@.len() == module.field_instantiations@.len(),
            forall|k: int| 0 <= k < r.1@.len() ==> #[trigger] r.1@[k] == generic_field_target(module, k),
    {
        let ghost handles = udt_seq_view(datatype_handles_map@);
        let mut instances: Vec<(u16, Vec<IntermediateType>)> = Vec::new();
        let mut generic_fields_to_struct_map: Vec<Option<usize>> = Vec::new();
        let mut h: usize = 0;
        while h < module.field_instantiations.len()
            invariant
                0 <= h <= module.field_instantiations@.len(),
                generic_fields_to_struct_map@.len() == h,
                forall|j: int| 0 <= j < h ==> #[trigger] generic_fields_to_struct_map@[j] is None,
            decreases module.field_instantiations@.len() - h,
        {
            generic_fields_to_struct_map.push(None);
            h = h + 1;
        }
        let mut index: usize = 0;
        while index < module.struct_instantiations.len()
            invariant
                0 <= index <= module.struct_instantiations@.len(),
                handles == udt_seq_view(datatype_handles_map@),
                generic_structs_well_formed(module, handles),
                instances@.len() == index,
                forall|a: int| 0 <= a < index ==> {
                    &&& (#[trigger] instances@[a]).0 == module.struct_instantiations@[a].def
                    &&& signature_types(module, handles, module.struct_instantiations@[a].type_parameters as int)
                        == Ok::<Seq<IType>, TypeConversionError>(itype_seq_view(instances@[a].1@))
                },
                generic_fields_to_struct_map@.len() == module.field_instantiations@.len(),
                forall|k: int| 0 <= k < generic_fields_to_struct_map@.len() ==> #[trigger] generic_fields_to_struct_map@[k] == (
                    if generic_field_done(module, k, index as int, 0) { generic_field_target(module, k) } else { None }),
            decreases module.struct_instantiations@.len() - index,
        {
            let struct_instance = &module.struct_instantiations[index];
            let types = match convert_signature(&module.signatures[struct_instance.type_parameters as usize], datatype_handles_map) {
                Ok(t) => t,
                Err(_) => {
                    proof {
                        assert(signature_types(module, handles, struct_instance.type_parameters as int) is Ok);
                    }
                    return (instances, generic_fields_to_struct_map);
                },
            };
            instances.push((struct_instance.def, types));

            let generic_struct_definition = &module.struct_defs[struct_instance.def as usize];
            let field_count: usize = match &generic_struct_definition.fields {
                Some(fields) => fields.len(),
                None => 0,
            };
            assert(field_count == struct_fields(module, struct_instance.def as int).len());
            let mut field_index: usize = 0;
            while field_index < field_count
                invariant
                    0 <= index < module.struct_instantiations@.len(),
                    *struct_instance == module.struct_instantiations@[index as int],
                    field_count == struct_fields(module, struct_instance.def as int).len(),
                    handles == udt_seq_view(datatype_handles_map@),
                    generic_structs_well_formed(module, handles),
                    0 <= field_index <= field_count,
                    generic_fields_to_struct_map@.len() == module.field_instantiations@.len(),
                    forall|k: int| 0 <= k < generic_fields_to_struct_map@.len() ==> #[trigger] generic_fields_to_struct_map@[k] == (
                        if generic_field_done(module, k, index as int, field_index as int) { generic_field_target(module, k) } else { None }),
                decreases field_count - field_index,
            {
                let found = find_generic_field(module, field_index as u16, struct_instance.def, struct_instance.type_parameters);
                proof {
                    lemma_generic_field_position(module, module.field_instantiations@.len() as int, field_index as u16, struct_instance.def, struct_instance.type_parameters);
                }
                if let Some(k0) = found {
                    proof {
                        assert(generic_field_of(module, k0 as int, index as int));
                        assert forall|b: int| generic_field_of(module, k0 as int, b) implies b == index as int by {
                            lemma_generic_field_of_unique(module, handles, k0 as int, index as int, b);
                        }
                        assert(generic_field_target(module, k0 as int) == Some(index));
                    }
                    generic_fields_to_struct_map.set(k0, Some(index));
                }
                proof {
                    assert forall|k: int| 0 <= k < generic_fields_to_struct_map@.len() implies #[trigger] generic_fields_to_struct_map@[k] == (
                        if generic_field_done(module, k, index as int, field_index + 1) { generic_field_target(module, k) } else { None }) by {
                        if generic_field_target(module, k) == Some(index) {
                            let fi = module.field_instantiations@[k];
                            let fh = module.field_handles@[fi.handle as int];
                            let a = choose|a: int| generic_field_of(module, k, a);
                            assert(generic_field_of(module, k, a));
                            if fh.field == field_index as u16 {
                                assert(fh.field as int == field_index as int);
                            }
                        }
                    }
                }
                field_index = field_index + 1;
            }
            proof {
                assert forall|k: int| 0 <= k < generic_fields_to_struct_map@.len() implies #[trigger] generic_fields_to_struct_map@[k] == (
                    if generic_field_done(module, k, index + 1, 0) { generic_field_target(module, k) } else { None }) by {
                    if generic_field_target(module, k) == Some(index) {
                        let a = choose|a: int| generic_field_of(module, k, a);
                        assert(generic_field_of(module, k, a));
                    }
                }
            }
            index = index + 1;
        }
        proof {
            assert forall|k: int| 0 <= k < generic_fields_to_struct_map@.len() implies #[trigger] generic_fields_to_struct_map@[k] == generic_field_target(module, k) by {
                if generic_field_target(module, k) is Some {
                    let a = choose|a: int| generic_field_of(module, k, a);
                    assert(generic_field_of(module, k, a));
                }
            }
        }
        (instances, generic_fields_to_struct_map)
    }
}

} // verus!

verus! {

/// The datatype each datatype handle of `m` refers to (see `resolve_datatype_handle`).
pub open spec fn resolved_handles(
    module_id: ModuleIdView,
    m: &CompiledModule,
    dependencies: Seq<CompiledUnit>,
    root_units: Seq<CompiledUnit>,
) -> Seq<UserDefinedTypeView> {
    Seq::new(
        m.datatype_handles@.len(),
        |i: int| resolve_datatype_handle(module_id, m, dependencies, root_units, i)->Some_0,
    )
}

/// Whether each type parameter in the fields of the generic struct of every struct
/// instantiation of `m` has a type argument of the instantiation to stand for it.
pub open spec fn instantiations_cover_params(m: &CompiledModule) -> bool {
    forall|a: int| 0 <= a < m.struct_instantiations@.len() ==> token_params_below_seq(
        field_tokens(struct_fields(m, (#[trigger] m.struct_instantiations@[a]).def as int)),
        m.signatures@[m.struct_instantiations@[a].type_parameters as int]@.len() as int,
    )
}

/// Whether the data of module `m` can be built: its tables hold indices in range, every
/// datatype handle refers to a datatype, and every type the module names converts.
pub open spec fn module_data_buildable(
    module_id: ModuleIdView,
    m: &CompiledModule,
    dependencies: Seq<CompiledUnit>,
    root_units: Seq<CompiledUnit>,
) -> bool {
    let handles = resolved_handles(module_id, m, dependencies, root_units);
    &&& handles_in_range(m)
    &&& units_in_range(dependencies)
    &&& units_in_range(root_units)
    &&& forall|i: int| 0 <= i < m.datatype_handles@.len()
        ==> (#[trigger] resolve_datatype_handle(module_id, m, dependencies, root_units, i)) is Some
    &&& structs_convertible(m, handles)
    &&& generic_structs_well_formed(m, handles)
    &&& forall|k: int| 0 <= k < m.field_instantiations@.len()
        ==> (#[trigger] m.field_instantiations@[k]).type_parameters < m.signatures@.len()
    &&& instantiations_cover_params(m)
    &&& enums_convertible(m, handles)
    &&& functions_in_range(m)
    &&& forall|i: int| 0 <= i < m.function_handles@.len() && is_own_function(m, module_id, i)
        ==> i < #[trigger] m.function_defs@.len()
}

/// Whether `data` holds the structs of `m`: each struct built from its definition, the struct
/// each field handle refers into, the generic struct instances, and the struct instance and the
/// generic field of each field instantiation.
pub open spec fn struct_data_built(data: StructData, m: &CompiledModule, handles: Seq<UserDefinedTypeView>) -> bool {
    &&& data.structs@.len() == m.struct_defs@.len()
    &&& forall|i: int| 0 <= i < data.structs@.len() ==> struct_built(#[trigger] data.structs@[i], m, handles, i)
    &&& data.fields_to_struct@.len() == m.field_handles@.len()
    &&& forall|h: int| 0 <= h < data.fields_to_struct@.len() ==> #[trigger] data.fields_to_struct@[h] == field_handle_target(m, h)
    &&& data.generic_structs_instances@.len() == m.struct_instantiations@.len()
    &&& forall|a: int| 0 <= a < data.generic_structs_instances@.len() ==> {
        &&& (#[trigger] data.generic_structs_instances@[a]).0 == m.struct_instantiations@[a].def
        &&& signature_types(m, handles, m.struct_instantiations@[a].type_parameters as int)
            == Ok::<Seq<IType>, TypeConversionError>(itype_seq_view(data.generic_structs_instances@[a].1@))
    }
    &&& data.generic_fields_to_struct@.len() == m.field_instantiations@.len()
    &&& forall|k: int| 0 <= k < data.generic_fields_to_struct@.len() ==> #[trigger] data.generic_fields_to_struct@[k] == generic_field_target(m, k)
    &&& data.instantiated_fields_to_generic_fields@.len() == m.field_instantiations@.len()
    &&& forall|k: int| 0 <= k < data.instantiated_fields_to_generic_fields@.len() ==> {
        &&& (#[trigger] data.instantiated_fields_to_generic_fields@[k]).0 == m.field_instantiations@[k].handle
        &&& signature_types(m, handles, m.field_instantiations@[k].type_parameters as int)
            == Ok::<Seq<IType>, TypeConversionError>(itype_seq_view(data.instantiated_fields_to_generic_fields@[k].1@))
    }
}

/// The abilities of the datatype handle of struct definition `i` of `m`.
pub open spec fn struct_abilities(m: &CompiledModule, i: int) -> u8 {
    m.datatype_handles@[m.struct_defs@[i].struct_handle as int].abilities
}

/// A built struct is saved in storage exactly when its datatype has the `key` ability, whatever
/// its other abilities: an object with `key` alone is stored, and so is one with `key` and
/// `store`; a struct without `key` is not, even with `store`.
pub proof fn law_stored_structs_are_key_structs(data: StructData, m: &CompiledModule, handles: Seq<UserDefinedTypeView>, i: int)
    requires
        struct_data_built(data, m, handles),
        0 <= i < data.structs@.len(),
    ensures
        data.structs@[i].saved_in_storage <==> struct_abilities(m, i) & ABILITY_KEY != 0,
        struct_abilities(m, i) == ABILITY_KEY ==> data.structs@[i].saved_in_storage,
        struct_abilities(m, i) == ABILITY_KEY | ABILITY_STORE ==> data.structs@[i].saved_in_storage,
        struct_abilities(m, i) & ABILITY_KEY != 0 && struct_abilities(m, i) & ABILITY_STORE == 0
            ==> data.structs@[i].saved_in_storage,
        struct_abilities(m, i) & ABILITY_KEY == 0 ==> !data.structs@[i].saved_in_storage,
{
    assert(struct_built(data.structs@[i], m, handles, i));
    let a = struct_abilities(m, i);
    assert(a == 8u8 ==> a & 8u8 != 0) by (bit_vector);
    assert(a == (8u8 | 4u8) ==> a & 8u8 != 0) by (bit_vector);
}

/// Whether `data` holds the enums of `m`, each built from its definition, and the variant that
/// each variant handle refers to.
pub open spec fn enum_data_built(data: EnumData, m: &CompiledModule, handles: Seq<UserDefinedTypeView>) -> bool {
    &&& data.enums@.len() == m.enum_defs@.len()
    &&& forall|e: int| 0 <= e < data.enums@.len() ==> enum_built(#[trigger] data.enums@[e], m, handles, e)
    &&& data.variants_to_enum@.len() == m.variant_handles@.len()
    &&& forall|h: int| 0 <= h < data.variants_to_enum@.len() ==> #[trigger] data.variants_to_enum@[h] == variant_handle_target(m, h)
}

/// Whether `data` holds the functions of `m`: the argument and return types and the identifier
/// of each function handle, the generic calls, and the module's initializer.
pub open spec fn function_data_built(
    data: FunctionData,
    module_id: ModuleIdView,
    m: &CompiledModule,
    handles: Seq<UserDefinedTypeView>,
    dependencies: Seq<CompiledUnit>,
) -> bool {
    let n = m.function_handles@.len() as int;
    &&& data.arguments@.len() == n
    &&& data.returns@.len() == n
    &&& data.calls@.len() == n
    &&& forall|i: int| 0 <= i < n ==> {
        &&& signature_types(m, handles, m.function_handles@[i].parameters as int)
            == Ok::<Seq<IType>, TypeConversionError>(itype_seq_view((#[trigger] data.arguments@[i])@))
        &&& signature_types(m, handles, m.function_handles@[i].return_ as int)
            == Ok::<Seq<IType>, TypeConversionError>(itype_seq_view(data.returns@[i]@))
        &&& data.calls@[i]@ == function_handle_id(m, i)
    }
    &&& data.generic_calls@.len() == m.function_instantiations@.len()
    &&& forall|k: int| 0 <= k < data.generic_calls@.len() ==> (#[trigger] data.generic_calls@[k])@
        == function_instantiation_id(m, handles, k)
    &&& match scan_functions(m, module_id, handles, dependencies, n) {
        Ok(Some(i)) => data.init matches Some(f) && f@ == function_handle_id(m, i),
        _ => data.init is None,
    }
}

/// Whether `signatures` holds the intermediate types of every signature of `m`.
pub open spec fn signatures_built(signatures: Seq<Vec<IntermediateType>>, m: &CompiledModule, handles: Seq<UserDefinedTypeView>) -> bool {
    &&& signatures.len() == m.signatures@.len()
    &&& forall|s: int| 0 <= s < signatures.len() ==> signature_types(m, handles, s)
        == Ok::<Seq<IType>, TypeConversionError>(itype_seq_view((#[trigger] signatures[s])@))
}

impl ModuleData {
    /// Builds what the compiler knows of module `move_module`, whose identifier is `module_id`:
    /// its datatype handles, structs, enums, functions and signatures. Fails when a function of
    /// the module breaks a rule (see `scan_functions`).
    pub fn build_module_data(
        module_id: ModuleId,
        move_module: &CompiledModule,
        move_module_dependencies: &[CompiledUnit],
        root_compiled_units: &[CompiledUnit],
        function_definitions: &mut GlobalFunctionTable,
    ) -> (r: Result<ModuleData, FunctionDefinitionError>)
        requires
            module_data_buildable(module_id@, move_module, move_module_dependencies@, root_compiled_units@),
        ensures
            ({
                let handles = resolved_handles(module_id@, move_module, move_module_dependencies@, root_compiled_units@);
                match r {
                    Ok(data) => {
                        &&& scan_functions(move_module, module_id@, handles, move_module_dependencies@,
                            move_module.function_handles@.len() as int) is Ok
                        &&& data.id@ == module_id@
                        &&& udt_seq_view(data.datatype_handles_map@) == handles
                        &&& struct_data_built(data.structs, move_module, handles)
                        &&& data.structs.well_formed()
                        &&& enum_data_built(data.enums, move_module, handles)
                        &&& function_data_built(data.functions, module_id@, move_module, handles, move_module_dependencies@)
                        &&& signatures_built(data.signatures@, move_module, handles)
                        &&& final(function_definitions)@ == old(function_definitions)@
                            + own_definitions(move_module, module_id@, move_module.function_handles@.len() as int)
                    },
                    Err(e) => {
                        &&& scan_functions(move_module, module_id@, handles, move_module_dependencies@,
                            move_module.function_handles@.len() as int) == Err::<Option<int>, FunctionDefinitionError>(e)
                        &&& final(function_definitions)@ == old(function_definitions)@
                    },
                }
            }),
    {
        let ghost handles = resolved_handles(module_id@, move_module, move_module_dependencies@, root_compiled_units@);
        let datatype_handles_map = Self::process_datatype_handles(
            &module_id,
            move_module,
            move_module_dependencies,
            root_compiled_units,
        );
        proof {
            assert(udt_seq_view(datatype_handles_map@) =~= handles);
        }

        let (module_structs, fields_to_struct_map) = Self::process_concrete_structs(move_module, &datatype_handles_map);
        let (module_generic_structs_instances, generic_fields_to_struct_map) =
            Self::process_generic_structs(move_module, &datatype_handles_map);
        let instantiated_fields_to_generic_fields = Self::process_generic_field_instances(move_module, &datatype_handles_map);
        let structs = StructData {
            structs: module_structs,
            generic_structs_instances: module_generic_structs_instances,
            fields_to_struct: fields_to_struct_map,
            generic_fields_to_struct: generic_fields_to_struct_map,
            instantiated_fields_to_generic_fields,
        };
        proof {
            assert forall|a: int| 0 <= a < structs.generic_structs_instances@.len() implies #[trigger] structs.instance_in_range(a) by {
                let si = move_module.struct_instantiations@[a];
                let tokens = field_tokens(struct_fields(move_module, si.def as int));
                let n = move_module.signatures@[si.type_parameters as int]@.len() as int;
                assert(structs.generic_structs_instances@[a].0 == si.def);
                assert(struct_built(structs.structs@[si.def as int], move_module, handles, si.def as int));
                lemma_conversion_seq_keeps_params_below(tokens, handles, n);
                lemma_token_seq_view(move_module.signatures@[si.type_parameters as int]@);
                lemma_itype_of_tokens_len(token_seq_view(move_module.signatures@[si.type_parameters as int]@), handles);
                lemma_itype_seq_view(structs.generic_structs_instances@[a].1@);
            }
            assert forall|k: int| 0 <= k < structs.generic_fields_to_struct@.len() implies
                (#[trigger] structs.generic_fields_to_struct@[k] matches Some(a) ==> a < structs.generic_structs_instances@.len()) by {
                if generic_field_target(move_module, k) is Some {
                    let a = choose|a: int| generic_field_of(move_module, k, a);
                    assert(generic_field_of(move_module, k, a));
                }
            }
        }

        let (module_enums, variants_to_enum_map) = Self::process_concrete_enums(move_module, &datatype_handles_map);
        let enums = EnumData { enums: module_enums, variants_to_enum: variants_to_enum_map };

        let functions = match Self::process_function_definitions(
            &module_id,
            move_module,
            &datatype_handles_map,
            function_definitions,
            move_module_dependencies,
        ) {
            Ok(f) => f,
            Err(e) => return Err(e),
        };

        let signatures = Self::process_signatures(move_module, &datatype_handles_map);

        Ok(ModuleData { id: module_id, functions, structs, enums, signatures, datatype_handles_map })
    }

    /// The intermediate types of signature `index`.
    pub fn get_signatures_by_index(&self, index: u16) -> (r: Result<&Vec<IntermediateType>, CompilationContextError>)
        ensures
            match r {
                Ok(s) => (index as int) < self.signatures@.len() && *s == self.signatures@[index as int],
                Err(e) => e == CompilationContextError::SignatureNotFound(index) && (index as int) >= self.signatures@.len(),
            },
    {
        if (index as usize) < self.signatures.len() {
            Ok(&self.signatures[index as usize])
        } else {
            Err(CompilationContextError::SignatureNotFound(index))
        }
    }
}

} // verus!
