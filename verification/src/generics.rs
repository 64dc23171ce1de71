//! Generic type parameters: detection, extraction and instantiation.
use vstd::prelude::*;

use crate::compilation_context::module_data::UserDefinedTypeView;
use crate::intermediate_types::{
    IType, IntermediateType, itype_of_token, itype_of_tokens, itype_seq_view, lemma_itype_seq_view,
    lemma_itype_seq_view_concat, lemma_itype_seq_view_push,
};
use crate::move_model::Token;

verus! {

broadcast use vstd::std_specs::vec::group_vec_axioms;

/// True when a type parameter occurs somewhere in `t`.
pub open spec fn contains_generics(t: IType) -> bool
    decreases t,
{
    match t {
        IType::Ref(inner) | IType::MutRef(inner) | IType::Vector(inner) => contains_generics(*inner),
        IType::TypeParameter(_) => true,
        IType::GenericStructInstance { types, .. } => any_contains_generics(types),
        _ => false,
    }
}

/// True when a type parameter occurs in some type of `ts`.
pub open spec fn any_contains_generics(ts: Seq<IType>) -> bool
    decreases ts,
{
    if ts.len() == 0 {
        false
    } else {
        any_contains_generics(ts.drop_last()) || contains_generics(ts.last())
    }
}


/// Returns true if a type parameter occurs somewhere in `itype`.
#[verifier::loop_isolation(false)]
pub fn type_contains_generics(itype: &IntermediateType) -> (r: bool)
    ensures
        r == contains_generics(itype@),
    decreases itype,
{
    match itype {
        IntermediateType::IRef(inner) | IntermediateType::IMutRef(inner) => {
            type_contains_generics(inner)
        },
        IntermediateType::ITypeParameter(_) => true,
        IntermediateType::IGenericStructInstance { types, .. } => {
            proof {
                lemma_itype_seq_view(types@);
            }
            let mut i: usize = 0;
            while i < types.len()
                invariant
                    0 <= i <= types.len(),
                    itype_seq_view(types@).len() == types@.len(),
                    forall|j: int| 0 <= j < types@.len() ==> #[trigger] itype_seq_view(types@)[j] == types@[j]@,
                    !any_contains_generics(itype_seq_view(types@).take(i as int)),
                decreases types.len() - i,
            {
                let found = type_contains_generics(&types[i]);
                proof {
                    let vs = itype_seq_view(types@);
                    assert(vs.take(i + 1).drop_last() =~= vs.take(i as int));
                }
                if found {
                    proof {
                        let vs = itype_seq_view(types@);
                        lemma_any_prefix(vs, i as int + 1);
                    }
                    return true;
                }
                i = i + 1;
            }
            proof {
                let vs = itype_seq_view(types@);
                assert(vs.take(i as int) =~= vs);
            }
            false
        },
        IntermediateType::IVector(inner) => type_contains_generics(inner),
        _ => false,
    }
}

/// A type parameter in a prefix is a type parameter in the whole sequence.
pub proof fn lemma_any_prefix(ts: Seq<IType>, n: int)
    requires
        0 <= n <= ts.len(),
        any_contains_generics(ts.take(n)),
    ensures
        any_contains_generics(ts),
    decreases ts.len() - n,
{
    if n < ts.len() {
        assert(ts.take(n + 1).drop_last() =~= ts.take(n));
        lemma_any_prefix(ts, n + 1);
    } else {
        assert(ts.take(n) =~= ts);
    }
}


/// The type parameters that occur in `t`, left to right, repetitions kept.
pub open spec fn type_params(t: IType) -> Seq<IType>
    decreases t,
{
    match t {
        IType::Ref(inner) | IType::MutRef(inner) | IType::Vector(inner) => type_params(*inner),
        IType::TypeParameter(i) => seq![IType::TypeParameter(i)],
        IType::GenericStructInstance { types, .. } => type_params_seq(types),
        _ => Seq::empty(),
    }
}

/// The type parameters that occur in the types of `ts`, left to right.
pub open spec fn type_params_seq(ts: Seq<IType>) -> Seq<IType>
    decreases ts,
{
    if ts.len() == 0 {
        Seq::empty()
    } else {
        type_params_seq(ts.drop_last()) + type_params(ts.last())
    }
}

/// Extracts the type parameters contained in `itype`, left to right, so that they can be
/// replaced with concrete types.
#[verifier::loop_isolation(false)]
pub fn extract_generic_type_parameters(itype: &IntermediateType) -> (r: Vec<IntermediateType>)
    ensures
        itype_seq_view(r@) == type_params(itype@),
    decreases itype,
{
    match itype {
        IntermediateType::IRef(inner) | IntermediateType::IMutRef(inner) => {
            extract_generic_type_parameters(inner)
        },
        IntermediateType::ITypeParameter(i) => {
            let mut v: Vec<IntermediateType> = Vec::new();
            v.push(IntermediateType::ITypeParameter(*i));
            proof {
                lemma_itype_seq_view_push(Seq::empty(), IntermediateType::ITypeParameter(*i));
                assert(Seq::<IntermediateType>::empty().push(IntermediateType::ITypeParameter(*i)) =~= v@);
                assert(seq![IType::TypeParameter(*i)] =~= Seq::<IType>::empty().push(IType::TypeParameter(*i)));
            }
            v
        },
        IntermediateType::IGenericStructInstance { types, .. } => {
            proof {
                lemma_itype_seq_view(types@);
            }
            let mut acc: Vec<IntermediateType> = Vec::new();
            let mut i: usize = 0;
            while i < types.len()
                invariant
                    0 <= i <= types.len(),
                    itype_seq_view(types@).len() == types@.len(),
                    forall|j: int| 0 <= j < types@.len() ==> #[trigger] itype_seq_view(types@)[j] == types@[j]@,
                    itype_seq_view(acc@) == type_params_seq(itype_seq_view(types@).take(i as int)),
                decreases types.len() - i,
            {
                let mut part = extract_generic_type_parameters(&types[i]);
                proof {
                    let vs = itype_seq_view(types@);
                    assert(vs.take(i + 1).drop_last() =~= vs.take(i as int));
                    lemma_itype_seq_view_concat(acc@, part@);
                }
                acc.append(&mut part);
                i = i + 1;
            }
            proof {
                let vs = itype_seq_view(types@);
                assert(vs.take(i as int) =~= vs);
            }
            acc
        },
        IntermediateType::IVector(inner) => extract_generic_type_parameters(inner),
        _ => {
            let v: Vec<IntermediateType> = Vec::new();
            proof {
                assert(itype_seq_view(v@) =~= Seq::<IType>::empty());
            }
            v
        },
    }
}


/// The view of an optional type.
pub open spec fn opt_itype_view(o: Option<IntermediateType>) -> Option<IType> {
    match o {
        Some(t) => Some(t@),
        None => None,
    }
}

/// The type that instantiates the first type parameter found in `generic`, obtained by walking
/// `generic` and `instantiated` together; references around a type parameter's instance are
/// looked through.
pub open spec fn instance_of_first_param(generic: IType, instantiated: IType) -> Option<IType>
    decreases generic, instantiated,
{
    match generic {
        IType::TypeParameter(_) => match instantiated {
            IType::Ref(ii) | IType::MutRef(ii) => instance_of_first_param(generic, *ii),
            _ => Some(instantiated),
        },
        IType::Vector(inner) => match instantiated {
            IType::Vector(ii) => instance_of_first_param(*inner, *ii),
            _ => None,
        },
        IType::Ref(inner) => match instantiated {
            IType::Ref(ii) => instance_of_first_param(*inner, *ii),
            _ => None,
        },
        IType::MutRef(inner) => match instantiated {
            IType::MutRef(ii) => instance_of_first_param(*inner, *ii),
            _ => None,
        },
        IType::GenericStructInstance { types: gts, .. } => match instantiated {
            IType::GenericStructInstance { types: its, .. } => instance_of_first_param_seq(gts, its),
            _ => None,
        },
        _ => None,
    }
}

/// The first instance found walking the pairs of `gs` and `is` in order, up to the shorter length.
pub open spec fn instance_of_first_param_seq(gs: Seq<IType>, is: Seq<IType>) -> Option<IType>
    decreases gs, is,
{
    if gs.len() == 0 || is.len() == 0 {
        None
    } else {
        match instance_of_first_param(gs[0], is[0]) {
            Some(x) => Some(x),
            None => instance_of_first_param_seq(gs.drop_first(), is.drop_first()),
        }
    }
}

/// Finds the concrete type that instantiates a type parameter of `generic_type`, given the
/// instantiated type `instantiated_type` seen on the stack. For example, for `vector<T>` and
/// `vector<u64>` it gives `u64`, and for `vector<T>` and `vector<vector<u64>>` it gives
/// `vector<u64>`.
#[verifier::loop_isolation(false)]
pub fn extract_type_instances_from_stack(
    generic_type: &IntermediateType,
    instantiated_type: &IntermediateType,
) -> (r: Option<IntermediateType>)
    ensures
        opt_itype_view(r) == instance_of_first_param(generic_type@, instantiated_type@),
    decreases generic_type, instantiated_type,
{
    match generic_type {
        IntermediateType::ITypeParameter(_) => match instantiated_type {
            IntermediateType::IRef(instantiated_inner) | IntermediateType::IMutRef(
                instantiated_inner,
            ) => extract_type_instances_from_stack(generic_type, instantiated_inner),
            _ => Some(instantiated_type.duplicate()),
        },
        IntermediateType::IVector(inner) => {
            if let IntermediateType::IVector(instantiated_inner) = instantiated_type {
                extract_type_instances_from_stack(inner, instantiated_inner)
            } else {
                None
            }
        },
        IntermediateType::IRef(inner) => {
            if let IntermediateType::IRef(instantiated_inner) = instantiated_type {
                extract_type_instances_from_stack(inner, instantiated_inner)
            } else {
                None
            }
        },
        IntermediateType::IMutRef(inner) => {
            if let IntermediateType::IMutRef(instantiated_inner) = instantiated_type {
                extract_type_instances_from_stack(inner, instantiated_inner)
            } else {
                None
            }
        },
        IntermediateType::IGenericStructInstance { types: generic_types, .. } => {
            if let IntermediateType::IGenericStructInstance { types: instantiated_types, .. } =
                instantiated_type
            {
                proof {
                    lemma_itype_seq_view(generic_types@);
                    lemma_itype_seq_view(instantiated_types@);
                }
                let ghost gv = itype_seq_view(generic_types@);
                let ghost iv = itype_seq_view(instantiated_types@);
                proof {
                    assert(gv.skip(0) =~= gv);
                    assert(iv.skip(0) =~= iv);
                }
                let mut i: usize = 0;
                while i < generic_types.len() && i < instantiated_types.len()
                    invariant
                        0 <= i <= generic_types.len(),
                        i <= instantiated_types.len(),
                        instance_of_first_param_seq(gv, iv) == instance_of_first_param_seq(
                            gv.skip(i as int),
                            iv.skip(i as int),
                        ),
                    decreases generic_types.len() - i,
                {
                    let res = extract_type_instances_from_stack(
                        &generic_types[i],
                        &instantiated_types[i],
                    );
                    proof {
                        assert(gv.skip(i as int)[0] == gv[i as int]);
                        assert(iv.skip(i as int)[0] == iv[i as int]);
                        assert(gv.skip(i as int).drop_first() =~= gv.skip(i + 1));
                        assert(iv.skip(i as int).drop_first() =~= iv.skip(i + 1));
                    }
                    if res.is_some() {
                        return res;
                    }
                    i = i + 1;
                }
                None
            } else {
                None
            }
        },
        _ => None,
    }
}


/// Every type parameter in `t` has an index below `n`.
pub open spec fn params_below(t: IType, n: int) -> bool
    decreases t,
{
    match t {
        IType::Ref(inner) | IType::MutRef(inner) | IType::Vector(inner) => params_below(*inner, n),
        IType::TypeParameter(i) => i < n,
        IType::GenericStructInstance { types, .. } => params_below_seq(types, n),
        _ => true,
    }
}

/// Every type parameter in the types of `ts` has an index below `n`.
pub open spec fn params_below_seq(ts: Seq<IType>, n: int) -> bool
    decreases ts,
{
    if ts.len() == 0 {
        true
    } else {
        params_below_seq(ts.drop_last(), n) && params_below(ts.last(), n)
    }
}

/// `t` with each type parameter `i` replaced by `instances[i]`.
pub open spec fn replace_params(t: IType, instances: Seq<IType>) -> IType
    decreases t,
{
    match t {
        IType::TypeParameter(i) => instances[i as int],
        IType::Ref(inner) => IType::Ref(Box::new(replace_params(*inner, instances))),
        IType::MutRef(inner) => IType::MutRef(Box::new(replace_params(*inner, instances))),
        IType::GenericStructInstance { module_id, index, types } => IType::GenericStructInstance {
            module_id,
            index,
            types: replace_params_seq(types, instances),
        },
        IType::Vector(inner) => IType::Vector(Box::new(replace_params(*inner, instances))),
        _ => t,
    }
}

/// Each type of `ts` with its type parameters replaced.
pub open spec fn replace_params_seq(ts: Seq<IType>, instances: Seq<IType>) -> Seq<IType>
    decreases ts,
{
    if ts.len() == 0 {
        Seq::empty()
    } else {
        replace_params_seq(ts.drop_last(), instances).push(replace_params(ts.last(), instances))
    }
}

/// The element-wise facts about a sequence whose every type has its parameters below `n`.
pub proof fn lemma_params_below_seq(ts: Seq<IType>, n: int)
    ensures
        params_below_seq(ts, n) <==> forall|i: int| 0 <= i < ts.len() ==> #[trigger] params_below(ts[i], n),
    decreases ts.len(),
{
    if ts.len() > 0 {
        lemma_params_below_seq(ts.drop_last(), n);
        if params_below_seq(ts, n) {
            assert forall|i: int| 0 <= i < ts.len() implies #[trigger] params_below(ts[i], n) by {
                if i < ts.len() - 1 {
                    assert(ts.drop_last()[i] == ts[i]);
                }
            }
        }
        if forall|i: int| 0 <= i < ts.len() ==> #[trigger] params_below(ts[i], n) {
            assert(params_below(ts[ts.len() - 1], n));
            assert forall|i: int| 0 <= i < ts.drop_last().len() implies #[trigger] params_below(ts.drop_last()[i], n) by {
                assert(ts.drop_last()[i] == ts[i]);
            }
        }
    }
}

/// Replacing parameters element-wise: length and elements.
pub proof fn lemma_replace_params_seq(ts: Seq<IType>, instances: Seq<IType>)
    ensures
        replace_params_seq(ts, instances).len() == ts.len(),
        forall|i: int| 0 <= i < ts.len() ==> #[trigger] replace_params_seq(ts, instances)[i] == replace_params(ts[i], instances),
    decreases ts.len(),
{
    if ts.len() > 0 {
        lemma_replace_params_seq(ts.drop_last(), instances);
    }
}

/// Recursively replaces each type parameter `i` found in `itype` by `instance_types[i]`.
#[verifier::loop_isolation(false)]
pub fn replace_type_parameters(itype: &IntermediateType, instance_types: &[IntermediateType]) -> (r: IntermediateType)
    requires
        params_below(itype@, instance_types@.len() as int),
    ensures
        r@ == replace_params(itype@, itype_seq_view(instance_types@)),
    decreases itype,
{
    proof {
        lemma_itype_seq_view(instance_types@);
    }
    match itype {
        IntermediateType::ITypeParameter(index) => instance_types[*index as usize].duplicate(),
        IntermediateType::IRef(inner) => {
            IntermediateType::IRef(Box::new(replace_type_parameters(inner, instance_types)))
        },
        IntermediateType::IMutRef(inner) => {
            IntermediateType::IMutRef(Box::new(replace_type_parameters(inner, instance_types)))
        },
        IntermediateType::IGenericStructInstance { module_id, index, types } => {
            proof {
                lemma_itype_seq_view(types@);
                lemma_params_below_seq(itype_seq_view(types@), instance_types@.len() as int);
                lemma_replace_params_seq(itype_seq_view(types@), itype_seq_view(instance_types@));
            }
            let ghost inst = itype_seq_view(instance_types@);
            let mut replaced: Vec<IntermediateType> = Vec::new();
            let mut i: usize = 0;
            while i < types.len()
                invariant
                    0 <= i <= types.len(),
                    itype_seq_view(replaced@) == replace_params_seq(itype_seq_view(types@).take(i as int), inst),
                decreases types.len() - i,
            {
                proof {
                    assert(params_below(itype_seq_view(types@)[i as int], instance_types@.len() as int));
                }
                let t = replace_type_parameters(&types[i], instance_types);
                proof {
                    let vs = itype_seq_view(types@);
                    assert(vs.take(i + 1).drop_last() =~= vs.take(i as int));
                    lemma_itype_seq_view_push(replaced@, t);
                }
                replaced.push(t);
                i = i + 1;
            }
            proof {
                let vs = itype_seq_view(types@);
                assert(vs.take(i as int) =~= vs);
            }
            IntermediateType::IGenericStructInstance {
                module_id: module_id.duplicate(),
                index: *index,
                types: replaced,
            }
        },
        IntermediateType::IVector(inner) => {
            IntermediateType::IVector(Box::new(replace_type_parameters(inner, instance_types)))
        },
        _ => itype.duplicate(),
    }
}


/// Each element of `type_params(t)` is a type parameter, and when `t` has its parameters below
/// `n`, so has each of them.
pub proof fn lemma_type_params_are_params(t: IType, n: int)
    ensures
        forall|k: int| 0 <= k < type_params(t).len() ==> (#[trigger] type_params(t)[k]) is TypeParameter,
        params_below(t, n) ==> forall|k: int| 0 <= k < type_params(t).len() ==> (#[trigger] type_params(t)[k])->TypeParameter_0 < n,
    decreases t,
{
    match t {
        IType::Ref(inner) | IType::MutRef(inner) | IType::Vector(inner) => {
            lemma_type_params_are_params(*inner, n);
        },
        IType::GenericStructInstance { types, .. } => {
            lemma_type_params_seq_are_params(types, n);
        },
        _ => {},
    }
}

/// The sequence counterpart of `lemma_type_params_are_params`.
pub proof fn lemma_type_params_seq_are_params(ts: Seq<IType>, n: int)
    ensures
        forall|k: int| 0 <= k < type_params_seq(ts).len() ==> (#[trigger] type_params_seq(ts)[k]) is TypeParameter,
        params_below_seq(ts, n) ==> forall|k: int| 0 <= k < type_params_seq(ts).len() ==> (#[trigger] type_params_seq(ts)[k])->TypeParameter_0 < n,
    decreases ts,
{
    if ts.len() > 0 {
        lemma_type_params_seq_are_params(ts.drop_last(), n);
        lemma_type_params_are_params(ts.last(), n);
        let a = type_params_seq(ts.drop_last());
        let b = type_params(ts.last());
        assert forall|k: int| 0 <= k < type_params_seq(ts).len() implies (#[trigger] type_params_seq(ts)[k]) is TypeParameter by {
            if k < a.len() {
                assert(type_params_seq(ts)[k] == a[k]);
            } else {
                assert(type_params_seq(ts)[k] == b[k - a.len()]);
            }
        }
        if params_below_seq(ts, n) {
            assert forall|k: int| 0 <= k < type_params_seq(ts).len() implies (#[trigger] type_params_seq(ts)[k])->TypeParameter_0 < n by {
                if k < a.len() {
                    assert(type_params_seq(ts)[k] == a[k]);
                } else {
                    assert(type_params_seq(ts)[k] == b[k - a.len()]);
                }
            }
        }
    }
}

/// Instantiates the type parameters that may occur in the element type `inner` of a vector:
/// each type parameter `k` of `inner` becomes `function_type_instances[k]`.
pub fn instantiate_vec_type_parameters(
    inner: &IntermediateType,
    function_type_instances: &[IntermediateType],
) -> (r: IntermediateType)
    requires
        params_below(inner@, function_type_instances@.len() as int),
    ensures
        r@ == replace_params(inner@, itype_seq_view(function_type_instances@)),
{
    replace_type_parameters(inner, function_type_instances)
}

/// A type holds a type parameter exactly when it has some type parameter to extract.
pub proof fn law_contains_generics_iff_params(t: IType)
    ensures
        contains_generics(t) <==> type_params(t).len() > 0,
    decreases t,
{
    match t {
        IType::Ref(inner) | IType::MutRef(inner) | IType::Vector(inner) => {
            law_contains_generics_iff_params(*inner);
        },
        IType::GenericStructInstance { types, .. } => {
            lemma_any_contains_iff_params_seq(types);
        },
        _ => {},
    }
}

/// The sequence counterpart of `law_contains_generics_iff_params`.
pub proof fn lemma_any_contains_iff_params_seq(ts: Seq<IType>)
    ensures
        any_contains_generics(ts) <==> type_params_seq(ts).len() > 0,
    decreases ts,
{
    if ts.len() > 0 {
        lemma_any_contains_iff_params_seq(ts.drop_last());
        law_contains_generics_iff_params(ts.last());
    }
}

/// Replacing the type parameters of `t` with types that hold no type parameter gives a type
/// that holds none.
pub proof fn law_replace_removes_generics(t: IType, instances: Seq<IType>)
    requires
        params_below(t, instances.len() as int),
        forall|i: int| 0 <= i < instances.len() ==> !contains_generics(#[trigger] instances[i]),
    ensures
        !contains_generics(replace_params(t, instances)),
    decreases t,
{
    match t {
        IType::TypeParameter(i) => {
            assert(!contains_generics(instances[i as int]));
        },
        IType::Ref(inner) | IType::MutRef(inner) | IType::Vector(inner) => {
            law_replace_removes_generics(*inner, instances);
        },
        IType::GenericStructInstance { types, .. } => {
            lemma_replace_seq_removes_generics(types, instances);
        },
        _ => {},
    }
}

/// The sequence counterpart of `law_replace_removes_generics`.
pub proof fn lemma_replace_seq_removes_generics(ts: Seq<IType>, instances: Seq<IType>)
    requires
        params_below_seq(ts, instances.len() as int),
        forall|i: int| 0 <= i < instances.len() ==> !contains_generics(#[trigger] instances[i]),
    ensures
        !any_contains_generics(replace_params_seq(ts, instances)),
    decreases ts,
{
    if ts.len() > 0 {
        lemma_replace_seq_removes_generics(ts.drop_last(), instances);
        law_replace_removes_generics(ts.last(), instances);
        let r = replace_params_seq(ts, instances);
        assert(r.drop_last() =~= replace_params_seq(ts.drop_last(), instances));
    }
}

/// A type that holds no type parameter is left unchanged by replacement.
pub proof fn law_replace_keeps_concrete(t: IType, instances: Seq<IType>)
    requires
        !contains_generics(t),
    ensures
        replace_params(t, instances) == t,
    decreases t,
{
    match t {
        IType::Ref(inner) | IType::MutRef(inner) | IType::Vector(inner) => {
            law_replace_keeps_concrete(*inner, instances);
        },
        IType::GenericStructInstance { types, .. } => {
            lemma_replace_seq_keeps_concrete(types, instances);
        },
        _ => {},
    }
}

/// The sequence counterpart of `law_replace_keeps_concrete`.
pub proof fn lemma_replace_seq_keeps_concrete(ts: Seq<IType>, instances: Seq<IType>)
    requires
        !any_contains_generics(ts),
    ensures
        replace_params_seq(ts, instances) == ts,
    decreases ts,
{
    if ts.len() > 0 {
        lemma_replace_seq_keeps_concrete(ts.drop_last(), instances);
        law_replace_keeps_concrete(ts.last(), instances);
        assert(replace_params_seq(ts, instances) =~= ts);
    }
}

/// The instance that replacement gives to the first type parameter of `t`, if any.
pub open spec fn first_param_instance(t: IType, instances: Seq<IType>) -> Option<IType> {
    if type_params(t).len() > 0 {
        Some(instances[type_params(t)[0]->TypeParameter_0 as int])
    } else {
        None
    }
}

/// The type parameters of a non-empty sequence: those of its first type, then the rest.
pub proof fn lemma_type_params_seq_front(ts: Seq<IType>)
    requires
        ts.len() > 0,
    ensures
        type_params_seq(ts) == type_params(ts[0]) + type_params_seq(ts.drop_first()),
    decreases ts.len(),
{
    if ts.len() == 1 {
        assert(ts.drop_last() =~= Seq::<IType>::empty());
        assert(ts.drop_first() =~= Seq::<IType>::empty());
        assert(type_params_seq(ts) =~= type_params(ts[0]) + type_params_seq(ts.drop_first()));
    } else {
        lemma_type_params_seq_front(ts.drop_last());
        assert(ts.drop_last().drop_first() =~= ts.drop_first().drop_last());
        assert(ts.drop_first().last() == ts.last());
        assert(ts.drop_last()[0] == ts[0]);
        assert(type_params_seq(ts) =~= type_params(ts[0]) + type_params_seq(ts.drop_first()));
    }
}

/// Walking a generic type together with its own instantiation finds the instance of its first
/// type parameter, provided no instance is a reference (references around an instance are
/// looked through by the walk).
pub proof fn law_extract_finds_first_instance(g: IType, instances: Seq<IType>)
    requires
        params_below(g, instances.len() as int),
        forall|i: int| 0 <= i < instances.len() ==> !(#[trigger] instances[i] is Ref) && !(instances[i] is MutRef),
    ensures
        instance_of_first_param(g, replace_params(g, instances)) == first_param_instance(g, instances),
    decreases g,
{
    match g {
        IType::TypeParameter(i) => {
            assert(!(instances[i as int] is Ref));
        },
        IType::Ref(inner) | IType::MutRef(inner) | IType::Vector(inner) => {
            law_extract_finds_first_instance(*inner, instances);
        },
        IType::GenericStructInstance { types, .. } => {
            lemma_extract_seq_finds_first_instance(types, instances);
        },
        _ => {},
    }
}

/// The sequence counterpart of `law_extract_finds_first_instance`.
pub proof fn lemma_extract_seq_finds_first_instance(ts: Seq<IType>, instances: Seq<IType>)
    requires
        params_below_seq(ts, instances.len() as int),
        forall|i: int| 0 <= i < instances.len() ==> !(#[trigger] instances[i] is Ref) && !(instances[i] is MutRef),
    ensures
        instance_of_first_param_seq(ts, replace_params_seq(ts, instances)) == (if type_params_seq(ts).len() > 0 {
            Some(instances[type_params_seq(ts)[0]->TypeParameter_0 as int])
        } else {
            None
        }),
    decreases ts,
{
    if ts.len() > 0 {
        lemma_params_below_seq(ts, instances.len() as int);
        lemma_params_below_seq(ts.drop_first(), instances.len() as int);
        assert forall|i: int| 0 <= i < ts.drop_first().len() implies #[trigger] params_below(ts.drop_first()[i], instances.len() as int) by {
            assert(ts.drop_first()[i] == ts[i + 1]);
        }
        assert(params_below(ts[0], instances.len() as int));
        law_extract_finds_first_instance(ts[0], instances);
        lemma_extract_seq_finds_first_instance(ts.drop_first(), instances);
        lemma_type_params_seq_front(ts);
        lemma_replace_params_seq(ts, instances);
        lemma_replace_params_seq(ts.drop_first(), instances);
        let r = replace_params_seq(ts, instances);
        assert(r.drop_first() =~= replace_params_seq(ts.drop_first(), instances));
        assert(r[0] == replace_params(ts[0], instances));
    }
}


/// Every type parameter in the signature token `t` has an index below `n`.
pub open spec fn token_params_below(t: Token, n: int) -> bool
    decreases t,
{
    match t {
        Token::Vector(inner) | Token::Reference(inner) | Token::MutableReference(inner) => token_params_below(*inner, n),
        Token::TypeParameter(i) => i < n,
        Token::DatatypeInstantiation(_, ts) => token_params_below_seq(ts, n),
        _ => true,
    }
}

/// Every type parameter in the tokens of `ts` has an index below `n`.
pub open spec fn token_params_below_seq(ts: Seq<Token>, n: int) -> bool
    decreases ts,
{
    if ts.len() == 0 {
        true
    } else {
        token_params_below_seq(ts.drop_last(), n) && token_params_below(ts.last(), n)
    }
}

/// Converting a token keeps its type parameters: when they are below `n`, so are those of the
/// intermediate type.
pub proof fn lemma_conversion_keeps_params_below(t: Token, handles: Seq<UserDefinedTypeView>, n: int)
    requires
        itype_of_token(t, handles) is Ok,
        token_params_below(t, n),
    ensures
        params_below(itype_of_token(t, handles)->Ok_0, n),
    decreases t,
{
    match t {
        Token::Vector(inner) | Token::Reference(inner) | Token::MutableReference(inner) => {
            lemma_conversion_keeps_params_below(*inner, handles, n);
        },
        Token::DatatypeInstantiation(_, ts) => {
            lemma_conversion_seq_keeps_params_below(ts, handles, n);
        },
        _ => {},
    }
}

/// The sequence counterpart of `lemma_conversion_keeps_params_below`; the conversion also keeps
/// the length.
pub proof fn lemma_conversion_seq_keeps_params_below(ts: Seq<Token>, handles: Seq<UserDefinedTypeView>, n: int)
    requires
        itype_of_tokens(ts, handles) is Ok,
        token_params_below_seq(ts, n),
    ensures
        params_below_seq(itype_of_tokens(ts, handles)->Ok_0, n),
        itype_of_tokens(ts, handles)->Ok_0.len() == ts.len(),
    decreases ts,
{
    if ts.len() > 0 {
        lemma_conversion_seq_keeps_params_below(ts.drop_last(), handles, n);
        lemma_conversion_keeps_params_below(ts.last(), handles, n);
        let prefix = itype_of_tokens(ts.drop_last(), handles)->Ok_0;
        let last = itype_of_token(ts.last(), handles)->Ok_0;
        assert(prefix.push(last).drop_last() =~= prefix);
    }
}

} // verus!
