//! What holds of the parameters and the parts of types, and of unification.

use vstd::prelude::*;

#[allow(unused_imports)]
use crate::chain::Chain;
#[allow(unused_imports)]
use crate::ids::{GenericParamId, TyId};
#[allow(unused_imports)]
use crate::instances::{extends, law_unification_keeps_bindings};
#[allow(unused_imports)]
use crate::substitution::{law_substitution_reads_last_insert, Substitution};
#[allow(unused_imports)]
use crate::table::{has_id, law_insert_id};
#[allow(unused_imports)]
use crate::ty::{
    all_below, bindings_below, parts_below, ty_data, types_wf, AssociatedTypeBinding, TyData,
};
#[allow(unused_imports)]
use crate::unify::{
    any_binding_unbound_param, any_unbound_param, has_unbound_param, law_subterm_is_older,
    params_in, params_in_bindings, params_in_list, strict_subterm, subterm_of_any, unified,
    unified_list,
};

verus! {

/// What unified once unifies again with whatever keeps the bindings.
proof fn lemma_unified_again(
    types: Seq<TyData>,
    pattern: TyId,
    actual: TyId,
    substitution: Substitution,
    large: Substitution,
)
    requires
        types_wf(types),
        unified(types, pattern, actual, substitution).1,
        extends(large, unified(types, pattern, actual, substitution).0),
    ensures
        unified(types, pattern, actual, large) == (large, true),
    decreases pattern.0, 1nat, 0nat,
{
    if pattern.0 < types.len() {
        assert(parts_below(types[pattern.0 as int], pattern.0 as int));
        match (ty_data(types, pattern), ty_data(types, actual)) {
            (_, TyData::Error) => {},
            (TyData::Param(parameter), _) => {
                law_substitution_reads_last_insert(substitution, parameter, actual, parameter);
                let after = unified(types, pattern, actual, substitution).0;
                assert(after.lookup(parameter) == Some(actual));
            },
            (TyData::Tuple(left), TyData::Tuple(right)) => lemma_list_unified_again(
                types,
                left,
                right,
                substitution,
                large,
                pattern.0,
            ),
            (
                TyData::Nominal { arguments: left, .. },
                TyData::Nominal { arguments: right, .. },
            ) => lemma_list_unified_again(types, left, right, substitution, large, pattern.0),
            (TyData::Option(left), TyData::Option(right)) => lemma_unified_again(
                types,
                left,
                right,
                substitution,
                large,
            ),
            (TyData::TextMap(left), TyData::TextMap(right)) => lemma_unified_again(
                types,
                left,
                right,
                substitution,
                large,
            ),
            (TyData::Task(left), TyData::Task(right)) => lemma_unified_again(
                types,
                left,
                right,
                substitution,
                large,
            ),
            (
                TyData::View { target: left, .. },
                TyData::View { target: right, .. },
            ) => lemma_unified_again(types, left, right, substitution, large),
            (
                TyData::Result { ok: left_ok, error: left_error },
                TyData::Result { ok: right_ok, error: right_error },
            ) => {
                let between = unified(types, left_ok, right_ok, substitution).0;
                law_unification_keeps_bindings(types, left_error, right_error, between);
                lemma_unified_again(types, left_ok, right_ok, substitution, large);
                lemma_unified_again(types, left_error, right_error, between, large);
            },
            _ => {},
        }
    }
}

proof fn lemma_list_unified_again(
    types: Seq<TyData>,
    left: Chain<TyId>,
    right: Chain<TyId>,
    substitution: Substitution,
    large: Substitution,
    limit: u32,
)
    requires
        types_wf(types),
        all_below(left, limit as int),
        unified_list(types, left, right, substitution, limit).1,
        extends(large, unified_list(types, left, right, substitution, limit).0),
    ensures
        unified_list(types, left, right, large, limit) == (large, true),
    decreases limit, 0nat, left.spec_len(),
{
    if left is Link && right is Link {
        let a = left->0.item;
        let b = right->0.item;
        let before_left = left.without_last();
        let before_right = right.without_last();
        let between = unified_list(types, before_left, before_right, substitution, limit).0;
        law_unification_keeps_bindings(types, a, b, between);
        lemma_list_unified_again(types, before_left, before_right, substitution, large, limit);
        lemma_unified_again(types, a, b, between, large);
    }
}

/// Types that unified unify again, and that binds nothing more.
pub proof fn law_unification_again(
    types: Seq<TyData>,
    pattern: TyId,
    actual: TyId,
    substitution: Substitution,
)
    requires
        types_wf(types),
        unified(types, pattern, actual, substitution).1,
    ensures
        unified(types, pattern, actual, unified(types, pattern, actual, substitution).0) == (
            unified(types, pattern, actual, substitution).0,
            true,
        ),
{
    let after = unified(types, pattern, actual, substitution).0;
    lemma_unified_again(types, pattern, actual, substitution, after);
}

/// Collecting parameters adds those of the type to those that were there.
proof fn lemma_params_in(types: Seq<TyData>, ty: TyId, ids: Chain<u32>, id: u32)
    requires
        types_wf(types),
    ensures
        has_id(params_in(types, ty, ids), id) <==> has_id(ids, id) || has_id(
            params_in(types, ty, Chain::Empty),
            id,
        ),
    decreases ty.0, 1nat, 0nat,
{
    let none: Chain<u32> = Chain::Empty;
    assert(!has_id(none, id));
    if ty.0 < types.len() {
        assert(parts_below(types[ty.0 as int], ty.0 as int));
        match ty_data(types, ty) {
            TyData::Param(parameter) => {
                law_insert_id(ids, parameter.0, id);
                law_insert_id(none, parameter.0, id);
            },
            TyData::Tuple(elements) => lemma_params_in_list(types, elements, ids, id, ty.0),
            TyData::Nominal { arguments, .. } => {
                lemma_params_in_list(types, arguments, ids, id, ty.0);
            },
            TyData::DynTarget(instance) => {
                lemma_params_in_bindings(types, instance.bindings, ids, id, ty.0);
            },
            TyData::Result { ok, error } => {
                lemma_params_in(types, ok, ids, id);
                lemma_params_in(types, error, params_in(types, ok, ids), id);
                lemma_params_in(types, error, params_in(types, ok, none), id);
            },
            TyData::Option(part) => lemma_params_in(types, part, ids, id),
            TyData::Task(part) => lemma_params_in(types, part, ids, id),
            TyData::List(part) => lemma_params_in(types, part, ids, id),
            TyData::TextMap(part) => lemma_params_in(types, part, ids, id),
            TyData::TaskOutcome(part) => lemma_params_in(types, part, ids, id),
            TyData::Projection { self_ty, .. } => lemma_params_in(types, self_ty, ids, id),
            TyData::View { target, .. } => lemma_params_in(types, target, ids, id),
            _ => {},
        }
    }
}

proof fn lemma_params_in_list(
    types: Seq<TyData>,
    list: Chain<TyId>,
    ids: Chain<u32>,
    id: u32,
    limit: u32,
)
    requires
        types_wf(types),
        all_below(list, limit as int),
    ensures
        has_id(params_in_list(types, list, ids, limit), id) <==> has_id(ids, id) || has_id(
            params_in_list(types, list, Chain::Empty, limit),
            id,
        ),
    decreases limit, 0nat, list.spec_len(),
{
    let none: Chain<u32> = Chain::Empty;
    assert(!has_id(none, id));
    if list is Link {
        let rest = list.without_last();
        let last = list->0.item;
        lemma_params_in_list(types, rest, ids, id, limit);
        lemma_params_in(types, last, params_in_list(types, rest, ids, limit), id);
        lemma_params_in(types, last, params_in_list(types, rest, none, limit), id);
    }
}

proof fn lemma_params_in_bindings(
    types: Seq<TyData>,
    list: Chain<AssociatedTypeBinding>,
    ids: Chain<u32>,
    id: u32,
    limit: u32,
)
    requires
        types_wf(types),
        bindings_below(list, limit as int),
    ensures
        has_id(params_in_bindings(types, list, ids, limit), id) <==> has_id(ids, id) || has_id(
            params_in_bindings(types, list, Chain::Empty, limit),
            id,
        ),
    decreases limit, 0nat, list.spec_len(),
{
    let none: Chain<u32> = Chain::Empty;
    assert(!has_id(none, id));
    if list is Link {
        let rest = list.without_last();
        let last = list->0.item.ty;
        lemma_params_in_bindings(types, rest, ids, id, limit);
        lemma_params_in(types, last, params_in_bindings(types, rest, ids, limit), id);
        lemma_params_in(types, last, params_in_bindings(types, rest, none, limit), id);
    }
}

/// The substitution has no type for one of the parameters.
pub open spec fn lacks_one(ids: Chain<u32>, substitution: Substitution) -> bool {
    exists|id: u32| #[trigger] has_id(ids, id) && substitution.lookup(GenericParamId(id)) is None
}

/// What one collection lacks, or another, their union lacks.
proof fn lemma_lacks_either(
    one: Chain<u32>,
    other: Chain<u32>,
    both: Chain<u32>,
    substitution: Substitution,
)
    requires
        forall|id: u32| #[trigger] has_id(both, id) <==> has_id(one, id) || has_id(other, id),
    ensures
        lacks_one(both, substitution) <==> lacks_one(one, substitution) || lacks_one(
            other,
            substitution,
        ),
{
    if lacks_one(one, substitution) {
        let id = choose|id: u32| #[trigger]
            has_id(one, id) && substitution.lookup(GenericParamId(id)) is None;
        assert(has_id(both, id));
    }
    if lacks_one(other, substitution) {
        let id = choose|id: u32| #[trigger]
            has_id(other, id) && substitution.lookup(GenericParamId(id)) is None;
        assert(has_id(both, id));
    }
    if lacks_one(both, substitution) {
        let id = choose|id: u32| #[trigger]
            has_id(both, id) && substitution.lookup(GenericParamId(id)) is None;
        assert(has_id(one, id) || has_id(other, id));
    }
}

/// A type has a parameter that the substitution has no type for exactly where
/// one of the parameters that occur in the type has none there.
pub proof fn law_unbound_parameters(types: Seq<TyData>, ty: TyId, substitution: Substitution)
    requires
        types_wf(types),
    ensures
        has_unbound_param(types, ty, substitution) <==> lacks_one(
            params_in(types, ty, Chain::Empty),
            substitution,
        ),
    decreases ty.0, 1nat, 0nat,
{
    let none: Chain<u32> = Chain::Empty;
    assert(!lacks_one(none, substitution));
    if ty.0 < types.len() {
        assert(parts_below(types[ty.0 as int], ty.0 as int));
        match ty_data(types, ty) {
            TyData::Param(parameter) => {
                let ids = params_in(types, ty, none);
                assert forall|id: u32| #[trigger] has_id(ids, id) <==> id == parameter.0 by {
                    law_insert_id(none, parameter.0, id);
                }
                assert(has_id(ids, parameter.0));
            },
            TyData::Tuple(elements) => lemma_unbound_list(types, elements, substitution, ty.0),
            TyData::Nominal { arguments, .. } => {
                lemma_unbound_list(types, arguments, substitution, ty.0);
            },
            TyData::DynTarget(instance) => {
                lemma_unbound_bindings(types, instance.bindings, substitution, ty.0);
            },
            TyData::Result { ok, error } => {
                law_unbound_parameters(types, ok, substitution);
                law_unbound_parameters(types, error, substitution);
                let first = params_in(types, ok, none);
                let second = params_in(types, error, none);
                let both = params_in(types, error, first);
                assert forall|id: u32| #[trigger] has_id(both, id) <==> has_id(first, id) || has_id(
                    second,
                    id,
                ) by {
                    lemma_params_in(types, error, first, id);
                }
                lemma_lacks_either(first, second, both, substitution);
            },
            TyData::Option(part) => law_unbound_parameters(types, part, substitution),
            TyData::Task(part) => law_unbound_parameters(types, part, substitution),
            TyData::List(part) => law_unbound_parameters(types, part, substitution),
            TyData::TextMap(part) => law_unbound_parameters(types, part, substitution),
            TyData::TaskOutcome(part) => law_unbound_parameters(types, part, substitution),
            TyData::Projection { self_ty, .. } => {
                law_unbound_parameters(types, self_ty, substitution);
            },
            TyData::View { target, .. } => law_unbound_parameters(types, target, substitution),
            _ => {},
        }
    }
}

proof fn lemma_unbound_list(
    types: Seq<TyData>,
    list: Chain<TyId>,
    substitution: Substitution,
    limit: u32,
)
    requires
        types_wf(types),
        all_below(list, limit as int),
    ensures
        any_unbound_param(types, list, substitution, limit) <==> lacks_one(
            params_in_list(types, list, Chain::Empty, limit),
            substitution,
        ),
    decreases limit, 0nat, list.spec_len(),
{
    let none: Chain<u32> = Chain::Empty;
    assert(!lacks_one(none, substitution));
    if list is Link {
        let rest = list.without_last();
        let last = list->0.item;
        lemma_unbound_list(types, rest, substitution, limit);
        law_unbound_parameters(types, last, substitution);
        let first = params_in_list(types, rest, none, limit);
        let second = params_in(types, last, none);
        let both = params_in(types, last, first);
        assert forall|id: u32| #[trigger] has_id(both, id) <==> has_id(first, id) || has_id(
            second,
            id,
        ) by {
            lemma_params_in(types, last, first, id);
        }
        lemma_lacks_either(first, second, both, substitution);
    }
}

proof fn lemma_unbound_bindings(
    types: Seq<TyData>,
    list: Chain<AssociatedTypeBinding>,
    substitution: Substitution,
    limit: u32,
)
    requires
        types_wf(types),
        bindings_below(list, limit as int),
    ensures
        any_binding_unbound_param(types, list, substitution, limit) <==> lacks_one(
            params_in_bindings(types, list, Chain::Empty, limit),
            substitution,
        ),
    decreases limit, 0nat, list.spec_len(),
{
    let none: Chain<u32> = Chain::Empty;
    assert(!lacks_one(none, substitution));
    if list is Link {
        let rest = list.without_last();
        let last = list->0.item.ty;
        lemma_unbound_bindings(types, rest, substitution, limit);
        law_unbound_parameters(types, last, substitution);
        let first = params_in_bindings(types, rest, none, limit);
        let second = params_in(types, last, none);
        let both = params_in(types, last, first);
        assert forall|id: u32| #[trigger] has_id(both, id) <==> has_id(first, id) || has_id(
            second,
            id,
        ) by {
            lemma_params_in(types, last, first, id);
        }
        lemma_lacks_either(first, second, both, substitution);
    }
}

proof fn lemma_subterm_through(types: Seq<TyData>, part: TyId, middle: TyId, whole: TyId)
    requires
        types_wf(types),
        strict_subterm(types, part, middle),
        strict_subterm(types, middle, whole),
    ensures
        strict_subterm(types, part, whole),
    decreases whole.0, 1nat, 0nat,
{
    if whole.0 < types.len() {
        assert(parts_below(types[whole.0 as int], whole.0 as int));
        match ty_data(types, whole) {
            TyData::Tuple(elements) => {
                lemma_subterm_of_any_through(types, part, middle, elements, whole.0);
            },
            TyData::Nominal { arguments, .. } => {
                lemma_subterm_of_any_through(types, part, middle, arguments, whole.0);
            },
            TyData::Option(element) => {
                if element != middle {
                    lemma_subterm_through(types, part, middle, element);
                }
            },
            TyData::TextMap(value) => {
                if value != middle {
                    lemma_subterm_through(types, part, middle, value);
                }
            },
            TyData::Result { ok, error } => {
                if ok != middle && error != middle {
                    if strict_subterm(types, middle, ok) {
                        lemma_subterm_through(types, part, middle, ok);
                    } else {
                        lemma_subterm_through(types, part, middle, error);
                    }
                }
            },
            _ => {},
        }
    }
}

proof fn lemma_subterm_of_any_through(
    types: Seq<TyData>,
    part: TyId,
    middle: TyId,
    list: Chain<TyId>,
    limit: u32,
)
    requires
        types_wf(types),
        all_below(list, limit as int),
        strict_subterm(types, part, middle),
        subterm_of_any(types, middle, list, limit),
    ensures
        subterm_of_any(types, part, list, limit),
    decreases limit, 0nat, list.spec_len(),
{
    if list is Link {
        let rest = list.without_last();
        let last = list->0.item;
        if subterm_of_any(types, middle, rest, limit) {
            lemma_subterm_of_any_through(types, part, middle, rest, limit);
        } else if last != middle {
            lemma_subterm_through(types, part, middle, last);
        }
    }
}

/// A type is one of the components that a tuple, an option, a text map, a
/// result or a declared type is made of.
pub open spec fn is_component(types: Seq<TyData>, part: TyId, whole: TyId) -> bool {
    match ty_data(types, whole) {
        TyData::Tuple(elements) => elements.seq().contains(part),
        TyData::Nominal { definition: _, arguments } => arguments.seq().contains(part),
        TyData::Option(element) => element == part,
        TyData::TextMap(value) => value == part,
        TyData::Result { ok, error } => ok == part || error == part,
        _ => false,
    }
}

proof fn lemma_component_of_list(types: Seq<TyData>, part: TyId, list: Chain<TyId>, limit: u32)
    requires
        types_wf(types),
        all_below(list, limit as int),
        list.seq().contains(part),
    ensures
        subterm_of_any(types, part, list, limit),
    decreases list,
{
    if list is Link {
        let rest = list.without_last();
        let last = list->0.item;
        assert(list.seq() == rest.seq().push(last));
        if last != part {
            let i = list.seq().index_of(part);
            assert(rest.seq()[i] == part);
            lemma_component_of_list(types, part, rest, limit);
        }
    } else {
        assert(list.seq().len() == 0);
    }
}

/// To be a proper part of a type is an order: no type is a part of itself, and
/// the parts of a part are parts. The components of a type are parts of it, and
/// types of other kinds have no parts.
pub proof fn law_subterm_order(types: Seq<TyData>, part: TyId, middle: TyId, whole: TyId)
    requires
        types_wf(types),
    ensures
        !strict_subterm(types, whole, whole),
        strict_subterm(types, part, middle) && strict_subterm(types, middle, whole)
            ==> strict_subterm(types, part, whole),
        is_component(types, part, whole) ==> strict_subterm(types, part, whole),
        match ty_data(types, whole) {
            TyData::Tuple(_) | TyData::Option(_) | TyData::TextMap(_) => true,
            TyData::Result { ok: _, error: _ } => true,
            TyData::Nominal { definition: _, arguments: _ } => true,
            _ => !strict_subterm(types, part, whole),
        },
{
    if strict_subterm(types, whole, whole) {
        law_subterm_is_older(types, whole, whole);
    }
    if strict_subterm(types, part, middle) && strict_subterm(types, middle, whole) {
        lemma_subterm_through(types, part, middle, whole);
    }
    if is_component(types, part, whole) {
        assert(parts_below(types[whole.0 as int], whole.0 as int));
        match ty_data(types, whole) {
            TyData::Tuple(elements) => {
                lemma_component_of_list(types, part, elements, whole.0);
            },
            TyData::Nominal { arguments, .. } => {
                lemma_component_of_list(types, part, arguments, whole.0);
            },
            _ => {},
        }
    }
}

} // verus!
