//! Questions about the structure of types, and unification.

use vstd::prelude::*;

use crate::chain::{same_length, Chain, Same};
#[allow(unused_imports)]
use crate::growth::{later, lemma_later_itself, lemma_later_through};
use crate::hir::text_is;
use crate::ids::{DefId, GenericParamId, TyId};
use crate::substitution::Substitution;
use crate::table::insert_id;
#[allow(unused_imports)]
use crate::table::id_inserted;
use crate::ty::{AssociatedTypeBinding, BuiltinType, ConceptInstance, TyData, TyInterner};
#[allow(unused_imports)]
use crate::ty::{all_below, bindings_below, interned, interned_ty, ty_data, types_wf};

verus! {

broadcast use {lemma_later_itself, lemma_later_through};

/// A parameter that the substitution has no type for occurs in `ty`.
pub open spec fn has_unbound_param(
    types: Seq<TyData>,
    ty: TyId,
    substitution: Substitution,
) -> bool
    decreases ty.0, 1nat, 0nat,
    when types_wf(types)
{
    match ty_data(types, ty) {
        TyData::Param(parameter) => substitution.lookup(parameter) is None,
        TyData::Tuple(elements) => any_unbound_param(types, elements, substitution, ty.0),
        TyData::Option(element) => has_unbound_param(types, element, substitution),
        TyData::Result { ok, error } => has_unbound_param(types, ok, substitution)
            || has_unbound_param(types, error, substitution),
        TyData::Task(output) => has_unbound_param(types, output, substitution),
        TyData::List(output) => has_unbound_param(types, output, substitution),
        TyData::TextMap(output) => has_unbound_param(types, output, substitution),
        TyData::TaskOutcome(output) => has_unbound_param(types, output, substitution),
        TyData::Nominal { definition: _, arguments } => any_unbound_param(
            types,
            arguments,
            substitution,
            ty.0,
        ),
        TyData::Projection { self_ty, concept: _, associated_type: _ } => has_unbound_param(
            types,
            self_ty,
            substitution,
        ),
        TyData::DynTarget(instance) => any_binding_unbound_param(
            types,
            instance.bindings,
            substitution,
            ty.0,
        ),
        TyData::View { mutability: _, target } => has_unbound_param(types, target, substitution),
        TyData::Error | TyData::Never | TyData::Builtin(_) | TyData::SelfType(_) => false,
    }
}

pub open spec fn any_unbound_param(
    types: Seq<TyData>,
    list: Chain<TyId>,
    substitution: Substitution,
    limit: u32,
) -> bool
    decreases limit, 0nat, list.spec_len(),
    when types_wf(types) && all_below(list, limit as int)
{
    match list {
        Chain::Empty => false,
        Chain::Link(link) => any_unbound_param(types, link.rest, substitution, limit)
            || has_unbound_param(types, link.item, substitution),
    }
}

pub open spec fn any_binding_unbound_param(
    types: Seq<TyData>,
    list: Chain<AssociatedTypeBinding>,
    substitution: Substitution,
    limit: u32,
) -> bool
    decreases limit, 0nat, list.spec_len(),
    when types_wf(types) && bindings_below(list, limit as int)
{
    match list {
        Chain::Empty => false,
        Chain::Link(link) => any_binding_unbound_param(types, link.rest, substitution, limit)
            || has_unbound_param(types, link.item.ty, substitution),
    }
}

pub fn contains_unbound_param(types: &TyInterner, ty: TyId, substitution: &Substitution) -> (has:
    bool)
    requires
        types_wf(types@),
    ensures
        has == has_unbound_param(types@, ty, *substitution),
    decreases ty.0, 1nat, 0nat,
{
    match types.data(ty) {
        TyData::Param(parameter) => substitution.get(*parameter).is_none(),
        TyData::Tuple(elements) => contains_unbound_list(types, elements, substitution, ty.0),
        TyData::Option(element) => contains_unbound_param(types, *element, substitution),
        TyData::Result { ok, error } => contains_unbound_param(types, *ok, substitution)
            || contains_unbound_param(types, *error, substitution),
        TyData::Task(output) => contains_unbound_param(types, *output, substitution),
        TyData::List(output) => contains_unbound_param(types, *output, substitution),
        TyData::TextMap(output) => contains_unbound_param(types, *output, substitution),
        TyData::TaskOutcome(output) => contains_unbound_param(types, *output, substitution),
        TyData::Nominal { definition: _, arguments } => contains_unbound_list(
            types,
            arguments,
            substitution,
            ty.0,
        ),
        TyData::Projection { self_ty, concept: _, associated_type: _ } => contains_unbound_param(
            types,
            *self_ty,
            substitution,
        ),
        TyData::DynTarget(instance) => contains_unbound_binding(
            types,
            &instance.bindings,
            substitution,
            ty.0,
        ),
        TyData::View { mutability: _, target } => contains_unbound_param(
            types,
            *target,
            substitution,
        ),
        TyData::Error | TyData::Never | TyData::Builtin(_) | TyData::SelfType(_) => false,
    }
}

fn contains_unbound_list(
    types: &TyInterner,
    list: &Chain<TyId>,
    substitution: &Substitution,
    limit: u32,
) -> (has: bool)
    requires
        types_wf(types@),
        all_below(*list, limit as int),
    ensures
        has == any_unbound_param(types@, *list, *substitution, limit),
    decreases limit, 0nat, list.spec_len(),
{
    match list {
        Chain::Empty => false,
        Chain::Link(link) => contains_unbound_list(types, &link.rest, substitution, limit)
            || contains_unbound_param(types, link.item, substitution),
    }
}

fn contains_unbound_binding(
    types: &TyInterner,
    list: &Chain<AssociatedTypeBinding>,
    substitution: &Substitution,
    limit: u32,
) -> (has: bool)
    requires
        types_wf(types@),
        bindings_below(*list, limit as int),
    ensures
        has == any_binding_unbound_param(types@, *list, *substitution, limit),
    decreases limit, 0nat, list.spec_len(),
{
    match list {
        Chain::Empty => false,
        Chain::Link(link) => contains_unbound_binding(types, &link.rest, substitution, limit)
            || contains_unbound_param(types, link.item.ty, substitution),
    }
}

/// What unifying a declared type with an actual one binds, and whether they
/// unify. The error type goes with everything, and a declared type that does
/// not return with everything too.
pub open spec fn unified(
    types: Seq<TyData>,
    pattern: TyId,
    actual: TyId,
    substitution: Substitution,
) -> (Substitution, bool)
    decreases pattern.0, 1nat, 0nat,
    when types_wf(types)
{
    match (ty_data(types, pattern), ty_data(types, actual)) {
        (TyData::Error, _) => (substitution, true),
        (TyData::Never, _) => (substitution, true),
        (_, TyData::Error) => (substitution, true),
        (TyData::Param(parameter), _) => match substitution.lookup(parameter) {
            Some(previous) => (substitution, previous == actual),
            None => (substitution.inserted(parameter, actual), true),
        },
        (TyData::Tuple(left), TyData::Tuple(right)) => if left.spec_len() == right.spec_len() {
            unified_list(types, left, right, substitution, pattern.0)
        } else {
            (substitution, false)
        },
        (TyData::Option(left), TyData::Option(right)) => unified(types, left, right, substitution),
        (TyData::TextMap(left), TyData::TextMap(right)) => unified(
            types,
            left,
            right,
            substitution,
        ),
        (
            TyData::Result { ok: left_ok, error: left_error },
            TyData::Result { ok: right_ok, error: right_error },
        ) => {
            let (between, ok) = unified(types, left_ok, right_ok, substitution);
            if ok {
                unified(types, left_error, right_error, between)
            } else {
                (between, false)
            }
        },
        (TyData::Task(left), TyData::Task(right)) => unified(types, left, right, substitution),
        (
            TyData::Nominal { definition: left, arguments: left_arguments },
            TyData::Nominal { definition: right, arguments: right_arguments },
        ) => if left == right && left_arguments.spec_len() == right_arguments.spec_len() {
            unified_list(types, left_arguments, right_arguments, substitution, pattern.0)
        } else {
            (substitution, false)
        },
        (
            TyData::View { mutability: left_mutability, target: left_target },
            TyData::View { mutability: right_mutability, target: right_target },
        ) => if left_mutability == right_mutability {
            unified(types, left_target, right_target, substitution)
        } else {
            (substitution, false)
        },
        (left, right) => (substitution, left == right),
    }
}

/// `unified` on two lists of one length, front to back.
pub open spec fn unified_list(
    types: Seq<TyData>,
    left: Chain<TyId>,
    right: Chain<TyId>,
    substitution: Substitution,
    limit: u32,
) -> (Substitution, bool)
    decreases limit, 0nat, left.spec_len(),
    when types_wf(types) && all_below(left, limit as int)
{
    match (left, right) {
        (Chain::Link(a), Chain::Link(b)) => {
            let (between, ok) = unified_list(types, a.rest, b.rest, substitution, limit);
            if ok {
                unified(types, a.item, b.item, between)
            } else {
                (between, false)
            }
        },
        _ => (substitution, true),
    }
}

/// Unifies a declared type with an actual one.
pub fn unify_type(
    types: &TyInterner,
    pattern: TyId,
    actual: TyId,
    substitution: &mut Substitution,
) -> (ok: bool)
    requires
        types_wf(types@),
    ensures
        (*final(substitution), ok) == unified(types@, pattern, actual, *old(substitution)),
    decreases pattern.0, 1nat, 0nat,
{
    match (types.data(pattern), types.data(actual)) {
        (TyData::Error, _) => true,
        (TyData::Never, _) => true,
        (_, TyData::Error) => true,
        (TyData::Param(parameter), _) => match substitution.get(*parameter) {
            Some(previous) => previous == actual,
            None => {
                substitution.insert(*parameter, actual);
                true
            },
        },
        (TyData::Tuple(left), TyData::Tuple(right)) => {
            same_length(left, right) && unify_list(types, left, right, substitution, pattern.0)
        },
        (TyData::Option(left), TyData::Option(right)) => unify_type(
            types,
            *left,
            *right,
            substitution,
        ),
        (TyData::TextMap(left), TyData::TextMap(right)) => unify_type(
            types,
            *left,
            *right,
            substitution,
        ),
        (
            TyData::Result { ok: left_ok, error: left_error },
            TyData::Result { ok: right_ok, error: right_error },
        ) => {
            unify_type(types, *left_ok, *right_ok, substitution) && unify_type(
                types,
                *left_error,
                *right_error,
                substitution,
            )
        },
        (TyData::Task(left), TyData::Task(right)) => unify_type(
            types,
            *left,
            *right,
            substitution,
        ),
        (
            TyData::Nominal { definition: left, arguments: left_arguments },
            TyData::Nominal { definition: right, arguments: right_arguments },
        ) => {
            *left == *right && same_length(left_arguments, right_arguments) && unify_list(
                types,
                left_arguments,
                right_arguments,
                substitution,
                pattern.0,
            )
        },
        (
            TyData::View { mutability: left_mutability, target: left_target },
            TyData::View { mutability: right_mutability, target: right_target },
        ) => {
            *left_mutability == *right_mutability && unify_type(
                types,
                *left_target,
                *right_target,
                substitution,
            )
        },
        (left, right) => left.same(right),
    }
}

fn unify_list(
    types: &TyInterner,
    left: &Chain<TyId>,
    right: &Chain<TyId>,
    substitution: &mut Substitution,
    limit: u32,
) -> (ok: bool)
    requires
        types_wf(types@),
        all_below(*left, limit as int),
    ensures
        (*final(substitution), ok) == unified_list(
            types@,
            *left,
            *right,
            *old(substitution),
            limit,
        ),
    decreases limit, 0nat, left.spec_len(),
{
    match (left, right) {
        (Chain::Link(a), Chain::Link(b)) => {
            unify_list(types, &a.rest, &b.rest, substitution, limit) && unify_type(
                types,
                a.item,
                b.item,
                substitution,
            )
        },
        _ => true,
    }
}

/// The parameters paired with the arguments, as far as both go.
pub open spec fn paired(
    parameters: Chain<GenericParamId>,
    arguments: Chain<TyId>,
    substitution: Substitution,
) -> Substitution
    decreases parameters.spec_len() + arguments.spec_len(),
{
    match (parameters, arguments) {
        (Chain::Link(parameter), Chain::Link(argument)) => if parameters.spec_len()
            > arguments.spec_len() {
            paired(parameter.rest, arguments, substitution)
        } else if parameters.spec_len() < arguments.spec_len() {
            paired(parameters, argument.rest, substitution)
        } else {
            paired(parameter.rest, argument.rest, substitution).inserted(
                parameter.item,
                argument.item,
            )
        },
        _ => substitution,
    }
}

pub fn pair_params(
    parameters: &Chain<GenericParamId>,
    arguments: &Chain<TyId>,
    substitution: &Substitution,
) -> (result: Substitution)
    ensures
        result == paired(*parameters, *arguments, *substitution),
    decreases parameters.spec_len() + arguments.spec_len(),
{
    match (parameters, arguments) {
        (Chain::Link(parameter), Chain::Link(argument)) => {
            if longer(parameters, arguments) {
                pair_params(&parameter.rest, arguments, substitution)
            } else if longer(arguments, parameters) {
                pair_params(parameters, &argument.rest, substitution)
            } else {
                let mut result = pair_params(&parameter.rest, &argument.rest, substitution);
                result.insert(parameter.item, argument.item);
                result
            }
        },
        _ => substitution.clone(),
    }
}

/// Whether `left` has more elements than `right`.
pub fn longer<A, B>(left: &Chain<A>, right: &Chain<B>) -> (more: bool)
    ensures
        more == (left.spec_len() > right.spec_len()),
    decreases left,
{
    match (left, right) {
        (Chain::Link(a), Chain::Link(b)) => longer(&a.rest, &b.rest),
        (Chain::Link(_), Chain::Empty) => true,
        _ => false,
    }
}

/// The substitution of the arguments of a nominal type for its parameters.
pub fn substitution_for(parameters: &Chain<GenericParamId>, arguments: &Chain<TyId>) -> (result:
    Substitution)
    ensures
        result == paired(*parameters, *arguments, Substitution::empty()),
{
    pair_params(parameters, arguments, &Substitution::default())
}

/// `ids`, with the parameters that occur in `ty`, in order and each once.
pub open spec fn params_in(types: Seq<TyData>, ty: TyId, ids: Chain<u32>) -> Chain<u32>
    decreases ty.0, 1nat, 0nat,
    when types_wf(types)
{
    match ty_data(types, ty) {
        TyData::Param(parameter) => id_inserted(ids, parameter.0),
        TyData::Tuple(elements) => params_in_list(types, elements, ids, ty.0),
        TyData::Option(element) => params_in(types, element, ids),
        TyData::Result { ok, error } => params_in(types, error, params_in(types, ok, ids)),
        TyData::Task(output) => params_in(types, output, ids),
        TyData::List(output) => params_in(types, output, ids),
        TyData::TextMap(output) => params_in(types, output, ids),
        TyData::TaskOutcome(output) => params_in(types, output, ids),
        TyData::Nominal { definition: _, arguments } => params_in_list(
            types,
            arguments,
            ids,
            ty.0,
        ),
        TyData::Projection { self_ty, concept: _, associated_type: _ } => params_in(
            types,
            self_ty,
            ids,
        ),
        TyData::DynTarget(instance) => params_in_bindings(types, instance.bindings, ids, ty.0),
        TyData::View { mutability: _, target } => params_in(types, target, ids),
        TyData::Error | TyData::Never | TyData::Builtin(_) | TyData::SelfType(_) => ids,
    }
}

pub open spec fn params_in_list(
    types: Seq<TyData>,
    list: Chain<TyId>,
    ids: Chain<u32>,
    limit: u32,
) -> Chain<u32>
    decreases limit, 0nat, list.spec_len(),
    when types_wf(types) && all_below(list, limit as int)
{
    match list {
        Chain::Empty => ids,
        Chain::Link(link) => params_in(
            types,
            link.item,
            params_in_list(types, link.rest, ids, limit),
        ),
    }
}

pub open spec fn params_in_bindings(
    types: Seq<TyData>,
    list: Chain<AssociatedTypeBinding>,
    ids: Chain<u32>,
    limit: u32,
) -> Chain<u32>
    decreases limit, 0nat, list.spec_len(),
    when types_wf(types) && bindings_below(list, limit as int)
{
    match list {
        Chain::Empty => ids,
        Chain::Link(link) => params_in(
            types,
            link.item.ty,
            params_in_bindings(types, link.rest, ids, limit),
        ),
    }
}

/// The generic parameters that occur in a type, in order and each once.
pub fn type_parameters_in(types: &TyInterner, ty: TyId) -> (ids: Chain<u32>)
    requires
        types_wf(types@),
    ensures
        ids == params_in(types@, ty, Chain::Empty),
{
    collect_type_parameters(types, ty, &Chain::new())
}

fn collect_type_parameters(types: &TyInterner, ty: TyId, ids: &Chain<u32>) -> (result: Chain<u32>)
    requires
        types_wf(types@),
    ensures
        result == params_in(types@, ty, *ids),
    decreases ty.0, 1nat, 0nat,
{
    match types.data(ty) {
        TyData::Param(parameter) => insert_id(ids, parameter.0),
        TyData::Tuple(elements) => collect_list_parameters(types, elements, ids, ty.0),
        TyData::Option(element) => collect_type_parameters(types, *element, ids),
        TyData::Result { ok, error } => collect_type_parameters(
            types,
            *error,
            &collect_type_parameters(types, *ok, ids),
        ),
        TyData::Task(output) => collect_type_parameters(types, *output, ids),
        TyData::List(output) => collect_type_parameters(types, *output, ids),
        TyData::TextMap(output) => collect_type_parameters(types, *output, ids),
        TyData::TaskOutcome(output) => collect_type_parameters(types, *output, ids),
        TyData::Nominal { definition: _, arguments } => collect_list_parameters(
            types,
            arguments,
            ids,
            ty.0,
        ),
        TyData::Projection { self_ty, concept: _, associated_type: _ } => collect_type_parameters(
            types,
            *self_ty,
            ids,
        ),
        TyData::DynTarget(instance) => collect_binding_parameters(
            types,
            &instance.bindings,
            ids,
            ty.0,
        ),
        TyData::View { mutability: _, target } => collect_type_parameters(types, *target, ids),
        TyData::Error | TyData::Never | TyData::Builtin(_) | TyData::SelfType(_) => ids.clone(),
    }
}

fn collect_list_parameters(
    types: &TyInterner,
    list: &Chain<TyId>,
    ids: &Chain<u32>,
    limit: u32,
) -> (result: Chain<u32>)
    requires
        types_wf(types@),
        all_below(*list, limit as int),
    ensures
        result == params_in_list(types@, *list, *ids, limit),
    decreases limit, 0nat, list.spec_len(),
{
    match list {
        Chain::Empty => ids.clone(),
        Chain::Link(link) => collect_type_parameters(
            types,
            link.item,
            &collect_list_parameters(types, &link.rest, ids, limit),
        ),
    }
}

fn collect_binding_parameters(
    types: &TyInterner,
    list: &Chain<AssociatedTypeBinding>,
    ids: &Chain<u32>,
    limit: u32,
) -> (result: Chain<u32>)
    requires
        types_wf(types@),
        bindings_below(*list, limit as int),
    ensures
        result == params_in_bindings(types@, *list, *ids, limit),
    decreases limit, 0nat, list.spec_len(),
{
    match list {
        Chain::Empty => ids.clone(),
        Chain::Link(link) => collect_type_parameters(
            types,
            link.item.ty,
            &collect_binding_parameters(types, &link.rest, ids, limit),
        ),
    }
}

/// `candidate` is a proper part of `root`, through tuples, options, text maps,
/// results and the arguments of nominal types.
pub open spec fn strict_subterm(types: Seq<TyData>, candidate: TyId, root: TyId) -> bool
    decreases root.0, 1nat, 0nat,
    when types_wf(types)
{
    match ty_data(types, root) {
        TyData::Tuple(elements) => subterm_of_any(types, candidate, elements, root.0),
        TyData::Option(element) => element == candidate || strict_subterm(
            types,
            candidate,
            element,
        ),
        TyData::TextMap(value) => value == candidate || strict_subterm(types, candidate, value),
        TyData::Result { ok, error } => ok == candidate || error == candidate || strict_subterm(
            types,
            candidate,
            ok,
        ) || strict_subterm(types, candidate, error),
        TyData::Nominal { definition: _, arguments } => subterm_of_any(
            types,
            candidate,
            arguments,
            root.0,
        ),
        _ => false,
    }
}

pub open spec fn subterm_of_any(
    types: Seq<TyData>,
    candidate: TyId,
    list: Chain<TyId>,
    limit: u32,
) -> bool
    decreases limit, 0nat, list.spec_len(),
    when types_wf(types) && all_below(list, limit as int)
{
    match list {
        Chain::Empty => false,
        Chain::Link(link) => subterm_of_any(types, candidate, link.rest, limit) || link.item
            == candidate || strict_subterm(types, candidate, link.item),
    }
}

pub fn is_strict_structural_subterm(types: &TyInterner, candidate: TyId, root: TyId) -> (part: bool)
    requires
        types_wf(types@),
    ensures
        part == strict_subterm(types@, candidate, root),
    decreases root.0, 1nat, 0nat,
{
    match types.data(root) {
        TyData::Tuple(elements) => is_subterm_of_any(types, candidate, elements, root.0),
        TyData::Option(element) => *element == candidate || is_strict_structural_subterm(
            types,
            candidate,
            *element,
        ),
        TyData::TextMap(value) => *value == candidate || is_strict_structural_subterm(
            types,
            candidate,
            *value,
        ),
        TyData::Result { ok, error } => *ok == candidate || *error == candidate
            || is_strict_structural_subterm(types, candidate, *ok) || is_strict_structural_subterm(
            types,
            candidate,
            *error,
        ),
        TyData::Nominal { definition: _, arguments } => is_subterm_of_any(
            types,
            candidate,
            arguments,
            root.0,
        ),
        _ => false,
    }
}

fn is_subterm_of_any(
    types: &TyInterner,
    candidate: TyId,
    list: &Chain<TyId>,
    limit: u32,
) -> (part: bool)
    requires
        types_wf(types@),
        all_below(*list, limit as int),
    ensures
        part == subterm_of_any(types@, candidate, *list, limit),
    decreases limit, 0nat, list.spec_len(),
{
    match list {
        Chain::Empty => false,
        Chain::Link(link) => is_subterm_of_any(types, candidate, &link.rest, limit) || link.item
            == candidate || is_strict_structural_subterm(types, candidate, link.item),
    }
}

/// A proper part of a type was interned before it.
pub proof fn law_subterm_is_older(types: Seq<TyData>, candidate: TyId, root: TyId)
    requires
        types_wf(types),
        strict_subterm(types, candidate, root),
    ensures
        candidate.0 < root.0,
    decreases root.0, 1nat, 0nat,
{
    match ty_data(types, root) {
        TyData::Tuple(elements) => lemma_subterm_of_any_is_older(
            types,
            candidate,
            elements,
            root.0,
        ),
        TyData::Option(element) => if element != candidate {
            law_subterm_is_older(types, candidate, element);
        },
        TyData::TextMap(value) => if value != candidate {
            law_subterm_is_older(types, candidate, value);
        },
        TyData::Result { ok, error } => if ok != candidate && error != candidate {
            if strict_subterm(types, candidate, ok) {
                law_subterm_is_older(types, candidate, ok);
            } else {
                law_subterm_is_older(types, candidate, error);
            }
        },
        TyData::Nominal { definition: _, arguments } => lemma_subterm_of_any_is_older(
            types,
            candidate,
            arguments,
            root.0,
        ),
        _ => {},
    }
}

proof fn lemma_subterm_of_any_is_older(
    types: Seq<TyData>,
    candidate: TyId,
    list: Chain<TyId>,
    limit: u32,
)
    requires
        types_wf(types),
        all_below(list, limit as int),
        subterm_of_any(types, candidate, list, limit),
    ensures
        candidate.0 < limit,
    decreases limit, 0nat, list.spec_len(),
{
    if list is Link {
        let item = list->0.item;
        if item != candidate {
            if strict_subterm(types, candidate, item) {
                law_subterm_is_older(types, candidate, item);
            } else {
                lemma_subterm_of_any_is_older(types, candidate, list.without_last(), limit);
            }
        }
    }
}

/// The builtin type with the given name.
pub open spec fn builtin_named(name: Seq<char>) -> Option<BuiltinType> {
    if name == "Bool"@ {
        Some(BuiltinType::Bool)
    } else if name == "Int"@ {
        Some(BuiltinType::Int)
    } else if name == "Float"@ {
        Some(BuiltinType::Float)
    } else if name == "Text"@ {
        Some(BuiltinType::Text)
    } else if name == "Bytes"@ {
        Some(BuiltinType::Bytes)
    } else if name == "Path"@ {
        Some(BuiltinType::Path)
    } else if name == "Unit"@ {
        Some(BuiltinType::Unit)
    } else if name == "ConstraintError"@ {
        Some(BuiltinType::ConstraintError)
    } else if name == "ContractFault"@ {
        Some(BuiltinType::ContractFault)
    } else if name == "TaskFault"@ {
        Some(BuiltinType::TaskFault)
    } else if name == "Duration"@ {
        Some(BuiltinType::Duration)
    } else {
        None
    }
}

pub fn builtin_type(name: &String) -> (builtin: Option<BuiltinType>)
    ensures
        builtin == builtin_named(name@),
{
    if text_is(name, "Bool") {
        Some(BuiltinType::Bool)
    } else if text_is(name, "Int") {
        Some(BuiltinType::Int)
    } else if text_is(name, "Float") {
        Some(BuiltinType::Float)
    } else if text_is(name, "Text") {
        Some(BuiltinType::Text)
    } else if text_is(name, "Bytes") {
        Some(BuiltinType::Bytes)
    } else if text_is(name, "Path") {
        Some(BuiltinType::Path)
    } else if text_is(name, "Unit") {
        Some(BuiltinType::Unit)
    } else if text_is(name, "ConstraintError") {
        Some(BuiltinType::ConstraintError)
    } else if text_is(name, "ContractFault") {
        Some(BuiltinType::ContractFault)
    } else if text_is(name, "TaskFault") {
        Some(BuiltinType::TaskFault)
    } else if text_is(name, "Duration") {
        Some(BuiltinType::Duration)
    } else {
        None
    }
}

/// The type of the first binding of an associated type.
pub open spec fn first_binding(
    bindings: Chain<AssociatedTypeBinding>,
    associated_type: DefId,
) -> Option<TyId>
    decreases bindings,
{
    match bindings {
        Chain::Empty => None,
        Chain::Link(link) => match first_binding(link.rest, associated_type) {
            Some(found) => Some(found),
            None => if link.item.associated_type == associated_type {
                Some(link.item.ty)
            } else {
                None
            },
        },
    }
}

pub fn find_first_binding(bindings: &Chain<AssociatedTypeBinding>, associated_type: DefId) -> (ty:
    Option<TyId>)
    ensures
        ty == first_binding(*bindings, associated_type),
    decreases bindings,
{
    match bindings {
        Chain::Empty => None,
        Chain::Link(link) => match find_first_binding(&link.rest, associated_type) {
            Some(found) => Some(found),
            None => if link.item.associated_type == associated_type {
                Some(link.item.ty)
            } else {
                None
            },
        },
    }
}

/// The types and the type that come of putting a concrete type for the `Self`
/// of a concept, and what the instance binds for its associated types. Inside
/// interface types this is done only where `through_views` says so.
pub open spec fn instantiated(
    types: Seq<TyData>,
    ty: TyId,
    concrete_self: TyId,
    instance: ConceptInstance,
    through_views: bool,
) -> (Seq<TyData>, TyId)
    decreases ty.0, 1nat, 0nat,
    when types_wf(types)
{
    match ty_data(types, ty) {
        TyData::SelfType(concept) => if concept == instance.concept {
            (types, concrete_self)
        } else {
            (types, ty)
        },
        TyData::Projection { self_ty: _, concept, associated_type } => if concept
            == instance.concept {
            match first_binding(instance.bindings, associated_type) {
                Some(bound) => (types, bound),
                None => made(
                    types,
                    TyData::Projection { self_ty: concrete_self, concept, associated_type },
                ),
            }
        } else {
            (types, ty)
        },
        TyData::Tuple(elements) => {
            let (after, elements) = instantiated_list(
                types,
                elements,
                concrete_self,
                instance,
                through_views,
                ty.0,
            );
            made(after, TyData::Tuple(elements))
        },
        TyData::List(element) => {
            let (after, element) = instantiated(
                types,
                element,
                concrete_self,
                instance,
                through_views,
            );
            made(after, TyData::List(element))
        },
        TyData::TextMap(value) => {
            let (after, value) = instantiated(types, value, concrete_self, instance, through_views);
            made(after, TyData::TextMap(value))
        },
        TyData::Option(element) => {
            let (after, element) = instantiated(
                types,
                element,
                concrete_self,
                instance,
                through_views,
            );
            made(after, TyData::Option(element))
        },
        TyData::Result { ok, error } => {
            let (between, ok) = instantiated(types, ok, concrete_self, instance, through_views);
            let (after, error) = instantiated(
                between,
                error,
                concrete_self,
                instance,
                through_views,
            );
            made(after, TyData::Result { ok, error })
        },
        TyData::Task(output) => {
            let (after, output) = instantiated(
                types,
                output,
                concrete_self,
                instance,
                through_views,
            );
            made(after, TyData::Task(output))
        },
        TyData::TaskOutcome(output) => {
            let (after, output) = instantiated(
                types,
                output,
                concrete_self,
                instance,
                through_views,
            );
            made(after, TyData::TaskOutcome(output))
        },
        TyData::Nominal { definition, arguments } => {
            let (after, arguments) = instantiated_list(
                types,
                arguments,
                concrete_self,
                instance,
                through_views,
                ty.0,
            );
            made(after, TyData::Nominal { definition, arguments })
        },
        TyData::DynTarget(target) => if through_views {
            let (after, bindings) = instantiated_bindings(
                types,
                target.bindings,
                concrete_self,
                instance,
                ty.0,
            );
            made(after, TyData::DynTarget(ConceptInstance { concept: target.concept, bindings }))
        } else {
            (types, ty)
        },
        TyData::View { mutability, target } => if through_views {
            let (after, target) = instantiated(
                types,
                target,
                concrete_self,
                instance,
                through_views,
            );
            made(after, TyData::View { mutability, target })
        } else {
            (types, ty)
        },
        TyData::Error | TyData::Never | TyData::Builtin(_) | TyData::Param(_) => (types, ty),
    }
}

/// The types and the type after a shape was interned.
pub open spec fn made(types: Seq<TyData>, data: TyData) -> (Seq<TyData>, TyId) {
    (interned(types, data), interned_ty(types, data))
}

pub open spec fn instantiated_list(
    types: Seq<TyData>,
    list: Chain<TyId>,
    concrete_self: TyId,
    instance: ConceptInstance,
    through_views: bool,
    limit: u32,
) -> (Seq<TyData>, Chain<TyId>)
    decreases limit, 0nat, list.spec_len(),
    when types_wf(types) && all_below(list, limit as int)
{
    match list {
        Chain::Empty => (types, Chain::Empty),
        Chain::Link(link) => {
            let (between, rest) = instantiated_list(
                types,
                link.rest,
                concrete_self,
                instance,
                through_views,
                limit,
            );
            let (after, item) = instantiated(
                between,
                link.item,
                concrete_self,
                instance,
                through_views,
            );
            (after, rest.pushed(item))
        },
    }
}

pub open spec fn instantiated_bindings(
    types: Seq<TyData>,
    list: Chain<AssociatedTypeBinding>,
    concrete_self: TyId,
    instance: ConceptInstance,
    limit: u32,
) -> (Seq<TyData>, Chain<AssociatedTypeBinding>)
    decreases limit, 0nat, list.spec_len(),
    when types_wf(types) && bindings_below(list, limit as int)
{
    match list {
        Chain::Empty => (types, Chain::Empty),
        Chain::Link(link) => {
            let (between, rest) = instantiated_bindings(
                types,
                link.rest,
                concrete_self,
                instance,
                limit,
            );
            let (after, ty) = instantiated(between, link.item.ty, concrete_self, instance, true);
            (after, rest.pushed(AssociatedTypeBinding { ty, ..link.item }))
        },
    }
}

/// Puts a concrete type for the `Self` of a concept.
pub fn instantiate_concept_type(
    types: &mut TyInterner,
    ty: TyId,
    concrete_self: TyId,
    instance: &ConceptInstance,
    through_views: bool,
) -> (result: TyId)
    requires
        types_wf(old(types)@),
    ensures
        types_wf(final(types)@),
        later(old(types)@, final(types)@),
        (final(types)@, result) == instantiated(
            old(types)@,
            ty,
            concrete_self,
            *instance,
            through_views,
        ),
    decreases ty.0, 1nat, 0nat,
{
    match types.data(ty).clone() {
        TyData::SelfType(concept) => if concept == instance.concept {
            concrete_self
        } else {
            ty
        },
        TyData::Projection { self_ty: _, concept, associated_type } => if concept
            == instance.concept {
            match find_first_binding(&instance.bindings, associated_type) {
                Some(bound) => bound,
                None => types.intern(
                    TyData::Projection { self_ty: concrete_self, concept, associated_type },
                ),
            }
        } else {
            ty
        },
        TyData::Tuple(elements) => {
            let elements = instantiate_list(
                types,
                &elements,
                concrete_self,
                instance,
                through_views,
                ty.0,
            );
            types.intern(TyData::Tuple(elements))
        },
        TyData::List(element) => {
            let element: TyId = instantiate_concept_type(
                types,
                element,
                concrete_self,
                instance,
                through_views,
            );
            types.intern(TyData::List(element))
        },
        TyData::TextMap(value) => {
            let value: TyId = instantiate_concept_type(
                types,
                value,
                concrete_self,
                instance,
                through_views,
            );
            types.intern(TyData::TextMap(value))
        },
        TyData::Option(element) => {
            let element: TyId = instantiate_concept_type(
                types,
                element,
                concrete_self,
                instance,
                through_views,
            );
            types.intern(TyData::Option(element))
        },
        TyData::Result { ok, error } => {
            let ok: TyId = instantiate_concept_type(
                types,
                ok,
                concrete_self,
                instance,
                through_views,
            );
            let error: TyId = instantiate_concept_type(
                types,
                error,
                concrete_self,
                instance,
                through_views,
            );
            types.intern(TyData::Result { ok, error })
        },
        TyData::Task(output) => {
            let output: TyId = instantiate_concept_type(
                types,
                output,
                concrete_self,
                instance,
                through_views,
            );
            types.intern(TyData::Task(output))
        },
        TyData::TaskOutcome(output) => {
            let output: TyId = instantiate_concept_type(
                types,
                output,
                concrete_self,
                instance,
                through_views,
            );
            types.intern(TyData::TaskOutcome(output))
        },
        TyData::Nominal { definition, arguments } => {
            let arguments = instantiate_list(
                types,
                &arguments,
                concrete_self,
                instance,
                through_views,
                ty.0,
            );
            types.intern(TyData::Nominal { definition, arguments })
        },
        TyData::DynTarget(target) => if through_views {
            let bindings = instantiate_bindings(
                types,
                &target.bindings,
                concrete_self,
                instance,
                ty.0,
            );
            types.intern(TyData::DynTarget(ConceptInstance { concept: target.concept, bindings }))
        } else {
            ty
        },
        TyData::View { mutability, target } => if through_views {
            let target: TyId = instantiate_concept_type(
                types,
                target,
                concrete_self,
                instance,
                through_views,
            );
            types.intern(TyData::View { mutability, target })
        } else {
            ty
        },
        TyData::Error | TyData::Never | TyData::Builtin(_) | TyData::Param(_) => ty,
    }
}

fn instantiate_list(
    types: &mut TyInterner,
    list: &Chain<TyId>,
    concrete_self: TyId,
    instance: &ConceptInstance,
    through_views: bool,
    limit: u32,
) -> (result: Chain<TyId>)
    requires
        types_wf(old(types)@),
        all_below(*list, limit as int),
    ensures
        types_wf(final(types)@),
        later(old(types)@, final(types)@),
        (final(types)@, result) == instantiated_list(
            old(types)@,
            *list,
            concrete_self,
            *instance,
            through_views,
            limit,
        ),
    decreases limit, 0nat, list.spec_len(),
{
    match list {
        Chain::Empty => Chain::new(),
        Chain::Link(link) => {
            let rest = instantiate_list(
                types,
                &link.rest,
                concrete_self,
                instance,
                through_views,
                limit,
            );
            let item: TyId = instantiate_concept_type(
                types,
                link.item,
                concrete_self,
                instance,
                through_views,
            );
            rest.with(item)
        },
    }
}

fn instantiate_bindings(
    types: &mut TyInterner,
    list: &Chain<AssociatedTypeBinding>,
    concrete_self: TyId,
    instance: &ConceptInstance,
    limit: u32,
) -> (result: Chain<AssociatedTypeBinding>)
    requires
        types_wf(old(types)@),
        bindings_below(*list, limit as int),
    ensures
        types_wf(final(types)@),
        later(old(types)@, final(types)@),
        (final(types)@, result) == instantiated_bindings(
            old(types)@,
            *list,
            concrete_self,
            *instance,
            limit,
        ),
    decreases limit, 0nat, list.spec_len(),
{
    match list {
        Chain::Empty => Chain::new(),
        Chain::Link(link) => {
            let rest = instantiate_bindings(types, &link.rest, concrete_self, instance, limit);
            let ty: TyId = instantiate_concept_type(
                types,
                link.item.ty,
                concrete_self,
                instance,
                true,
            );
            rest.with(AssociatedTypeBinding { associated_type: link.item.associated_type, ty })
        },
    }
}

} // verus!
