//! What holds of types under substitution and matching.

use vstd::prelude::*;

#[allow(unused_imports)]
use crate::chain::Chain;
#[allow(unused_imports)]
use crate::conformance::{bound_once, matched, matched_list};
#[allow(unused_imports)]
use crate::ids::{GenericParamId, TyId};
#[allow(unused_imports)]
use crate::substitution::{
    law_substitution_reads_last_insert, rebuilt, substituted, substituted_bindings,
    substituted_list, Substitution,
};
#[allow(unused_imports)]
use crate::ty::{
    all_below, bindings_below, law_one_name, lemma_parts_below_more, parts_below, ty_data, types_wf,
    AssociatedTypeBinding, TyData,
};
#[allow(unused_imports)]
use crate::unify::{
    any_binding_unbound_param, any_unbound_param, has_unbound_param, unified, unified_list,
};

verus! {

/// A type without parameters.
pub open spec fn closed_type(types: Seq<TyData>, ty: TyId) -> bool {
    !has_unbound_param(types, ty, Substitution::empty())
}

/// Building a type anew from its parts gives the type.
proof fn lemma_rebuilt(types: Seq<TyData>, ty: TyId)
    requires
        types_wf(types),
        ty.0 < types.len(),
    ensures
        rebuilt(types, ty_data(types, ty)) == (types, ty),
{
    let data = types[ty.0 as int];
    assert(parts_below(data, ty.0 as int));
    lemma_parts_below_more(data, ty.0 as int, types.len() as int);
    assert(types.contains(data));
    let found = types.index_of(data);
    assert(types[found] == data);
    if found < ty.0 {
        assert(types[found] != types[ty.0 as int]);
    } else if ty.0 < found {
        assert(types[ty.0 as int] != types[found]);
    }
}

/// A substitution leaves a type as it is where it has nothing to put in, or
/// where the type has no parameter.
proof fn lemma_unchanged(types: Seq<TyData>, ty: TyId, substitution: Substitution)
    requires
        types_wf(types),
        substitution == Substitution::empty() || closed_type(types, ty),
    ensures
        substituted(types, ty, substitution) == (types, ty),
    decreases ty.0, 1nat, 0nat,
{
    if ty.0 < types.len() {
        lemma_rebuilt(types, ty);
        assert(parts_below(types[ty.0 as int], ty.0 as int));
        match ty_data(types, ty) {
            TyData::Nominal { arguments, .. } => {
                lemma_list_unchanged(types, arguments, substitution, ty.0);
            },
            TyData::Tuple(elements) => {
                lemma_list_unchanged(types, elements, substitution, ty.0);
            },
            TyData::Option(element) => lemma_unchanged(types, element, substitution),
            TyData::Result { ok, error } => {
                lemma_unchanged(types, ok, substitution);
                lemma_unchanged(types, error, substitution);
            },
            TyData::List(element) => lemma_unchanged(types, element, substitution),
            TyData::TextMap(value) => lemma_unchanged(types, value, substitution),
            TyData::Task(output) => lemma_unchanged(types, output, substitution),
            TyData::TaskOutcome(output) => lemma_unchanged(types, output, substitution),
            TyData::Projection { self_ty, .. } => lemma_unchanged(types, self_ty, substitution),
            TyData::DynTarget(instance) => {
                lemma_bindings_unchanged(types, instance.bindings, substitution, ty.0);
            },
            TyData::View { target, .. } => lemma_unchanged(types, target, substitution),
            _ => {},
        }
    }
}

proof fn lemma_list_unchanged(
    types: Seq<TyData>,
    list: Chain<TyId>,
    substitution: Substitution,
    limit: u32,
)
    requires
        types_wf(types),
        all_below(list, limit as int),
        substitution == Substitution::empty() || !any_unbound_param(
            types,
            list,
            Substitution::empty(),
            limit,
        ),
    ensures
        substituted_list(types, list, substitution, limit) == (types, list),
    decreases limit, 0nat, list.spec_len(),
{
    if list is Link {
        let last = list->0.item;
        lemma_list_unchanged(types, list.without_last(), substitution, limit);
        lemma_unchanged(types, last, substitution);
    }
}

proof fn lemma_bindings_unchanged(
    types: Seq<TyData>,
    list: Chain<AssociatedTypeBinding>,
    substitution: Substitution,
    limit: u32,
)
    requires
        types_wf(types),
        bindings_below(list, limit as int),
        substitution == Substitution::empty() || !any_binding_unbound_param(
            types,
            list,
            Substitution::empty(),
            limit,
        ),
    ensures
        substituted_bindings(types, list, substitution, limit) == (types, list),
    decreases limit, 0nat, list.spec_len(),
{
    if list is Link {
        let ty = list->0.item.ty;
        lemma_bindings_unchanged(types, list.without_last(), substitution, limit);
        lemma_unchanged(types, ty, substitution);
    }
}

/// Substituting nothing changes nothing.
pub proof fn law_nothing_to_substitute(types: Seq<TyData>, ty: TyId)
    requires
        types_wf(types),
    ensures
        substituted(types, ty, Substitution::empty()) == (types, ty),
{
    lemma_unchanged(types, ty, Substitution::empty());
}

/// A type without parameters is the same under every substitution.
pub proof fn law_closed_types_stay(types: Seq<TyData>, ty: TyId, substitution: Substitution)
    requires
        types_wf(types),
        closed_type(types, ty),
    ensures
        substituted(types, ty, substitution) == (types, ty),
{
    lemma_unchanged(types, ty, substitution);
}

/// Every entry of `small` is one of `large`.
pub open spec fn extends(large: Substitution, small: Substitution) -> bool {
    forall|parameter: GenericParamId|
        (#[trigger] small.lookup(parameter)) is Some ==> large.lookup(parameter) == small.lookup(
            parameter,
        )
}

proof fn lemma_bound_once(substitution: Substitution, parameter: GenericParamId, ty: TyId)
    ensures
        extends(bound_once(substitution, parameter, ty).0, substitution),
        bound_once(substitution, parameter, ty).1 ==> bound_once(
            substitution,
            parameter,
            ty,
        ).0.lookup(parameter) == Some(ty),
{
    assert forall|other: GenericParamId|
        (#[trigger] substitution.lookup(other)) is Some implies bound_once(
        substitution,
        parameter,
        ty,
    ).0.lookup(other) == substitution.lookup(other) by {
        law_substitution_reads_last_insert(substitution, parameter, ty, other);
    }
    law_substitution_reads_last_insert(substitution, parameter, ty, parameter);
}

pub proof fn lemma_matched_extends(
    types: Seq<TyData>,
    pattern: TyId,
    actual: TyId,
    substitution: Substitution,
)
    requires
        types_wf(types),
    ensures
        extends(matched(types, pattern, actual, substitution).0, substitution),
    decreases pattern.0, 1nat, 0nat,
{
    if pattern.0 < types.len() {
        assert(parts_below(types[pattern.0 as int], pattern.0 as int));
        match (ty_data(types, pattern), ty_data(types, actual)) {
            (TyData::Param(parameter), _) => lemma_bound_once(substitution, parameter, actual),
            (
                TyData::Nominal { arguments: left, .. },
                TyData::Nominal { arguments: right, .. },
            ) => lemma_matched_list_extends(types, left, right, substitution, pattern.0),
            (TyData::Option(left), TyData::Option(right)) => lemma_matched_extends(
                types,
                left,
                right,
                substitution,
            ),
            (TyData::TextMap(left), TyData::TextMap(right)) => lemma_matched_extends(
                types,
                left,
                right,
                substitution,
            ),
            (
                TyData::Result { ok: left_ok, error: left_error },
                TyData::Result { ok: right_ok, error: right_error },
            ) => {
                lemma_matched_extends(types, left_ok, right_ok, substitution);
                let between = matched(types, left_ok, right_ok, substitution).0;
                lemma_matched_extends(types, left_error, right_error, between);
            },
            _ => {},
        }
    }
}

proof fn lemma_matched_list_extends(
    types: Seq<TyData>,
    left: Chain<TyId>,
    right: Chain<TyId>,
    substitution: Substitution,
    limit: u32,
)
    requires
        types_wf(types),
        all_below(left, limit as int),
    ensures
        extends(matched_list(types, left, right, substitution, limit).0, substitution),
    decreases limit, 0nat, left.spec_len(),
{
    if left is Link && right is Link {
        let a = left->0.item;
        let b = right->0.item;
        lemma_matched_list_extends(
            types,
            left.without_last(),
            right.without_last(),
            substitution,
            limit,
        );
        let between = matched_list(
            types,
            left.without_last(),
            right.without_last(),
            substitution,
            limit,
        ).0;
        lemma_matched_extends(types, a, b, between);
    }
}

/// A pattern that matching looks through: parameters and builtin types, and
/// declared types, options, text maps and results of such.
pub open spec fn plain_pattern(types: Seq<TyData>, ty: TyId) -> bool
    decreases ty.0, 1nat, 0nat,
    when types_wf(types)
{
    match ty_data(types, ty) {
        TyData::Param(_) | TyData::Builtin(_) => true,
        TyData::Nominal { definition: _, arguments } => plain_patterns(types, arguments, ty.0),
        TyData::Option(element) => plain_pattern(types, element),
        TyData::TextMap(value) => plain_pattern(types, value),
        TyData::Result { ok, error } => plain_pattern(types, ok) && plain_pattern(types, error),
        _ => false,
    }
}

pub open spec fn plain_patterns(types: Seq<TyData>, list: Chain<TyId>, limit: u32) -> bool
    decreases limit, 0nat, list.spec_len(),
    when types_wf(types) && all_below(list, limit as int)
{
    match list {
        Chain::Empty => true,
        Chain::Link(link) => plain_patterns(types, link.rest, limit) && plain_pattern(
            types,
            link.item,
        ),
    }
}

proof fn lemma_match_is_instance(
    types: Seq<TyData>,
    pattern: TyId,
    actual: TyId,
    substitution: Substitution,
    large: Substitution,
)
    requires
        types_wf(types),
        plain_pattern(types, pattern) || (pattern.0 < types.len() && actual.0 < types.len()
            && closed_type(types, actual)),
        matched(types, pattern, actual, substitution).1,
        extends(large, matched(types, pattern, actual, substitution).0),
    ensures
        substituted(types, pattern, large) == (types, actual),
    decreases pattern.0, 1nat, 0nat,
{
    assert(parts_below(types[pattern.0 as int], pattern.0 as int));
    if actual.0 < types.len() {
        assert(parts_below(types[actual.0 as int], actual.0 as int));
        lemma_rebuilt(types, actual);
    }
    match (ty_data(types, pattern), ty_data(types, actual)) {
        (TyData::Param(parameter), _) => {
            lemma_bound_once(substitution, parameter, actual);
            let bound = bound_once(substitution, parameter, actual).0;
            assert(bound.lookup(parameter) == Some(actual));
        },
        (TyData::Nominal { arguments: left, .. }, TyData::Nominal { arguments: right, .. }) => {
            lemma_match_list_is_instance(
                types,
                left,
                right,
                substitution,
                large,
                pattern.0,
                actual.0,
            );
        },
        (TyData::Option(left), TyData::Option(right)) => {
            lemma_match_is_instance(types, left, right, substitution, large);
        },
        (TyData::TextMap(left), TyData::TextMap(right)) => {
            lemma_match_is_instance(types, left, right, substitution, large);
        },
        (
            TyData::Result { ok: left_ok, error: left_error },
            TyData::Result { ok: right_ok, error: right_error },
        ) => {
            let between = matched(types, left_ok, right_ok, substitution).0;
            lemma_matched_extends(types, left_error, right_error, between);
            lemma_match_is_instance(types, left_ok, right_ok, substitution, large);
            lemma_match_is_instance(types, left_error, right_error, between, large);
        },
        _ => {
            law_one_name(types, pattern, actual);
            if closed_type(types, actual) {
                law_closed_types_stay(types, actual, large);
            }
        },
    }
}

proof fn lemma_match_list_is_instance(
    types: Seq<TyData>,
    left: Chain<TyId>,
    right: Chain<TyId>,
    substitution: Substitution,
    large: Substitution,
    limit: u32,
    actual_limit: u32,
)
    requires
        types_wf(types),
        limit <= types.len(),
        actual_limit <= types.len(),
        all_below(left, limit as int),
        all_below(right, actual_limit as int),
        left.spec_len() == right.spec_len(),
        plain_patterns(types, left, limit) || !any_unbound_param(
            types,
            right,
            Substitution::empty(),
            actual_limit,
        ),
        matched_list(types, left, right, substitution, limit).1,
        extends(large, matched_list(types, left, right, substitution, limit).0),
    ensures
        substituted_list(types, left, large, limit) == (types, right),
    decreases limit, 0nat, left.spec_len(),
{
    if left is Link && right is Link {
        let a = left->0.item;
        let b = right->0.item;
        let before_left = left.without_last();
        let before_right = right.without_last();
        let between = matched_list(types, before_left, before_right, substitution, limit).0;
        lemma_matched_extends(types, a, b, between);
        lemma_match_list_is_instance(
            types,
            before_left,
            before_right,
            substitution,
            large,
            limit,
            actual_limit,
        );
        lemma_match_is_instance(types, a, b, between, large);
        assert(right == before_right.pushed(b));
    }
}

/// A match makes the pattern an instance: with the matched substitution put
/// in, the pattern is the type that it was matched with. This holds whatever
/// the substitution held before, where matching looks through the whole
/// pattern or the type has no parameters.
pub proof fn law_match_is_instance(
    types: Seq<TyData>,
    pattern: TyId,
    actual: TyId,
    substitution: Substitution,
)
    requires
        types_wf(types),
        plain_pattern(types, pattern) || (pattern.0 < types.len() && actual.0 < types.len()
            && closed_type(types, actual)),
        matched(types, pattern, actual, substitution).1,
    ensures
        substituted(types, pattern, matched(types, pattern, actual, substitution).0) == (
            types,
            actual,
        ),
{
    lemma_match_is_instance(
        types,
        pattern,
        actual,
        substitution,
        matched(types, pattern, actual, substitution).0,
    );
}

/// Matching reaches the parameter in the pattern.
pub open spec fn reaches(types: Seq<TyData>, pattern: TyId, parameter: GenericParamId) -> bool
    decreases pattern.0, 1nat, 0nat,
    when types_wf(types)
{
    match ty_data(types, pattern) {
        TyData::Param(own) => own == parameter,
        TyData::Nominal { definition: _, arguments } => any_reaches(
            types,
            arguments,
            parameter,
            pattern.0,
        ),
        TyData::Option(element) => reaches(types, element, parameter),
        TyData::TextMap(value) => reaches(types, value, parameter),
        TyData::Result { ok, error } => reaches(types, ok, parameter) || reaches(
            types,
            error,
            parameter,
        ),
        _ => false,
    }
}

pub open spec fn any_reaches(
    types: Seq<TyData>,
    list: Chain<TyId>,
    parameter: GenericParamId,
    limit: u32,
) -> bool
    decreases limit, 0nat, list.spec_len(),
    when types_wf(types) && all_below(list, limit as int)
{
    match list {
        Chain::Empty => false,
        Chain::Link(link) => any_reaches(types, link.rest, parameter, limit) || reaches(
            types,
            link.item,
            parameter,
        ),
    }
}

proof fn lemma_matched_reaches(
    types: Seq<TyData>,
    pattern: TyId,
    actual: TyId,
    substitution: Substitution,
    parameter: GenericParamId,
)
    requires
        types_wf(types),
        !reaches(types, pattern, parameter),
    ensures
        matched(types, pattern, actual, substitution).0.lookup(parameter) == substitution.lookup(
            parameter,
        ),
    decreases pattern.0, 1nat, 0nat,
{
    if pattern.0 < types.len() {
        assert(parts_below(types[pattern.0 as int], pattern.0 as int));
        match (ty_data(types, pattern), ty_data(types, actual)) {
            (TyData::Param(own), _) => {
                law_substitution_reads_last_insert(substitution, own, actual, parameter);
            },
            (
                TyData::Nominal { arguments: left, .. },
                TyData::Nominal { arguments: right, .. },
            ) => lemma_matched_list_reaches(
                types,
                left,
                right,
                substitution,
                parameter,
                pattern.0,
            ),
            (TyData::Option(left), TyData::Option(right)) => lemma_matched_reaches(
                types,
                left,
                right,
                substitution,
                parameter,
            ),
            (TyData::TextMap(left), TyData::TextMap(right)) => lemma_matched_reaches(
                types,
                left,
                right,
                substitution,
                parameter,
            ),
            (
                TyData::Result { ok: left_ok, error: left_error },
                TyData::Result { ok: right_ok, error: right_error },
            ) => {
                lemma_matched_reaches(types, left_ok, right_ok, substitution, parameter);
                let between = matched(types, left_ok, right_ok, substitution).0;
                lemma_matched_reaches(types, left_error, right_error, between, parameter);
            },
            _ => {},
        }
    }
}

proof fn lemma_matched_list_reaches(
    types: Seq<TyData>,
    left: Chain<TyId>,
    right: Chain<TyId>,
    substitution: Substitution,
    parameter: GenericParamId,
    limit: u32,
)
    requires
        types_wf(types),
        all_below(left, limit as int),
        !any_reaches(types, left, parameter, limit),
    ensures
        matched_list(types, left, right, substitution, limit).0.lookup(parameter)
            == substitution.lookup(parameter),
    decreases limit, 0nat, left.spec_len(),
{
    if left is Link && right is Link {
        let a = left->0.item;
        let b = right->0.item;
        let before_left = left.without_last();
        let before_right = right.without_last();
        lemma_matched_list_reaches(
            types,
            before_left,
            before_right,
            substitution,
            parameter,
            limit,
        );
        let between = matched_list(types, before_left, before_right, substitution, limit).0;
        lemma_matched_reaches(types, a, b, between, parameter);
    }
}

/// Matching keeps the types that parameters stand for already, and gives a
/// type only to parameters of the pattern, whether it succeeds or not.
pub proof fn law_match_binds_its_parameters(
    types: Seq<TyData>,
    pattern: TyId,
    actual: TyId,
    substitution: Substitution,
    parameter: GenericParamId,
)
    requires
        types_wf(types),
    ensures
        substitution.lookup(parameter) is Some ==> matched(
            types,
            pattern,
            actual,
            substitution,
        ).0.lookup(parameter) == substitution.lookup(parameter),
        !reaches(types, pattern, parameter) ==> matched(
            types,
            pattern,
            actual,
            substitution,
        ).0.lookup(parameter) == substitution.lookup(parameter),
{
    lemma_matched_extends(types, pattern, actual, substitution);
    if !reaches(types, pattern, parameter) {
        lemma_matched_reaches(types, pattern, actual, substitution, parameter);
    }
}

/// No part of the type is the error type.
pub open spec fn error_free(types: Seq<TyData>, ty: TyId) -> bool
    decreases ty.0, 1nat, 0nat,
    when types_wf(types)
{
    match ty_data(types, ty) {
        TyData::Error => false,
        TyData::Nominal { definition: _, arguments } => all_error_free(types, arguments, ty.0),
        TyData::Tuple(elements) => all_error_free(types, elements, ty.0),
        TyData::Option(element) => error_free(types, element),
        TyData::Result { ok, error } => error_free(types, ok) && error_free(types, error),
        TyData::List(element) => error_free(types, element),
        TyData::TextMap(value) => error_free(types, value),
        TyData::Task(output) => error_free(types, output),
        TyData::TaskOutcome(output) => error_free(types, output),
        TyData::Projection { self_ty, concept: _, associated_type: _ } => error_free(
            types,
            self_ty,
        ),
        TyData::DynTarget(instance) => all_bindings_error_free(types, instance.bindings, ty.0),
        TyData::View { mutability: _, target } => error_free(types, target),
        TyData::Never | TyData::Builtin(_) | TyData::Param(_) | TyData::SelfType(_) => true,
    }
}

pub open spec fn all_error_free(types: Seq<TyData>, list: Chain<TyId>, limit: u32) -> bool
    decreases limit, 0nat, list.spec_len(),
    when types_wf(types) && all_below(list, limit as int)
{
    match list {
        Chain::Empty => true,
        Chain::Link(link) => all_error_free(types, link.rest, limit) && error_free(
            types,
            link.item,
        ),
    }
}

pub open spec fn all_bindings_error_free(
    types: Seq<TyData>,
    list: Chain<AssociatedTypeBinding>,
    limit: u32,
) -> bool
    decreases limit, 0nat, list.spec_len(),
    when types_wf(types) && bindings_below(list, limit as int)
{
    match list {
        Chain::Empty => true,
        Chain::Link(link) => all_bindings_error_free(types, link.rest, limit) && error_free(
            types,
            link.item.ty,
        ),
    }
}

/// A pattern that unification looks through: parameters and builtin types, and
/// tuples, options, text maps, results, tasks and declared types of such.
pub open spec fn open_pattern(types: Seq<TyData>, ty: TyId) -> bool
    decreases ty.0, 1nat, 0nat,
    when types_wf(types)
{
    match ty_data(types, ty) {
        TyData::Param(_) | TyData::Builtin(_) => true,
        TyData::Tuple(elements) => open_patterns(types, elements, ty.0),
        TyData::Nominal { definition: _, arguments } => open_patterns(types, arguments, ty.0),
        TyData::Option(element) => open_pattern(types, element),
        TyData::TextMap(value) => open_pattern(types, value),
        TyData::Task(output) => open_pattern(types, output),
        TyData::Result { ok, error } => open_pattern(types, ok) && open_pattern(types, error),
        _ => false,
    }
}

pub open spec fn open_patterns(types: Seq<TyData>, list: Chain<TyId>, limit: u32) -> bool
    decreases limit, 0nat, list.spec_len(),
    when types_wf(types) && all_below(list, limit as int)
{
    match list {
        Chain::Empty => true,
        Chain::Link(link) => open_patterns(types, link.rest, limit) && open_pattern(
            types,
            link.item,
        ),
    }
}

/// Unification keeps the types that parameters stand for already.
pub proof fn law_unification_keeps_bindings(
    types: Seq<TyData>,
    pattern: TyId,
    actual: TyId,
    substitution: Substitution,
)
    requires
        types_wf(types),
    ensures
        extends(unified(types, pattern, actual, substitution).0, substitution),
    decreases pattern.0, 1nat, 0nat,
{
    if pattern.0 < types.len() {
        assert(parts_below(types[pattern.0 as int], pattern.0 as int));
        match (ty_data(types, pattern), ty_data(types, actual)) {
            (_, TyData::Error) => {},
            (TyData::Param(parameter), _) => lemma_bound_once(substitution, parameter, actual),
            (TyData::Tuple(left), TyData::Tuple(right)) => lemma_unified_list_extends(
                types,
                left,
                right,
                substitution,
                pattern.0,
            ),
            (
                TyData::Nominal { arguments: left, .. },
                TyData::Nominal { arguments: right, .. },
            ) => lemma_unified_list_extends(types, left, right, substitution, pattern.0),
            (TyData::Option(left), TyData::Option(right)) => law_unification_keeps_bindings(
                types,
                left,
                right,
                substitution,
            ),
            (TyData::TextMap(left), TyData::TextMap(right)) => law_unification_keeps_bindings(
                types,
                left,
                right,
                substitution,
            ),
            (TyData::Task(left), TyData::Task(right)) => law_unification_keeps_bindings(
                types,
                left,
                right,
                substitution,
            ),
            (
                TyData::View { target: left, .. },
                TyData::View { target: right, .. },
            ) => law_unification_keeps_bindings(types, left, right, substitution),
            (
                TyData::Result { ok: left_ok, error: left_error },
                TyData::Result { ok: right_ok, error: right_error },
            ) => {
                law_unification_keeps_bindings(types, left_ok, right_ok, substitution);
                let between = unified(types, left_ok, right_ok, substitution).0;
                law_unification_keeps_bindings(types, left_error, right_error, between);
            },
            _ => {},
        }
    }
}

proof fn lemma_unified_list_extends(
    types: Seq<TyData>,
    left: Chain<TyId>,
    right: Chain<TyId>,
    substitution: Substitution,
    limit: u32,
)
    requires
        types_wf(types),
        all_below(left, limit as int),
    ensures
        extends(unified_list(types, left, right, substitution, limit).0, substitution),
    decreases limit, 0nat, left.spec_len(),
{
    if left is Link && right is Link {
        let a = left->0.item;
        let b = right->0.item;
        let before_left = left.without_last();
        let before_right = right.without_last();
        lemma_unified_list_extends(types, before_left, before_right, substitution, limit);
        let between = unified_list(types, before_left, before_right, substitution, limit).0;
        law_unification_keeps_bindings(types, a, b, between);
    }
}

proof fn lemma_unification_is_instance(
    types: Seq<TyData>,
    pattern: TyId,
    actual: TyId,
    substitution: Substitution,
    large: Substitution,
)
    requires
        types_wf(types),
        open_pattern(types, pattern),
        error_free(types, actual),
        unified(types, pattern, actual, substitution).1,
        extends(large, unified(types, pattern, actual, substitution).0),
    ensures
        substituted(types, pattern, large) == (types, actual),
    decreases pattern.0, 1nat, 0nat,
{
    assert(parts_below(types[pattern.0 as int], pattern.0 as int));
    assert(parts_below(types[actual.0 as int], actual.0 as int));
    lemma_rebuilt(types, actual);
    match (ty_data(types, pattern), ty_data(types, actual)) {
        (TyData::Param(parameter), _) => {
            lemma_bound_once(substitution, parameter, actual);
            let bound = bound_once(substitution, parameter, actual).0;
            assert(bound.lookup(parameter) == Some(actual));
        },
        (TyData::Tuple(left), TyData::Tuple(right)) => {
            lemma_unification_list_is_instance(
                types,
                left,
                right,
                substitution,
                large,
                pattern.0,
                actual.0,
            );
        },
        (TyData::Nominal { arguments: left, .. }, TyData::Nominal { arguments: right, .. }) => {
            lemma_unification_list_is_instance(
                types,
                left,
                right,
                substitution,
                large,
                pattern.0,
                actual.0,
            );
        },
        (TyData::Option(left), TyData::Option(right)) => {
            lemma_unification_is_instance(types, left, right, substitution, large);
        },
        (TyData::TextMap(left), TyData::TextMap(right)) => {
            lemma_unification_is_instance(types, left, right, substitution, large);
        },
        (TyData::Task(left), TyData::Task(right)) => {
            lemma_unification_is_instance(types, left, right, substitution, large);
        },
        (
            TyData::Result { ok: left_ok, error: left_error },
            TyData::Result { ok: right_ok, error: right_error },
        ) => {
            let between = unified(types, left_ok, right_ok, substitution).0;
            law_unification_keeps_bindings(types, left_error, right_error, between);
            lemma_unification_is_instance(types, left_ok, right_ok, substitution, large);
            lemma_unification_is_instance(types, left_error, right_error, between, large);
        },
        _ => {
            law_one_name(types, pattern, actual);
        },
    }
}

proof fn lemma_unification_list_is_instance(
    types: Seq<TyData>,
    left: Chain<TyId>,
    right: Chain<TyId>,
    substitution: Substitution,
    large: Substitution,
    limit: u32,
    actual_limit: u32,
)
    requires
        types_wf(types),
        limit <= types.len(),
        actual_limit <= types.len(),
        all_below(left, limit as int),
        all_below(right, actual_limit as int),
        left.spec_len() == right.spec_len(),
        open_patterns(types, left, limit),
        all_error_free(types, right, actual_limit),
        unified_list(types, left, right, substitution, limit).1,
        extends(large, unified_list(types, left, right, substitution, limit).0),
    ensures
        substituted_list(types, left, large, limit) == (types, right),
    decreases limit, 0nat, left.spec_len(),
{
    if left is Link && right is Link {
        let a = left->0.item;
        let b = right->0.item;
        let before_left = left.without_last();
        let before_right = right.without_last();
        let between = unified_list(types, before_left, before_right, substitution, limit).0;
        law_unification_keeps_bindings(types, a, b, between);
        lemma_unification_list_is_instance(
            types,
            before_left,
            before_right,
            substitution,
            large,
            limit,
            actual_limit,
        );
        lemma_unification_is_instance(types, a, b, between, large);
        assert(right == before_right.pushed(b));
    }
}

/// Where a declared type unifies with an actual one, it is the actual type
/// once the parameters are replaced by what unification found, unless an error
/// stands somewhere in the actual type.
pub proof fn law_unification_is_instance(
    types: Seq<TyData>,
    pattern: TyId,
    actual: TyId,
    substitution: Substitution,
)
    requires
        types_wf(types),
        open_pattern(types, pattern),
        error_free(types, actual),
        unified(types, pattern, actual, substitution).1,
    ensures
        substituted(types, pattern, unified(types, pattern, actual, substitution).0) == (
            types,
            actual,
        ),
{
    lemma_unification_is_instance(
        types,
        pattern,
        actual,
        substitution,
        unified(types, pattern, actual, substitution).0,
    );
}

} // verus!
