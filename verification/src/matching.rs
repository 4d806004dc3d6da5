//! An implementation has the signature that its requirement asks for.

use vstd::multiset::Multiset;
use vstd::prelude::*;

use crate::chain::{lemma_len, Chain};
use crate::conformance::Goal;
use crate::growth::{grows, lemma_interned, lemma_substituted, stands_for};
use crate::ids::{DefId, GenericParamId, ParamId, TyId};
use crate::images::{
    becomes,
    by_instance,
    by_substitution,
    law_instantiation_replaces,
    law_one_image,
    law_substitution_replaces,
    lemma_becomes_later,
};
use crate::implement::{
    goal_removed,
    has_no_contracts,
    params_match,
    renaming,
    required_bindings,
    required_bounds,
    required_type,
    same_goals,
};
use crate::semantics::{CallableSignature, Signature};
use crate::substitution::{law_substitution_reads_last_insert, Substitution};
use crate::resolve::Sources;
use crate::survey::Survey;
use crate::ty::{
    bindings_below, interned_ty, law_intern, lemma_bindings_below_more, types_wf,
    AssociatedTypeBinding, ConceptInstance, TyData,
};
use crate::unify::instantiated;

verus! {

/// `actual` is the type `ty` of a requirement after the target stands for
/// `Self`, what the concept's instance binds for its associated types, and the
/// implementation's own parameters for those of the requirement.
pub open spec fn required_as(
    types: Seq<TyData>,
    ty: TyId,
    actual: TyId,
    target: TyId,
    concept: ConceptInstance,
    alpha: Substitution,
) -> bool {
    exists|own: TyId| #[trigger]
        becomes(types, ty, own, by_instance(target, concept, true)) && own.0 < types.len()
            && becomes(types, own, actual, by_substitution(alpha))
}

/// What a signature is compared under is made of types of the table.
pub open spec fn in_table(
    types: Seq<TyData>,
    target: TyId,
    concept: ConceptInstance,
    alpha: Substitution,
) -> bool {
    &&& types_wf(types)
    &&& target.0 < types.len()
    &&& bindings_below(concept.bindings, types.len() as int)
    &&& stands_for(types, alpha)
}

proof fn lemma_in_table_later(
    types: Seq<TyData>,
    more: Seq<TyData>,
    target: TyId,
    concept: ConceptInstance,
    alpha: Substitution,
)
    requires
        in_table(types, target, concept, alpha),
        types_wf(more),
        grows(types, more),
    ensures
        in_table(more, target, concept, alpha),
{
    lemma_bindings_below_more(concept.bindings, types.len() as int, more.len() as int);
    assert forall|parameter: GenericParamId|
        match #[trigger] alpha.lookup(parameter) {
            Some(ty) => ty.0 < more.len(),
            None => true,
        } by {}
}

proof fn lemma_required_later(
    types: Seq<TyData>,
    more: Seq<TyData>,
    ty: TyId,
    actual: TyId,
    target: TyId,
    concept: ConceptInstance,
    alpha: Substitution,
)
    requires
        types_wf(types),
        types_wf(more),
        grows(types, more),
        ty.0 < types.len(),
        required_as(types, ty, actual, target, concept, alpha),
    ensures
        required_as(more, ty, actual, target, concept, alpha),
{
    let puts = by_instance(target, concept, true);
    let own = choose|own: TyId| #[trigger]
        becomes(types, ty, own, puts) && own.0 < types.len() && becomes(
            types,
            own,
            actual,
            by_substitution(alpha),
        );
    lemma_becomes_later(types, more, ty, own, puts);
    lemma_becomes_later(types, more, own, actual, by_substitution(alpha));
}

/// A type of a requirement has one form that its implementation must have.
pub proof fn law_one_required_form(
    types: Seq<TyData>,
    ty: TyId,
    left: TyId,
    right: TyId,
    target: TyId,
    concept: ConceptInstance,
    alpha: Substitution,
)
    requires
        types_wf(types),
        required_as(types, ty, left, target, concept, alpha),
        required_as(types, ty, right, target, concept, alpha),
    ensures
        left == right,
{
    let puts = by_instance(target, concept, true);
    let a = choose|own: TyId| #[trigger]
        becomes(types, ty, own, puts) && own.0 < types.len() && becomes(
            types,
            own,
            left,
            by_substitution(alpha),
        );
    let b = choose|own: TyId| #[trigger]
        becomes(types, ty, own, puts) && own.0 < types.len() && becomes(
            types,
            own,
            right,
            by_substitution(alpha),
        );
    law_one_image(types, ty, a, b, puts);
    law_one_image(types, a, left, right, by_substitution(alpha));
}

/// The form that an implementation must have is the one that is computed.
pub proof fn law_required_form(
    types: Seq<TyData>,
    ty: TyId,
    target: TyId,
    concept: ConceptInstance,
    alpha: Substitution,
)
    requires
        in_table(types, target, concept, alpha),
        ty.0 < types.len(),
        required_type(types, ty, target, concept, alpha).0.len() < u32::MAX,
    ensures
        ({
            let (after, form) = required_type(types, ty, target, concept, alpha);
            &&& types_wf(after)
            &&& grows(types, after)
            &&& form.0 < after.len()
            &&& required_as(after, ty, form, target, concept, alpha)
        }),
{
    let puts = by_instance(target, concept, true);
    let (between, own) = instantiated(types, ty, target, concept, true);
    let (after, form) = required_type(types, ty, target, concept, alpha);
    crate::images::lemma_instantiated(types, ty, target, concept, true);
    lemma_substituted(between, own, alpha);
    law_instantiation_replaces(types, ty, target, concept, true);
    lemma_in_table_later(types, between, target, concept, alpha);
    law_substitution_replaces(between, own, alpha);
    lemma_becomes_later(between, after, ty, own, puts);
}

/// Every parameter of a list has a type of the table.
pub open spec fn params_below(params: Chain<(ParamId, TyId)>, limit: int) -> bool
    decreases params,
{
    match params {
        Chain::Empty => true,
        Chain::Link(link) => params_below(link.rest, limit) && link.item.1.0 < limit,
    }
}

pub proof fn lemma_params_below(params: Chain<(ParamId, TyId)>, limit: int, index: int)
    requires
        params_below(params, limit),
        0 <= index < params.seq().len(),
    ensures
        params.seq()[index].1.0 < limit,
    decreases params,
{
    if params is Link {
        if index < params.without_last().seq().len() {
            lemma_params_below(params.without_last(), limit, index);
        }
    }
}

proof fn lemma_params_table(
    types: Seq<TyData>,
    required: Chain<(ParamId, TyId)>,
    actual: Chain<(ParamId, TyId)>,
    target: TyId,
    concept: ConceptInstance,
    alpha: Substitution,
)
    requires
        types_wf(types),
    ensures
        types_wf(params_match(types, required, actual, target, concept, alpha).0),
        grows(types, params_match(types, required, actual, target, concept, alpha).0),
    decreases required,
{
    if required is Link && actual is Link {
        let rest = required.without_last();
        let last = required->0.item.1;
        lemma_params_table(types, rest, actual.without_last(), target, concept, alpha);
        let between = params_match(
            types,
            rest,
            actual.without_last(),
            target,
            concept,
            alpha,
        ).0;
        crate::images::lemma_instantiated(between, last, target, concept, true);
        let (next, own) = instantiated(between, last, target, concept, true);
        lemma_substituted(next, own, alpha);
    }
}

/// The types of the parameters of an implementation are accepted exactly if at
/// every position the parameter has the form that the requirement's parameter
/// at that position must have.
pub proof fn law_parameters_have_the_required_types(
    types: Seq<TyData>,
    required: Chain<(ParamId, TyId)>,
    actual: Chain<(ParamId, TyId)>,
    target: TyId,
    concept: ConceptInstance,
    alpha: Substitution,
)
    requires
        in_table(types, target, concept, alpha),
        required.seq().len() == actual.seq().len(),
        params_below(required, types.len() as int),
        params_match(types, required, actual, target, concept, alpha).0.len() < u32::MAX,
    ensures
        ({
            let (after, accepted) = params_match(types, required, actual, target, concept, alpha);
            &&& types_wf(after)
            &&& grows(types, after)
            &&& accepted <==> forall|i: int|
                0 <= i < required.seq().len() ==> required_as(
                    after,
                    #[trigger] required.seq()[i].1,
                    actual.seq()[i].1,
                    target,
                    concept,
                    alpha,
                )
        }),
    decreases required,
{
    let (after, accepted) = params_match(types, required, actual, target, concept, alpha);
    lemma_params_table(types, required, actual, target, concept, alpha);
    if required is Link {
        let before = required.without_last();
        let others = actual.without_last();
        let last = required->0.item.1;
        let given = actual->0.item.1;
        let count = before.seq().len() as int;
        let (between, same) = params_match(types, before, others, target, concept, alpha);
        lemma_params_table(types, before, others, target, concept, alpha);
        crate::images::lemma_instantiated(between, last, target, concept, true);
        let (next, own) = instantiated(between, last, target, concept, true);
        lemma_substituted(next, own, alpha);
        assert(between.len() <= after.len());
        law_parameters_have_the_required_types(types, before, others, target, concept, alpha);
        assert(required.seq() == before.seq().push(required->0.item));
        assert(actual.seq() == others.seq().push(actual->0.item));
        assert(required.seq()[count].1 == last && actual.seq()[count].1 == given);
        if same {
            lemma_in_table_later(types, between, target, concept, alpha);
            law_required_form(between, last, target, concept, alpha);
            let form = required_type(between, last, target, concept, alpha).1;
            assert forall|i: int| 0 <= i < count implies required_as(
                after,
                #[trigger] required.seq()[i].1,
                actual.seq()[i].1,
                target,
                concept,
                alpha,
            ) by {
                assert(before.seq()[i] == required.seq()[i]);
                assert(others.seq()[i] == actual.seq()[i]);
                lemma_params_below(required, types.len() as int, i);
                lemma_required_later(
                    between,
                    after,
                    before.seq()[i].1,
                    others.seq()[i].1,
                    target,
                    concept,
                    alpha,
                );
            }
            if required_as(after, last, given, target, concept, alpha) {
                law_one_required_form(after, last, form, given, target, concept, alpha);
            }
        } else {
            let i = choose|i: int|
                0 <= i < before.seq().len() && !required_as(
                    after,
                    #[trigger] before.seq()[i].1,
                    others.seq()[i].1,
                    target,
                    concept,
                    alpha,
                );
            assert(before.seq()[i] == required.seq()[i]);
            assert(others.seq()[i] == actual.seq()[i]);
        }
    }
}

proof fn lemma_renamed_table(
    types: Seq<TyData>,
    required: Chain<GenericParamId>,
    actual: Chain<GenericParamId>,
)
    requires
        types_wf(types),
    ensures
        types_wf(renaming(types, required, actual).0),
        grows(types, renaming(types, required, actual).0),
        stands_for(renaming(types, required, actual).0, renaming(types, required, actual).1),
    decreases required,
{
    if required is Link && actual is Link {
        lemma_renamed_table(types, required.without_last(), actual.without_last());
        let (between, known) = renaming(types, required.without_last(), actual.without_last());
        let from = required->0.item;
        let data = TyData::Param(actual->0.item);
        lemma_interned(between, data);
        let (after, alpha) = renaming(types, required, actual);
        let ty = interned_ty(between, data);
        if between.contains(data) {
            assert(between[between.index_of(data)] == data);
        }
        assert(ty.0 < after.len());
        assert forall|parameter: GenericParamId|
            match #[trigger] alpha.lookup(parameter) {
                Some(ty) => ty.0 < after.len(),
                None => true,
            } by {
            law_substitution_reads_last_insert(known, from, ty, parameter);
        }
    }
}

/// The generic parameters of a requirement are renamed to those of its
/// implementation: each becomes the one at its own position.
pub proof fn law_parameters_are_renamed(
    types: Seq<TyData>,
    required: Chain<GenericParamId>,
    actual: Chain<GenericParamId>,
    index: int,
)
    requires
        types_wf(types),
        required.seq().len() == actual.seq().len(),
        0 <= index < required.seq().len(),
        forall|i: int, j: int|
            0 <= i < j < required.seq().len() ==> required.seq()[i] != required.seq()[j],
        renaming(types, required, actual).0.len() < u32::MAX,
    ensures
        ({
            let (after, alpha) = renaming(types, required, actual);
            match alpha.lookup(required.seq()[index]) {
                Some(ty) => ty.0 < after.len() && after[ty.0 as int] == TyData::Param(
                    actual.seq()[index],
                ),
                None => false,
            }
        }),
    decreases required,
{
    let before = required.without_last();
    let others = actual.without_last();
    let from = required->0.item;
    let to = actual->0.item;
    let data = TyData::Param(to);
    let (between, known) = renaming(types, before, others);
    lemma_renamed_table(types, before, others);
    lemma_renamed_table(types, required, actual);
    lemma_interned(between, data);
    law_intern(between, data);
    let ty = interned_ty(between, data);
    if between.contains(data) {
        assert(between[between.index_of(data)] == data);
    }
    assert(required.seq() == before.seq().push(from));
    assert(actual.seq() == others.seq().push(to));
    law_substitution_reads_last_insert(known, from, ty, required.seq()[index]);
    if index < before.seq().len() {
        assert(required.seq()[index] == before.seq()[index]);
        assert(actual.seq()[index] == others.seq()[index]);
        assert forall|i: int, j: int| 0 <= i < j < before.seq().len() implies before.seq()[i]
            != before.seq()[j] by {
            assert(required.seq()[i] == before.seq()[i]);
            assert(required.seq()[j] == before.seq()[j]);
        }
        law_parameters_are_renamed(types, before, others, index);
        assert(required.seq()[index] != required.seq()[before.seq().len() as int]);
    }
}

proof fn lemma_goal_removed(list: Chain<Goal>, goal: Goal)
    ensures
        match goal_removed(list, goal) {
            Some(rest) => list.seq().to_multiset() == rest.seq().to_multiset().insert(goal),
            None => list.seq().to_multiset().count(goal) == 0,
        },
    decreases list,
{
    broadcast use vstd::seq_lib::group_to_multiset_ensures;

    if list is Link {
        let last = list->0.item;
        let rest = list.without_last();
        lemma_goal_removed(rest, goal);
        assert(list.seq() == rest.seq().push(last));
        assert(list.seq().to_multiset() =~= rest.seq().to_multiset().insert(last));
        if last != goal {
            match goal_removed(rest, goal) {
                Some(shorter) => {
                    assert(shorter.pushed(last).seq() == shorter.seq().push(last));
                    assert(shorter.pushed(last).seq().to_multiset()
                        =~= shorter.seq().to_multiset().insert(last));
                    assert(list.seq().to_multiset() =~= shorter.pushed(
                        last,
                    ).seq().to_multiset().insert(goal));
                },
                None => {},
            }
        }
    }
}

/// Two lists of bounds are the same exactly if they hold the same bounds, each
/// equally often, in whatever order.
pub proof fn law_bounds_in_any_order(left: Chain<Goal>, right: Chain<Goal>)
    ensures
        same_goals(left, right) <==> left.seq().to_multiset() == right.seq().to_multiset(),
    decreases left,
{
    broadcast use vstd::seq_lib::group_to_multiset_ensures;

    match left {
        Chain::Empty => {
            if right is Link {
                assert(right.seq().len() > 0);
                assert(right.seq().to_multiset().len() == right.seq().len());
                assert(left.seq().to_multiset().len() == 0);
            }
        },
        Chain::Link(link) => {
            let goal = link.item;
            let rest = left.without_last();
            lemma_goal_removed(right, goal);
            assert(left.seq() == rest.seq().push(goal));
            assert(left.seq().to_multiset() =~= rest.seq().to_multiset().insert(goal));
            match goal_removed(right, goal) {
                Some(shorter) => {
                    law_bounds_in_any_order(rest, shorter);
                    if left.seq().to_multiset() == right.seq().to_multiset() {
                        assert(rest.seq().to_multiset() =~= left.seq().to_multiset().remove(goal));
                        assert(shorter.seq().to_multiset() =~= right.seq().to_multiset().remove(
                            goal,
                        ));
                    }
                },
                None => {
                    assert(left.seq().to_multiset().count(goal) >= 1);
                },
            }
        },
    }
}

/// What a requirement binds, in the form that the implementation must bind it.
pub open spec fn bindings_required(
    types: Seq<TyData>,
    list: Chain<AssociatedTypeBinding>,
    forms: Chain<AssociatedTypeBinding>,
    target: TyId,
    concept: ConceptInstance,
    alpha: Substitution,
) -> bool
    decreases list,
{
    match (list, forms) {
        (Chain::Empty, Chain::Empty) => true,
        (Chain::Link(a), Chain::Link(b)) => {
            &&& bindings_required(types, a.rest, b.rest, target, concept, alpha)
            &&& a.item.associated_type == b.item.associated_type
            &&& required_as(types, a.item.ty, b.item.ty, target, concept, alpha)
        },
        _ => false,
    }
}

/// The bounds of a requirement, each in the form that the implementation must
/// have it.
pub open spec fn bounds_required(
    types: Seq<TyData>,
    list: Chain<Goal>,
    forms: Chain<Goal>,
    target: TyId,
    concept: ConceptInstance,
    alpha: Substitution,
) -> bool
    decreases list,
{
    match (list, forms) {
        (Chain::Empty, Chain::Empty) => true,
        (Chain::Link(a), Chain::Link(b)) => {
            &&& bounds_required(types, a.rest, b.rest, target, concept, alpha)
            &&& a.item.concept.concept == b.item.concept.concept
            &&& required_as(types, a.item.self_ty, b.item.self_ty, target, concept, alpha)
            &&& bindings_required(
                types,
                a.item.concept.bindings,
                b.item.concept.bindings,
                target,
                concept,
                alpha,
            )
        },
        _ => false,
    }
}

/// Every type of a list of bounds is a type of the table.
pub open spec fn goals_below(list: Chain<Goal>, limit: int) -> bool
    decreases list,
{
    match list {
        Chain::Empty => true,
        Chain::Link(link) => goals_below(link.rest, limit) && link.item.self_ty.0 < limit
            && bindings_below(link.item.concept.bindings, limit),
    }
}

proof fn lemma_bindings_required_later(
    types: Seq<TyData>,
    more: Seq<TyData>,
    list: Chain<AssociatedTypeBinding>,
    forms: Chain<AssociatedTypeBinding>,
    target: TyId,
    concept: ConceptInstance,
    alpha: Substitution,
)
    requires
        types_wf(types),
        types_wf(more),
        grows(types, more),
        bindings_below(list, types.len() as int),
        bindings_required(types, list, forms, target, concept, alpha),
    ensures
        bindings_required(more, list, forms, target, concept, alpha),
    decreases list,
{
    if list is Link {
        let a = list->0.item.ty;
        let b = forms->0.item.ty;
        lemma_bindings_required_later(
            types,
            more,
            list.without_last(),
            forms.without_last(),
            target,
            concept,
            alpha,
        );
        lemma_required_later(types, more, a, b, target, concept, alpha);
    }
}

proof fn lemma_bounds_required_later(
    types: Seq<TyData>,
    more: Seq<TyData>,
    list: Chain<Goal>,
    forms: Chain<Goal>,
    target: TyId,
    concept: ConceptInstance,
    alpha: Substitution,
)
    requires
        types_wf(types),
        types_wf(more),
        grows(types, more),
        goals_below(list, types.len() as int),
        bounds_required(types, list, forms, target, concept, alpha),
    ensures
        bounds_required(more, list, forms, target, concept, alpha),
    decreases list,
{
    if list is Link {
        let a = list->0.item;
        let b = forms->0.item;
        lemma_bounds_required_later(
            types,
            more,
            list.without_last(),
            forms.without_last(),
            target,
            concept,
            alpha,
        );
        lemma_required_later(types, more, a.self_ty, b.self_ty, target, concept, alpha);
        lemma_bindings_required_later(
            types,
            more,
            a.concept.bindings,
            b.concept.bindings,
            target,
            concept,
            alpha,
        );
    }
}

proof fn lemma_one_binding_form(
    types: Seq<TyData>,
    list: Chain<AssociatedTypeBinding>,
    left: Chain<AssociatedTypeBinding>,
    right: Chain<AssociatedTypeBinding>,
    target: TyId,
    concept: ConceptInstance,
    alpha: Substitution,
)
    requires
        types_wf(types),
        bindings_required(types, list, left, target, concept, alpha),
        bindings_required(types, list, right, target, concept, alpha),
    ensures
        left == right,
    decreases list,
{
    if list is Link {
        let a = list->0.item.ty;
        let b = left->0.item.ty;
        let c = right->0.item.ty;
        lemma_one_binding_form(
            types,
            list.without_last(),
            left.without_last(),
            right.without_last(),
            target,
            concept,
            alpha,
        );
        law_one_required_form(types, a, b, c, target, concept, alpha);
    }
}

proof fn lemma_one_bound_form(
    types: Seq<TyData>,
    list: Chain<Goal>,
    left: Chain<Goal>,
    right: Chain<Goal>,
    target: TyId,
    concept: ConceptInstance,
    alpha: Substitution,
)
    requires
        types_wf(types),
        bounds_required(types, list, left, target, concept, alpha),
        bounds_required(types, list, right, target, concept, alpha),
    ensures
        left == right,
    decreases list,
{
    if list is Link {
        let a = list->0.item;
        let b = left->0.item;
        let c = right->0.item;
        lemma_one_bound_form(
            types,
            list.without_last(),
            left.without_last(),
            right.without_last(),
            target,
            concept,
            alpha,
        );
        law_one_required_form(types, a.self_ty, b.self_ty, c.self_ty, target, concept, alpha);
        lemma_one_binding_form(
            types,
            a.concept.bindings,
            b.concept.bindings,
            c.concept.bindings,
            target,
            concept,
            alpha,
        );
    }
}

proof fn lemma_required_table(
    types: Seq<TyData>,
    ty: TyId,
    target: TyId,
    concept: ConceptInstance,
    alpha: Substitution,
)
    requires
        types_wf(types),
    ensures
        types_wf(required_type(types, ty, target, concept, alpha).0),
        grows(types, required_type(types, ty, target, concept, alpha).0),
{
    crate::images::lemma_instantiated(types, ty, target, concept, true);
    let (next, own) = instantiated(types, ty, target, concept, true);
    lemma_substituted(next, own, alpha);
}

proof fn lemma_binding_forms_table(
    types: Seq<TyData>,
    list: Chain<AssociatedTypeBinding>,
    target: TyId,
    concept: ConceptInstance,
    alpha: Substitution,
)
    requires
        types_wf(types),
    ensures
        types_wf(required_bindings(types, list, target, concept, alpha).0),
        grows(types, required_bindings(types, list, target, concept, alpha).0),
    decreases list,
{
    if list is Link {
        let last = list->0.item.ty;
        lemma_binding_forms_table(types, list.without_last(), target, concept, alpha);
        let between = required_bindings(types, list.without_last(), target, concept, alpha).0;
        lemma_required_table(between, last, target, concept, alpha);
    }
}

proof fn lemma_binding_forms(
    types: Seq<TyData>,
    list: Chain<AssociatedTypeBinding>,
    target: TyId,
    concept: ConceptInstance,
    alpha: Substitution,
)
    requires
        in_table(types, target, concept, alpha),
        bindings_below(list, types.len() as int),
        required_bindings(types, list, target, concept, alpha).0.len() < u32::MAX,
    ensures
        ({
            let (after, forms) = required_bindings(types, list, target, concept, alpha);
            &&& types_wf(after)
            &&& grows(types, after)
            &&& bindings_required(after, list, forms, target, concept, alpha)
        }),
    decreases list,
{
    if list is Link {
        let last = list->0.item.ty;
        let rest = list.without_last();
        lemma_binding_forms_table(types, rest, target, concept, alpha);
        let (between, before) = required_bindings(types, rest, target, concept, alpha);
        lemma_required_table(between, last, target, concept, alpha);
        let after = required_type(between, last, target, concept, alpha).0;
        lemma_binding_forms(types, rest, target, concept, alpha);
        lemma_in_table_later(types, between, target, concept, alpha);
        law_required_form(between, last, target, concept, alpha);
        lemma_bindings_below_more(rest, types.len() as int, between.len() as int);
        lemma_bindings_required_later(between, after, rest, before, target, concept, alpha);
    }
}

proof fn lemma_goals_below_more(list: Chain<Goal>, limit: int, more: int)
    requires
        goals_below(list, limit),
        limit <= more,
    ensures
        goals_below(list, more),
    decreases list,
{
    if list is Link {
        let last = list->0.item;
        lemma_goals_below_more(list.without_last(), limit, more);
        lemma_bindings_below_more(last.concept.bindings, limit, more);
    }
}

proof fn lemma_bound_forms_table(
    types: Seq<TyData>,
    list: Chain<Goal>,
    target: TyId,
    concept: ConceptInstance,
    alpha: Substitution,
)
    requires
        types_wf(types),
    ensures
        types_wf(required_bounds(types, list, target, concept, alpha).0),
        grows(types, required_bounds(types, list, target, concept, alpha).0),
    decreases list,
{
    if list is Link {
        let last = list->0.item;
        lemma_bound_forms_table(types, list.without_last(), target, concept, alpha);
        let first = required_bounds(types, list.without_last(), target, concept, alpha).0;
        lemma_required_table(first, last.self_ty, target, concept, alpha);
        let second = required_type(first, last.self_ty, target, concept, alpha).0;
        lemma_binding_forms_table(second, last.concept.bindings, target, concept, alpha);
    }
}

proof fn lemma_bound_forms(
    types: Seq<TyData>,
    list: Chain<Goal>,
    target: TyId,
    concept: ConceptInstance,
    alpha: Substitution,
)
    requires
        in_table(types, target, concept, alpha),
        goals_below(list, types.len() as int),
        required_bounds(types, list, target, concept, alpha).0.len() < u32::MAX,
    ensures
        ({
            let (after, forms) = required_bounds(types, list, target, concept, alpha);
            &&& types_wf(after)
            &&& grows(types, after)
            &&& bounds_required(after, list, forms, target, concept, alpha)
        }),
    decreases list,
{
    if list is Link {
        let last = list->0.item;
        let rest = list.without_last();
        lemma_bound_forms_table(types, rest, target, concept, alpha);
        let (first, before) = required_bounds(types, rest, target, concept, alpha);
        lemma_required_table(first, last.self_ty, target, concept, alpha);
        let (second, form) = required_type(first, last.self_ty, target, concept, alpha);
        let bindings = last.concept.bindings;
        lemma_binding_forms_table(second, bindings, target, concept, alpha);
        let (third, bound) = required_bindings(second, bindings, target, concept, alpha);
        assert(first.len() <= second.len() <= third.len());
        lemma_bound_forms(types, rest, target, concept, alpha);
        lemma_in_table_later(types, first, target, concept, alpha);
        law_required_form(first, last.self_ty, target, concept, alpha);
        lemma_in_table_later(first, second, target, concept, alpha);
        lemma_bindings_below_more(bindings, types.len() as int, second.len() as int);
        lemma_binding_forms(second, bindings, target, concept, alpha);
        lemma_goals_below_more(rest, types.len() as int, first.len() as int);
        lemma_bounds_required_later(first, second, rest, before, target, concept, alpha);
        lemma_goals_below_more(rest, types.len() as int, second.len() as int);
        lemma_bounds_required_later(second, third, rest, before, target, concept, alpha);
        lemma_required_later(second, third, last.self_ty, form, target, concept, alpha);
    }
}

/// The types of a signature are types of the table.
pub open spec fn signature_below(signature: CallableSignature, limit: int) -> bool {
    &&& params_below(signature.params, limit)
    &&& signature.return_ty.0 < limit
    &&& goals_below(signature.call_bounds, limit)
}

/// In a table of types, the signature of an implementation is the one that its
/// requirement asks for, under a renaming of the requirement's own generic
/// parameters.
pub open spec fn has_required_form(
    types: Seq<TyData>,
    required: CallableSignature,
    actual: CallableSignature,
    target: TyId,
    concept: ConceptInstance,
    alpha: Substitution,
) -> bool {
    &&& required.receiver == actual.receiver
    &&& required.params.seq().len() == actual.params.seq().len()
    &&& required.call_generic_params.seq().len() == actual.call_generic_params.seq().len()
    &&& forall|i: int|
        0 <= i < required.params.seq().len() ==> required_as(
            types,
            #[trigger] required.params.seq()[i].1,
            actual.params.seq()[i].1,
            target,
            concept,
            alpha,
        )
    &&& required_as(types, required.return_ty, actual.return_ty, target, concept, alpha)
    &&& exists|forms: Chain<Goal>| #[trigger]
        bounds_required(types, required.call_bounds, forms, target, concept, alpha)
            && forms.seq().to_multiset() == actual.call_bounds.seq().to_multiset()
}

/// An implementation's signature is accepted for a requirement exactly if the
/// two have the same receiver and as many parameters and generic parameters,
/// every parameter and the result have the form that the requirement's must
/// have, the bounds are those of the requirement in any order, and the
/// implementation has no contracts of its own.
#[verifier::rlimit(40)]
pub proof fn law_accepted_signatures(
    s: Survey,
    cx: &Sources,
    requirement: DefId,
    implementation: DefId,
    target: TyId,
    concept: ConceptInstance,
    required: CallableSignature,
    actual: CallableSignature,
)
    requires
        s.wf(),
        s.signature_of(requirement) == Some(Signature::Callable(required)),
        s.signature_of(implementation) == Some(Signature::Callable(actual)),
        target.0 < s.names.types.len(),
        bindings_below(concept.bindings, s.names.types.len() as int),
        signature_below(required, s.names.types.len() as int),
        s.conformance_signatures_match(
            cx,
            requirement,
            implementation,
            target,
            concept,
        ).0.names.types.len() < u32::MAX,
    ensures
        ({
            let (after, accepted) = s.conformance_signatures_match(
                cx,
                requirement,
                implementation,
                target,
                concept,
            );
            let alpha = renaming(
                s.names.types,
                required.call_generic_params,
                actual.call_generic_params,
            ).1;
            &&& after.names.diagnostics == s.names.diagnostics
            &&& accepted <==> has_required_form(
                after.names.types,
                required,
                actual,
                target,
                concept,
                alpha,
            ) && has_no_contracts(cx.program, implementation)
        }),
{
    reveal(Survey::conformance_signatures_match);
    let types = s.names.types;
    let (after, accepted) = s.conformance_signatures_match(
        cx,
        requirement,
        implementation,
        target,
        concept,
    );
    lemma_len(required.params);
    lemma_len(actual.params);
    lemma_len(required.call_generic_params);
    lemma_len(actual.call_generic_params);
    if required.receiver == actual.receiver && required.params.spec_len()
        == actual.params.spec_len() && required.call_generic_params.spec_len()
        == actual.call_generic_params.spec_len() {
        let (first, alpha) = renaming(
            types,
            required.call_generic_params,
            actual.call_generic_params,
        );
        lemma_renamed_table(types, required.call_generic_params, actual.call_generic_params);
        lemma_bindings_below_more(concept.bindings, types.len() as int, first.len() as int);
        lemma_params_below_more(required.params, types.len() as int, first.len() as int);
        let (second, same) = params_match(
            first,
            required.params,
            actual.params,
            target,
            concept,
            alpha,
        );
        lemma_params_table(first, required.params, actual.params, target, concept, alpha);
        let (third, form) = required_type(second, required.return_ty, target, concept, alpha);
        lemma_required_table(second, required.return_ty, target, concept, alpha);
        let (fourth, forms) = required_bounds(
            third,
            required.call_bounds,
            target,
            concept,
            alpha,
        );
        lemma_bound_forms_table(third, required.call_bounds, target, concept, alpha);
        law_parameters_have_the_required_types(
            first,
            required.params,
            actual.params,
            target,
            concept,
            alpha,
        );
        if same {
            lemma_in_table_later(first, second, target, concept, alpha);
            law_required_form(second, required.return_ty, target, concept, alpha);
            lemma_params_below_more(required.params, first.len() as int, second.len() as int);
            lemma_params_later(
                second,
                after.names.types,
                required.params,
                actual.params,
                target,
                concept,
                alpha,
            );
            lemma_required_later(
                third,
                after.names.types,
                required.return_ty,
                form,
                target,
                concept,
                alpha,
            );
            if required_as(
                after.names.types,
                required.return_ty,
                actual.return_ty,
                target,
                concept,
                alpha,
            ) {
                law_one_required_form(
                    after.names.types,
                    required.return_ty,
                    form,
                    actual.return_ty,
                    target,
                    concept,
                    alpha,
                );
            }
            if form == actual.return_ty {
                lemma_in_table_later(second, third, target, concept, alpha);
                lemma_goals_below_more(
                    required.call_bounds,
                    types.len() as int,
                    third.len() as int,
                );
                lemma_bound_forms(third, required.call_bounds, target, concept, alpha);
                law_bounds_in_any_order(forms, actual.call_bounds);
                assert forall|others: Chain<Goal>| #[trigger]
                    bounds_required(
                        fourth,
                        required.call_bounds,
                        others,
                        target,
                        concept,
                        alpha,
                    ) implies others == forms by {
                    lemma_one_bound_form(
                        fourth,
                        required.call_bounds,
                        others,
                        forms,
                        target,
                        concept,
                        alpha,
                    );
                }
            }
        }
    }
}

pub proof fn lemma_params_below_more(params: Chain<(ParamId, TyId)>, limit: int, more: int)
    requires
        params_below(params, limit),
        limit <= more,
    ensures
        params_below(params, more),
    decreases params,
{
    if params is Link {
        lemma_params_below_more(params.without_last(), limit, more);
    }
}

proof fn lemma_params_later(
    types: Seq<TyData>,
    more: Seq<TyData>,
    required: Chain<(ParamId, TyId)>,
    actual: Chain<(ParamId, TyId)>,
    target: TyId,
    concept: ConceptInstance,
    alpha: Substitution,
)
    requires
        types_wf(types),
        types_wf(more),
        grows(types, more),
        params_below(required, types.len() as int),
        forall|i: int|
            0 <= i < required.seq().len() ==> required_as(
                types,
                #[trigger] required.seq()[i].1,
                actual.seq()[i].1,
                target,
                concept,
                alpha,
            ),
    ensures
        forall|i: int|
            0 <= i < required.seq().len() ==> required_as(
                more,
                #[trigger] required.seq()[i].1,
                actual.seq()[i].1,
                target,
                concept,
                alpha,
            ),
{
    assert forall|i: int| 0 <= i < required.seq().len() implies required_as(
        more,
        #[trigger] required.seq()[i].1,
        actual.seq()[i].1,
        target,
        concept,
        alpha,
    ) by {
        lemma_params_below(required, types.len() as int, i);
        lemma_required_later(
            types,
            more,
            required.seq()[i].1,
            actual.seq()[i].1,
            target,
            concept,
            alpha,
        );
    }
}

} // verus!
