//! Which implementation is selected where none has conditions.

use vstd::prelude::*;

#[allow(unused_imports)]
use crate::chain::Chain;
#[allow(unused_imports)]
use crate::coherence::lemma_bound_position;
#[allow(unused_imports)]
use crate::conformance::{
    bound_once, bucket_headers, matched, matched_list, Goal, ImplHeader, ImplIndex, ParamEnv,
    Prerequisites, SolveFailure, WitnessSelection, WitnessSource,
};
#[allow(unused_imports)]
use crate::growth::{grows, lemma_substituted, lemma_substituted_again, stands_for};
#[allow(unused_imports)]
use crate::ids::{DefId, GenericParamId, TyId};
#[allow(unused_imports)]
use crate::solver::{
    bindings_checked, bindings_substituted, has_goal, implementations_of, search_conditions,
    search_header, search_headers, solution, SEARCH_LIMIT,
};
#[allow(unused_imports)]
use crate::substitution::{law_substitution_reads_last_insert, Substitution};
#[allow(unused_imports)]
use crate::ty::{
    all_below, bindings_below, lemma_bindings_below_more, parts_below, ty_data, types_wf,
    AssociatedTypeBinding, TyData,
};

verus! {

/// Those of the implementations whose target the type matches, in order.
pub open spec fn applicable(
    types: Seq<TyData>,
    headers: Chain<ImplHeader>,
    ty: TyId,
) -> Chain<ImplHeader>
    decreases headers,
{
    match headers {
        Chain::Empty => Chain::Empty,
        Chain::Link(link) => {
            let before = applicable(types, link.rest, ty);
            if matched(types, link.item.target, ty, Substitution::empty()).1 {
                before.pushed(link.item)
            } else {
                before
            }
        },
    }
}

/// None of the implementations has conditions.
pub open spec fn unconditional(headers: Chain<ImplHeader>) -> bool
    decreases headers,
{
    match headers {
        Chain::Empty => true,
        Chain::Link(link) => unconditional(link.rest) && link.item.conditions is Empty,
    }
}

/// The implementations are made of types of the table.
pub open spec fn headers_fit(types: Seq<TyData>, headers: Chain<ImplHeader>) -> bool
    decreases headers,
{
    match headers {
        Chain::Empty => true,
        Chain::Link(link) => headers_fit(types, link.rest) && link.item.target.0 < types.len()
            && bindings_below(link.item.associated_types, types.len() as int),
    }
}

/// The definitions of implementations, in order.
pub open spec fn definitions_of(headers: Chain<ImplHeader>) -> Chain<DefId>
    decreases headers,
{
    match headers {
        Chain::Empty => Chain::Empty,
        Chain::Link(link) => definitions_of(link.rest).pushed(link.item.definition),
    }
}

proof fn lemma_matched_grows(
    types: Seq<TyData>,
    more: Seq<TyData>,
    pattern: TyId,
    actual: TyId,
    substitution: Substitution,
)
    requires
        types_wf(types),
        types_wf(more),
        grows(types, more),
        pattern.0 < types.len(),
        actual.0 < types.len(),
        stands_for(types, substitution),
    ensures
        matched(more, pattern, actual, substitution) == matched(
            types,
            pattern,
            actual,
            substitution,
        ),
        stands_for(types, matched(types, pattern, actual, substitution).0),
    decreases pattern.0, 1nat, 0nat,
{
    assert(parts_below(types[pattern.0 as int], pattern.0 as int));
    assert(parts_below(types[actual.0 as int], actual.0 as int));
    assert(types[pattern.0 as int] == more[pattern.0 as int]);
    assert(types[actual.0 as int] == more[actual.0 as int]);
    match (ty_data(types, pattern), ty_data(types, actual)) {
        (TyData::Param(parameter), _) => {
            let after = bound_once(substitution, parameter, actual).0;
            assert forall|any: GenericParamId|
                match #[trigger] after.lookup(any) {
                    Some(ty) => ty.0 < types.len(),
                    None => true,
                } by {
                law_substitution_reads_last_insert(substitution, parameter, actual, any);
                assert(substitution.lookup(any) is Some || substitution.lookup(any) is None);
            }
        },
        (
            TyData::Nominal { arguments: left, .. },
            TyData::Nominal { arguments: right, .. },
        ) => lemma_matched_list_grows(
            types,
            more,
            left,
            right,
            substitution,
            pattern.0,
            actual.0,
        ),
        (TyData::Option(left), TyData::Option(right)) => lemma_matched_grows(
            types,
            more,
            left,
            right,
            substitution,
        ),
        (TyData::TextMap(left), TyData::TextMap(right)) => lemma_matched_grows(
            types,
            more,
            left,
            right,
            substitution,
        ),
        (
            TyData::Result { ok: left_ok, error: left_error },
            TyData::Result { ok: right_ok, error: right_error },
        ) => {
            lemma_matched_grows(types, more, left_ok, right_ok, substitution);
            let between = matched(types, left_ok, right_ok, substitution).0;
            lemma_matched_grows(types, more, left_error, right_error, between);
        },
        _ => {},
    }
}

proof fn lemma_matched_list_grows(
    types: Seq<TyData>,
    more: Seq<TyData>,
    left: Chain<TyId>,
    right: Chain<TyId>,
    substitution: Substitution,
    limit: u32,
    actual_limit: u32,
)
    requires
        types_wf(types),
        types_wf(more),
        grows(types, more),
        limit <= types.len(),
        actual_limit <= types.len(),
        all_below(left, limit as int),
        all_below(right, actual_limit as int),
        stands_for(types, substitution),
    ensures
        matched_list(more, left, right, substitution, limit) == matched_list(
            types,
            left,
            right,
            substitution,
            limit,
        ),
        stands_for(types, matched_list(types, left, right, substitution, limit).0),
    decreases limit, 0nat, left.spec_len(),
{
    if left is Link && right is Link {
        let a = left->0.item;
        let b = right->0.item;
        let before_left = left.without_last();
        let before_right = right.without_last();
        lemma_matched_list_grows(
            types,
            more,
            before_left,
            before_right,
            substitution,
            limit,
            actual_limit,
        );
        let between = matched_list(types, before_left, before_right, substitution, limit).0;
        lemma_matched_grows(types, more, a, b, between);
    }
}

proof fn lemma_bindings_substituted(
    types: Seq<TyData>,
    bindings: Chain<AssociatedTypeBinding>,
    substitution: Substitution,
)
    requires
        types_wf(types),
    ensures
        types_wf(bindings_substituted(types, bindings, substitution).0),
        grows(types, bindings_substituted(types, bindings, substitution).0),
    decreases bindings,
{
    if bindings is Link {
        let rest = bindings.without_last();
        let ty = bindings->0.item.ty;
        lemma_bindings_substituted(types, rest, substitution);
        lemma_substituted(bindings_substituted(types, rest, substitution).0, ty, substitution);
    }
}

proof fn lemma_bindings_substituted_again(
    types: Seq<TyData>,
    bindings: Chain<AssociatedTypeBinding>,
    substitution: Substitution,
    more: Seq<TyData>,
)
    requires
        types_wf(types),
        types_wf(more),
        bindings_below(bindings, types.len() as int),
        stands_for(types, substitution),
        grows(bindings_substituted(types, bindings, substitution).0, more),
    ensures
        bindings_substituted(more, bindings, substitution) == (
            more,
            bindings_substituted(types, bindings, substitution).1,
        ),
    decreases bindings,
{
    if bindings is Link {
        let rest = bindings.without_last();
        let ty = bindings->0.item.ty;
        let between = bindings_substituted(types, rest, substitution).0;
        lemma_bindings_substituted(types, rest, substitution);
        lemma_substituted(between, ty, substitution);
        lemma_bindings_substituted_again(types, rest, substitution, more);
        lemma_substituted_again(between, ty, substitution, more);
    }
}

/// What the search through implementations finds where those that apply have
/// no conditions. `types` are those that it started from; it has come to
/// `now`.
proof fn lemma_search_headers(
    index: ImplIndex,
    environment: ParamEnv,
    types: Seq<TyData>,
    now: Seq<TyData>,
    stack: Chain<Goal>,
    goal: Goal,
    headers: Chain<ImplHeader>,
    fuel: nat,
) -> (witnesses: Chain<WitnessSelection>)
    requires
        types_wf(types),
        types_wf(now),
        grows(types, now),
        goal.self_ty.0 < types.len(),
        goal.concept.bindings is Empty,
        headers_fit(types, headers),
        unconditional(applicable(types, headers, goal.self_ty)),
    ensures
        ({
            let (after, found) = search_headers(
                index,
                environment,
                now,
                stack,
                goal,
                headers,
                fuel,
            );
            let known = applicable(types, headers, goal.self_ty);
            &&& found == Some(Ok::<Chain<WitnessSelection>, SolveFailure>(witnesses))
            &&& types_wf(after)
            &&& grows(now, after)
            &&& witnesses.spec_len() == known.spec_len()
            &&& implementations_of(witnesses) == definitions_of(known)
            &&& match (known, witnesses) {
                (Chain::Link(header), Chain::Link(witness)) => {
                    &&& witness.item.source == WitnessSource::Implementation(
                        header.item.definition,
                    )
                    &&& witness.item.substitution == matched(
                        types,
                        header.item.target,
                        goal.self_ty,
                        Substitution::empty(),
                    ).0
                    &&& witness.item.prerequisites == Prerequisites::Empty
                },
                _ => true,
            }
        }),
    decreases headers,
{
    if headers is Link {
        let rest = headers.without_last();
        let last = headers->0.item;
        let before = lemma_search_headers(
            index,
            environment,
            types,
            now,
            stack,
            goal,
            rest,
            fuel,
        );
        let between = search_headers(index, environment, now, stack, goal, rest, fuel).0;
        let empty = Substitution::empty();
        lemma_matched_grows(types, between, last.target, goal.self_ty, empty);
        let (substitution, applies) = matched(types, last.target, goal.self_ty, empty);
        if applies {
            assert(last.conditions is Empty);
            assert(search_conditions(
                index,
                environment,
                between,
                stack,
                last.conditions,
                substitution,
                fuel,
            ) == (between, Some(Ok::<Prerequisites, SolveFailure>(Prerequisites::Empty))));
            lemma_bindings_substituted(between, last.associated_types, substitution);
            let associated_types = bindings_substituted(
                between,
                last.associated_types,
                substitution,
            ).1;
            let witness = WitnessSelection {
                source: WitnessSource::Implementation(last.definition),
                substitution,
                associated_types,
                prerequisites: Prerequisites::Empty,
            };
            assert(bindings_checked(goal.concept.bindings, associated_types) == Ok::<
                (),
                SolveFailure,
            >(()));
            assert(search_header(index, environment, between, stack, goal, last, fuel).1 == Some(
                Ok::<Option<WitnessSelection>, SolveFailure>(Some(witness)),
            ));
            before.pushed(witness)
        } else {
            assert(search_header(index, environment, between, stack, goal, last, fuel) == (
                between,
                Some(Ok::<Option<WitnessSelection>, SolveFailure>(None)),
            ));
            before
        }
    } else {
        let none: Chain<WitnessSelection> = Chain::Empty;
        assert(headers == Chain::<ImplHeader>::Empty);
        assert(search_headers(index, environment, now, stack, goal, headers, fuel) == (
            now,
            Some(Ok::<Chain<WitnessSelection>, SolveFailure>(none)),
        ));
        none
    }
}

/// A search that is made again, whatever types came since, finds the same.
proof fn lemma_search_headers_again(
    index: ImplIndex,
    environment: ParamEnv,
    types: Seq<TyData>,
    now: Seq<TyData>,
    more: Seq<TyData>,
    stack: Chain<Goal>,
    goal: Goal,
    headers: Chain<ImplHeader>,
    fuel: nat,
)
    requires
        types_wf(types),
        types_wf(now),
        types_wf(more),
        grows(types, now),
        goal.self_ty.0 < types.len(),
        goal.concept.bindings is Empty,
        headers_fit(types, headers),
        unconditional(applicable(types, headers, goal.self_ty)),
        grows(search_headers(index, environment, now, stack, goal, headers, fuel).0, more),
    ensures
        search_headers(index, environment, more, stack, goal, headers, fuel) == (
            more,
            search_headers(index, environment, now, stack, goal, headers, fuel).1,
        ),
    decreases headers,
{
    if headers is Link {
        let rest = headers.without_last();
        let last = headers->0.item;
        let empty = Substitution::empty();
        let before = lemma_search_headers(
            index,
            environment,
            types,
            now,
            stack,
            goal,
            rest,
            fuel,
        );
        let between = search_headers(index, environment, now, stack, goal, rest, fuel).0;
        lemma_matched_grows(types, between, last.target, goal.self_ty, empty);
        let (substitution, applies) = matched(types, last.target, goal.self_ty, empty);
        let none = Some(Ok::<Prerequisites, SolveFailure>(Prerequisites::Empty));
        if applies {
            assert(last.conditions is Empty);
            assert(search_conditions(
                index,
                environment,
                between,
                stack,
                last.conditions,
                substitution,
                fuel,
            ) == (between, none));
            lemma_bindings_substituted(between, last.associated_types, substitution);
            let after = bindings_substituted(between, last.associated_types, substitution).0;
            let begun = search_header(index, environment, between, stack, goal, last, fuel);
            assert(begun.0 == after && begun.1 matches Some(Ok(Some(_))));
            assert(search_headers(index, environment, now, stack, goal, headers, fuel).0 == after);
            assert(grows(between, more));
            lemma_search_headers_again(
                index,
                environment,
                types,
                now,
                more,
                stack,
                goal,
                rest,
                fuel,
            );
            lemma_matched_grows(types, more, last.target, goal.self_ty, empty);
            assert(search_conditions(
                index,
                environment,
                more,
                stack,
                last.conditions,
                substitution,
                fuel,
            ) == (more, none));
            lemma_bindings_below_more(
                last.associated_types,
                types.len() as int,
                between.len() as int,
            );
            lemma_bindings_substituted_again(
                between,
                last.associated_types,
                substitution,
                more,
            );
            assert(search_header(index, environment, more, stack, goal, last, fuel) == (
                more,
                begun.1,
            ));
        } else {
            let begun = search_header(index, environment, between, stack, goal, last, fuel);
            assert(begun.0 == between && begun.1 matches Some(Ok(None)));
            assert(search_headers(index, environment, now, stack, goal, headers, fuel).0
                == between);
            lemma_search_headers_again(
                index,
                environment,
                types,
                now,
                more,
                stack,
                goal,
                rest,
                fuel,
            );
            lemma_matched_grows(types, more, last.target, goal.self_ty, empty);
            assert(search_header(index, environment, more, stack, goal, last, fuel) == (
                more,
                begun.1,
            ));
        }
    }
}

/// Where the goal is no bound, asks for no associated types, and the
/// implementations that it matches have no conditions: without such an
/// implementation it is missing, with one that one is selected, and with
/// several it is ambiguous between them, in the order of the index. Asking
/// again gives the same answer.
pub proof fn law_selection_without_conditions(
    index: ImplIndex,
    environment: ParamEnv,
    types: Seq<TyData>,
    goal: Goal,
)
    requires
        environment.bounds.spec_len() <= usize::MAX,
        types_wf(types),
        goal.self_ty.0 < types.len(),
        goal.concept.bindings is Empty,
        !environment.bounds.seq().contains(goal),
        headers_fit(types, bucket_headers(index.buckets, goal.concept.concept)),
        unconditional(
            applicable(types, bucket_headers(index.buckets, goal.concept.concept), goal.self_ty),
        ),
    ensures
        ({
            let (after, result) = solution(index, environment, types, Chain::Empty, goal);
            let known = applicable(
                types,
                bucket_headers(index.buckets, goal.concept.concept),
                goal.self_ty,
            );
            &&& match known {
                Chain::Empty => result == Err::<WitnessSelection, SolveFailure>(
                    SolveFailure::Missing,
                ),
                Chain::Link(header) => match result {
                    Ok(witness) => {
                        &&& header.rest is Empty
                        &&& witness.source == WitnessSource::Implementation(
                            header.item.definition,
                        )
                        &&& witness.substitution == matched(
                            types,
                            header.item.target,
                            goal.self_ty,
                            Substitution::empty(),
                        ).0
                        &&& witness.prerequisites == Prerequisites::Empty
                    },
                    Err(failure) => header.rest is Link && failure == SolveFailure::Ambiguous(
                        definitions_of(known),
                    ),
                },
            }
            &&& solution(index, environment, after, Chain::Empty, goal).1 == result
        }),
{
    lemma_bound_position(environment.bounds, goal);
    let headers = bucket_headers(index.buckets, goal.concept.concept);
    let known = applicable(types, headers, goal.self_ty);
    let stack = Chain::Empty.pushed(goal);
    let fuel = (SEARCH_LIMIT - 1) as nat;
    let witnesses = lemma_search_headers(
        index,
        environment,
        types,
        types,
        stack,
        goal,
        headers,
        fuel,
    );
    let after = search_headers(index, environment, types, stack, goal, headers, fuel).0;
    lemma_search_headers_again(
        index,
        environment,
        types,
        types,
        after,
        stack,
        goal,
        headers,
        fuel,
    );
    assert(!has_goal(Chain::Empty, goal));
    assert(solution(index, environment, types, Chain::Empty, goal).0 == after);
    reveal_with_fuel(Chain::spec_len, 3);
    if known is Link {
        assert(known.without_last().spec_len() == witnesses.without_last().spec_len());
    }
}

} // verus!
