//! The search for evidence that a type conforms to a concept.

use std::rc::Rc;
use vstd::prelude::*;

use crate::chain::{Chain, Duplicate, Same};
#[allow(unused_imports)]
use crate::conformance::{bucket_headers, matched};
use crate::conformance::{
    match_target, Goal, ImplHeader, ImplIndex, ParamEnv, Prerequisites, SolveFailure,
    WitnessSelection, WitnessSource,
};
#[allow(unused_imports)]
use crate::growth::{later, lemma_later_itself, lemma_later_through};
use crate::ids::{DefId, TyId};
#[allow(unused_imports)]
use crate::substitution::substituted;
use crate::substitution::Substitution;
use crate::ty::{AssociatedTypeBinding, ConceptInstance, TyInterner};
#[allow(unused_imports)]
use crate::ty::{types_wf, TyData};

verus! {

broadcast use {lemma_later_itself, lemma_later_through};

/// Whether `goal` is among `goals`.
pub open spec fn has_goal(goals: Chain<Goal>, goal: Goal) -> bool
    decreases goals,
{
    match goals {
        Chain::Empty => false,
        Chain::Link(link) => has_goal(link.rest, goal) || link.item == goal,
    }
}

/// The goals from the first that equals `goal` to the last.
pub open spec fn goals_from(goals: Chain<Goal>, goal: Goal) -> Chain<Goal>
    decreases goals,
{
    match goals {
        Chain::Empty => Chain::Empty,
        Chain::Link(link) => if has_goal(link.rest, goal) {
            goals_from(link.rest, goal).pushed(link.item)
        } else if link.item == goal {
            Chain::Empty.pushed(link.item)
        } else {
            Chain::Empty
        },
    }
}

/// The position of the first bound that equals `goal`.
pub open spec fn bound_position(bounds: Chain<Goal>, goal: Goal) -> Option<usize>
    decreases bounds,
{
    match bounds {
        Chain::Empty => None,
        Chain::Link(link) => match bound_position(link.rest, goal) {
            Some(position) => Some(position),
            None => if link.item == goal {
                Some(link.rest.count())
            } else {
                None
            },
        },
    }
}

/// The type that the last binding of `associated_type` gives.
pub open spec fn bound_type(
    bindings: Chain<AssociatedTypeBinding>,
    associated_type: DefId,
) -> Option<TyId>
    decreases bindings,
{
    match bindings {
        Chain::Empty => None,
        Chain::Link(link) => if link.item.associated_type == associated_type {
            Some(link.item.ty)
        } else {
            bound_type(link.rest, associated_type)
        },
    }
}

/// The first expected binding that `actual` does not have.
pub open spec fn bindings_checked(
    expected: Chain<AssociatedTypeBinding>,
    actual: Chain<AssociatedTypeBinding>,
) -> Result<(), SolveFailure>
    decreases expected,
{
    match expected {
        Chain::Empty => Ok(()),
        Chain::Link(link) => match bindings_checked(link.rest, actual) {
            Err(failure) => Err(failure),
            Ok(()) => match bound_type(actual, link.item.associated_type) {
                None => Err(SolveFailure::Missing),
                Some(ty) => if ty == link.item.ty {
                    Ok(())
                } else {
                    Err(
                        SolveFailure::AssociatedTypeMismatch {
                            associated_type: link.item.associated_type,
                            expected: link.item.ty,
                            actual: ty,
                        },
                    )
                },
            },
        },
    }
}

/// Substitution in the type of each binding, first to last.
pub open spec fn bindings_substituted(
    types: Seq<TyData>,
    bindings: Chain<AssociatedTypeBinding>,
    substitution: Substitution,
) -> (Seq<TyData>, Chain<AssociatedTypeBinding>)
    decreases bindings,
{
    match bindings {
        Chain::Empty => (types, Chain::Empty),
        Chain::Link(link) => {
            let (between, rest) = bindings_substituted(types, link.rest, substitution);
            let (after, ty) = substituted(between, link.item.ty, substitution);
            (after, rest.pushed(AssociatedTypeBinding { ty, ..link.item }))
        },
    }
}

/// Substitution in a goal.
pub open spec fn goal_substituted(
    types: Seq<TyData>,
    goal: Goal,
    substitution: Substitution,
) -> (Seq<TyData>, Goal) {
    let (between, self_ty) = substituted(types, goal.self_ty, substitution);
    let (after, bindings) = bindings_substituted(between, goal.concept.bindings, substitution);
    (after, Goal { self_ty, concept: ConceptInstance { concept: goal.concept.concept, bindings } })
}

/// The implementations that the witnesses come from.
pub open spec fn implementations_of(witnesses: Chain<WitnessSelection>) -> Chain<DefId>
    decreases witnesses,
{
    match witnesses {
        Chain::Empty => Chain::Empty,
        Chain::Link(link) => match link.item.source {
            WitnessSource::Implementation(definition) => implementations_of(link.rest).pushed(
                definition,
            ),
            WitnessSource::ParamBound(_) => implementations_of(link.rest),
        },
    }
}

/// The answer, given the witnesses of all implementations that apply.
pub open spec fn unique_witness(witnesses: Chain<WitnessSelection>) -> Result<
    WitnessSelection,
    SolveFailure,
> {
    match witnesses {
        Chain::Empty => Err(SolveFailure::Missing),
        Chain::Link(link) => match link.rest {
            Chain::Empty => Ok(link.item),
            Chain::Link(_) => Err(SolveFailure::Ambiguous(implementations_of(witnesses))),
        },
    }
}

/// The types and the answer that the search for `goal` ends with. There is no
/// answer if some line of the search is longer than `fuel` goals. `stack`
/// holds the goals that are being proved.
pub open spec fn search(
    index: ImplIndex,
    environment: ParamEnv,
    types: Seq<TyData>,
    stack: Chain<Goal>,
    goal: Goal,
    fuel: nat,
) -> (Seq<TyData>, Option<Result<WitnessSelection, SolveFailure>>)
    decreases fuel, 0nat, 0nat,
{
    if has_goal(stack, goal) {
        (types, Some(Err(SolveFailure::Cycle(goals_from(stack, goal).pushed(goal)))))
    } else {
        match bound_position(environment.bounds, goal) {
            Some(position) => (
                types,
                Some(
                    Ok(
                        WitnessSelection {
                            source: WitnessSource::ParamBound(position),
                            substitution: Substitution::empty(),
                            associated_types: goal.concept.bindings,
                            prerequisites: Prerequisites::Empty,
                        },
                    ),
                ),
            ),
            None => if fuel == 0 {
                (types, None)
            } else {
                match search_headers(
                    index,
                    environment,
                    types,
                    stack.pushed(goal),
                    goal,
                    bucket_headers(index.buckets, goal.concept.concept),
                    (fuel - 1) as nat,
                ) {
                    (after, None) => (after, None),
                    (after, Some(Err(failure))) => (after, Some(Err(failure))),
                    (after, Some(Ok(witnesses))) => (after, Some(unique_witness(witnesses))),
                }
            },
        }
    }
}

/// The witnesses of those of `headers` that apply to `goal`.
pub open spec fn search_headers(
    index: ImplIndex,
    environment: ParamEnv,
    types: Seq<TyData>,
    stack: Chain<Goal>,
    goal: Goal,
    headers: Chain<ImplHeader>,
    fuel: nat,
) -> (Seq<TyData>, Option<Result<Chain<WitnessSelection>, SolveFailure>>)
    decreases fuel, 3nat, headers.spec_len(),
{
    match headers {
        Chain::Empty => (types, Some(Ok(Chain::Empty))),
        Chain::Link(link) => match search_headers(
            index,
            environment,
            types,
            stack,
            goal,
            link.rest,
            fuel,
        ) {
            (between, Some(Ok(witnesses))) => match search_header(
                index,
                environment,
                between,
                stack,
                goal,
                link.item,
                fuel,
            ) {
                (after, None) => (after, None),
                (after, Some(Err(failure))) => (after, Some(Err(failure))),
                (after, Some(Ok(None))) => (after, Some(Ok(witnesses))),
                (after, Some(Ok(Some(witness)))) => (after, Some(Ok(witnesses.pushed(witness)))),
            },
            other => other,
        },
    }
}

/// The witness of an implementation, or `None` if it does not apply to `goal`.
pub open spec fn search_header(
    index: ImplIndex,
    environment: ParamEnv,
    types: Seq<TyData>,
    stack: Chain<Goal>,
    goal: Goal,
    header: ImplHeader,
    fuel: nat,
) -> (Seq<TyData>, Option<Result<Option<WitnessSelection>, SolveFailure>>)
    decreases fuel, 2nat, 0nat,
{
    let (substitution, applies) = matched(types, header.target, goal.self_ty, Substitution::empty());
    if !applies {
        (types, Some(Ok(None)))
    } else {
        match search_conditions(
            index,
            environment,
            types,
            stack,
            header.conditions,
            substitution,
            fuel,
        ) {
            (after, None) => (after, None),
            (after, Some(Err(SolveFailure::Missing))) => (after, Some(Ok(None))),
            (after, Some(Err(failure))) => (after, Some(Err(failure))),
            (between, Some(Ok(prerequisites))) => {
                let (after, associated_types) = bindings_substituted(
                    between,
                    header.associated_types,
                    substitution,
                );
                match bindings_checked(goal.concept.bindings, associated_types) {
                    Err(failure) => (after, Some(Err(failure))),
                    Ok(()) => (
                        after,
                        Some(
                            Ok(
                                Some(
                                    WitnessSelection {
                                        source: WitnessSource::Implementation(header.definition),
                                        substitution,
                                        associated_types,
                                        prerequisites,
                                    },
                                ),
                            ),
                        ),
                    ),
                }
            },
        }
    }
}

/// The witnesses of the conditions of an implementation, up to the first that
/// does not hold.
pub open spec fn search_conditions(
    index: ImplIndex,
    environment: ParamEnv,
    types: Seq<TyData>,
    stack: Chain<Goal>,
    conditions: Chain<Goal>,
    substitution: Substitution,
    fuel: nat,
) -> (Seq<TyData>, Option<Result<Prerequisites, SolveFailure>>)
    decreases fuel, 1nat, conditions.spec_len(),
{
    match conditions {
        Chain::Empty => (types, Some(Ok(Prerequisites::Empty))),
        Chain::Link(link) => match search_conditions(
            index,
            environment,
            types,
            stack,
            link.rest,
            substitution,
            fuel,
        ) {
            (first, Some(Ok(prerequisites))) => {
                let (between, condition) = goal_substituted(first, link.item, substitution);
                match search(index, environment, between, stack, condition, fuel) {
                    (after, None) => (after, None),
                    (after, Some(Err(failure))) => (after, Some(Err(failure))),
                    (after, Some(Ok(witness))) => (after, Some(Ok(prerequisites.pushed(witness)))),
                }
            },
            other => other,
        },
    }
}

/// How long a line of the search may get. A longer one has no room on any
/// stack.
pub const SEARCH_LIMIT: u32 = u32::MAX;

/// The types and the answer that the search for `goal` ends with.
pub open spec fn solution(
    index: ImplIndex,
    environment: ParamEnv,
    types: Seq<TyData>,
    stack: Chain<Goal>,
    goal: Goal,
) -> (Seq<TyData>, Result<WitnessSelection, SolveFailure>) {
    match search(index, environment, types, stack, goal, SEARCH_LIMIT as nat) {
        (after, Some(result)) => (after, result),
        (after, None) => (after, Err(SolveFailure::Missing)),
    }
}

fn goal_is_active(goals: &Chain<Goal>, goal: &Goal) -> (active: bool)
    ensures
        active == has_goal(*goals, *goal),
    decreases goals,
{
    match goals {
        Chain::Empty => false,
        Chain::Link(link) => goal_is_active(&link.rest, goal) || link.item.same(goal),
    }
}

fn cycle_through(goals: &Chain<Goal>, goal: &Goal) -> (cycle: Chain<Goal>)
    ensures
        cycle == goals_from(*goals, *goal),
    decreases goals,
{
    match goals {
        Chain::Empty => Chain::new(),
        Chain::Link(link) => if goal_is_active(&link.rest, goal) {
            cycle_through(&link.rest, goal).with(link.item.clone())
        } else if link.item.same(goal) {
            Chain::new().with(link.item.clone())
        } else {
            Chain::new()
        },
    }
}

fn find_bound(bounds: &Chain<Goal>, goal: &Goal) -> (position: Option<usize>)
    ensures
        position == bound_position(*bounds, *goal),
    decreases bounds,
{
    match bounds {
        Chain::Empty => None,
        Chain::Link(link) => match find_bound(&link.rest, goal) {
            Some(position) => Some(position),
            None => if link.item.same(goal) {
                Some(link.rest.len())
            } else {
                None
            },
        },
    }
}

fn find_bound_type(bindings: &Chain<AssociatedTypeBinding>, associated_type: DefId) -> (ty: Option<
    TyId,
>)
    ensures
        ty == bound_type(*bindings, associated_type),
    decreases bindings,
{
    match bindings {
        Chain::Empty => None,
        Chain::Link(link) => if link.item.associated_type == associated_type {
            Some(link.item.ty)
        } else {
            find_bound_type(&link.rest, associated_type)
        },
    }
}

/// Whether an implementation has the associated types that a goal asks for.
pub fn check_associated_bindings(
    expected: &Chain<AssociatedTypeBinding>,
    actual: &Chain<AssociatedTypeBinding>,
) -> (result: Result<(), SolveFailure>)
    ensures
        result == bindings_checked(*expected, *actual),
    decreases expected,
{
    match expected {
        Chain::Empty => Ok(()),
        Chain::Link(link) => match check_associated_bindings(&link.rest, actual) {
            Err(failure) => Err(failure),
            Ok(()) => match find_bound_type(actual, link.item.associated_type) {
                None => Err(SolveFailure::Missing),
                Some(ty) => if ty == link.item.ty {
                    Ok(())
                } else {
                    Err(
                        SolveFailure::AssociatedTypeMismatch {
                            associated_type: link.item.associated_type,
                            expected: link.item.ty,
                            actual: ty,
                        },
                    )
                },
            },
        },
    }
}

pub(crate) fn substitute_binding_types(
    types: &mut TyInterner,
    bindings: &Chain<AssociatedTypeBinding>,
    substitution: &Substitution,
) -> (result: Chain<AssociatedTypeBinding>)
    requires
        types_wf(old(types)@),
    ensures
        types_wf(final(types)@),
        later(old(types)@, final(types)@),
        (final(types)@, result) == bindings_substituted(old(types)@, *bindings, *substitution),
    decreases bindings,
{
    match bindings {
        Chain::Empty => Chain::new(),
        Chain::Link(link) => {
            let rest = substitute_binding_types(types, &link.rest, substitution);
            let ty: TyId = types.substitute(link.item.ty, substitution);
            rest.with(AssociatedTypeBinding { associated_type: link.item.associated_type, ty })
        },
    }
}

/// Replaces parameters in the bindings of a concept instance.
pub fn substitute_concept(
    types: &mut TyInterner,
    concept: &ConceptInstance,
    substitution: &Substitution,
) -> (result: ConceptInstance)
    requires
        types_wf(old(types)@),
    ensures
        types_wf(final(types)@),
        later(old(types)@, final(types)@),
        result.concept == concept.concept,
        (final(types)@, result.bindings) == bindings_substituted(
            old(types)@,
            concept.bindings,
            *substitution,
        ),
{
    let bindings = substitute_binding_types(types, &concept.bindings, substitution);
    ConceptInstance { concept: concept.concept, bindings }
}

fn witness_implementations(witnesses: &Chain<WitnessSelection>) -> (definitions: Chain<DefId>)
    ensures
        definitions == implementations_of(*witnesses),
    decreases witnesses,
{
    match witnesses {
        Chain::Empty => Chain::new(),
        Chain::Link(link) => match link.item.source {
            WitnessSource::Implementation(definition) => witness_implementations(&link.rest).with(
                definition,
            ),
            WitnessSource::ParamBound(_) => witness_implementations(&link.rest),
        },
    }
}

fn pick_unique_witness(witnesses: &Chain<WitnessSelection>) -> (result: Result<
    WitnessSelection,
    SolveFailure,
>)
    ensures
        result == unique_witness(*witnesses),
{
    match witnesses {
        Chain::Empty => Err(SolveFailure::Missing),
        Chain::Link(link) => match &link.rest {
            Chain::Empty => Ok(link.item.clone()),
            Chain::Link(_) => Err(SolveFailure::Ambiguous(witness_implementations(witnesses))),
        },
    }
}

/// A search for evidence in the implementations of a program.
pub struct ConformanceSolver<'a> {
    pub index: &'a ImplIndex,
    pub types: &'a mut TyInterner,
    pub stack: Chain<Goal>,
}

impl<'a> ConformanceSolver<'a> {
    pub fn new(index: &'a ImplIndex, types: &'a mut TyInterner) -> (solver: Self)
        ensures
            solver.index == index,
            solver.types@ == old(types)@,
            solver.stack == Chain::<Goal>::Empty,
            final(solver.types)@ == final(types)@,
    {
        ConformanceSolver { index, types, stack: Chain::new() }
    }

    /// Selects the unique global implementation or matching parameter proof.
    pub fn solve(&mut self, goal: &Goal, environment: &ParamEnv) -> (result: Result<
        WitnessSelection,
        SolveFailure,
    >)
        requires
            types_wf(old(self).types@),
        ensures
            types_wf(final(self).types@),
            later(old(self).types@, final(self).types@),
            final(self).index == old(self).index,
            final(self).stack == old(self).stack,
            final(final(self).types)@ == final(old(self).types)@,
            (final(self).types@, result) == solution(
                *old(self).index,
                *environment,
                old(self).types@,
                old(self).stack,
                *goal,
            ),
    {
        let stack = self.stack.clone();
        match solve_inner(self.index, self.types, &stack, goal, environment, SEARCH_LIMIT) {
            Some(result) => result,
            None => Err(SolveFailure::Missing),
        }
    }
}

fn solve_inner(
    index: &ImplIndex,
    types: &mut TyInterner,
    stack: &Chain<Goal>,
    goal: &Goal,
    environment: &ParamEnv,
    fuel: u32,
) -> (result: Option<Result<WitnessSelection, SolveFailure>>)
    requires
        types_wf(old(types)@),
    ensures
        types_wf(final(types)@),
        later(old(types)@, final(types)@),
        search(*index, *environment, old(types)@, *stack, *goal, fuel as nat) == (
            final(types)@,
            result,
        ),
    decreases fuel, 0nat, 0nat,
{
    if goal_is_active(stack, goal) {
        return Some(Err(SolveFailure::Cycle(cycle_through(stack, goal).with(goal.clone()))));
    }
    match find_bound(&environment.bounds, goal) {
        Some(position) => Some(
            Ok(
                WitnessSelection {
                    source: WitnessSource::ParamBound(position),
                    substitution: Substitution::default(),
                    associated_types: goal.concept.bindings.clone(),
                    prerequisites: Prerequisites::Empty,
                },
            ),
        ),
        None => {
            if fuel == 0 {
                return None;
            }
            let headers = index.for_concept(goal.concept.concept);
            let stack = stack.clone().with(goal.clone());
            match select_global(index, types, &stack, goal, environment, &headers, fuel - 1) {
                None => None,
                Some(Err(failure)) => Some(Err(failure)),
                Some(Ok(witnesses)) => Some(pick_unique_witness(&witnesses)),
            }
        },
    }
}

fn select_global(
    index: &ImplIndex,
    types: &mut TyInterner,
    stack: &Chain<Goal>,
    goal: &Goal,
    environment: &ParamEnv,
    headers: &Chain<ImplHeader>,
    fuel: u32,
) -> (result: Option<Result<Chain<WitnessSelection>, SolveFailure>>)
    requires
        types_wf(old(types)@),
    ensures
        types_wf(final(types)@),
        later(old(types)@, final(types)@),
        search_headers(
            *index,
            *environment,
            old(types)@,
            *stack,
            *goal,
            *headers,
            fuel as nat,
        ) == (final(types)@, result),
    decreases fuel, 3nat, headers.spec_len(),
{
    match headers {
        Chain::Empty => Some(Ok(Chain::new())),
        Chain::Link(link) => match select_global(
            index,
            types,
            stack,
            goal,
            environment,
            &link.rest,
            fuel,
        ) {
            Some(Ok(witnesses)) => match try_header(
                index,
                types,
                stack,
                goal,
                environment,
                &link.item,
                fuel,
            ) {
                None => None,
                Some(Err(failure)) => Some(Err(failure)),
                Some(Ok(None)) => Some(Ok(witnesses)),
                Some(Ok(Some(witness))) => Some(Ok(witnesses.with(witness))),
            },
            other => other,
        },
    }
}

fn try_header(
    index: &ImplIndex,
    types: &mut TyInterner,
    stack: &Chain<Goal>,
    goal: &Goal,
    environment: &ParamEnv,
    header: &ImplHeader,
    fuel: u32,
) -> (result: Option<Result<Option<WitnessSelection>, SolveFailure>>)
    requires
        types_wf(old(types)@),
    ensures
        types_wf(final(types)@),
        later(old(types)@, final(types)@),
        search_header(*index, *environment, old(types)@, *stack, *goal, *header, fuel as nat) == (
            final(types)@,
            result,
        ),
    decreases fuel, 2nat, 0nat,
{
    let mut substitution = Substitution::default();
    if !match_target(types, header.target, goal.self_ty, &mut substitution) {
        return Some(Ok(None));
    }
    match prove_conditions(
        index,
        types,
        stack,
        environment,
        &header.conditions,
        &substitution,
        fuel,
    ) {
        None => None,
        Some(Err(SolveFailure::Missing)) => Some(Ok(None)),
        Some(Err(failure)) => Some(Err(failure)),
        Some(Ok(prerequisites)) => {
            let associated_types = substitute_binding_types(
                types,
                &header.associated_types,
                &substitution,
            );
            match check_associated_bindings(&goal.concept.bindings, &associated_types) {
                Err(failure) => Some(Err(failure)),
                Ok(()) => Some(
                    Ok(
                        Some(
                            WitnessSelection {
                                source: WitnessSource::Implementation(header.definition),
                                substitution,
                                associated_types,
                                prerequisites,
                            },
                        ),
                    ),
                ),
            }
        },
    }
}

fn prove_conditions(
    index: &ImplIndex,
    types: &mut TyInterner,
    stack: &Chain<Goal>,
    environment: &ParamEnv,
    conditions: &Chain<Goal>,
    substitution: &Substitution,
    fuel: u32,
) -> (result: Option<Result<Prerequisites, SolveFailure>>)
    requires
        types_wf(old(types)@),
    ensures
        types_wf(final(types)@),
        later(old(types)@, final(types)@),
        search_conditions(
            *index,
            *environment,
            old(types)@,
            *stack,
            *conditions,
            *substitution,
            fuel as nat,
        ) == (final(types)@, result),
    decreases fuel, 1nat, conditions.spec_len(),
{
    match conditions {
        Chain::Empty => Some(Ok(Prerequisites::Empty)),
        Chain::Link(link) => match prove_conditions(
            index,
            types,
            stack,
            environment,
            &link.rest,
            substitution,
            fuel,
        ) {
            Some(Ok(prerequisites)) => {
                let self_ty: TyId = types.substitute(link.item.self_ty, substitution);
                let concept = substitute_concept(types, &link.item.concept, substitution);
                let condition = Goal { self_ty, concept };
                match solve_inner(index, types, stack, &condition, environment, fuel) {
                    None => None,
                    Some(Err(failure)) => Some(Err(failure)),
                    Some(Ok(witness)) => Some(Ok(prerequisites.with(witness))),
                }
            },
            other => other,
        },
    }
}

} // verus!
