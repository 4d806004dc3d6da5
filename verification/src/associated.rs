//! The associated types of conformances: that they are well founded and meet
//! their bounds.

use vstd::prelude::*;

use crate::chain::Chain;
use crate::conformance::{Goal, ImplIndex, ParamEnv, SolveFailure, WitnessSelection};
#[allow(unused_imports)]
use crate::conformance::{buckets_sorted, index_overlaps, indexed_header};
#[allow(unused_imports)]
use crate::diagnostics::{adds_to, lemma_adds_nothing, lemma_adds_one, lemma_adds_through};
use crate::diagnostics::{Diagnostic, Message};
#[allow(unused_imports)]
use crate::diagnostics::labelled;
#[allow(unused_imports)]
use crate::growth::{later, lemma_later_itself, lemma_later_through};
use crate::ids::{DefId, TyId};
#[allow(unused_imports)]
use crate::implement::bound_failure;
use crate::implement::describe_bound_failure;
use crate::resolve::Sources;
use crate::semantics::{Bound, ConformanceSemantics, Signature};
use crate::solver::ConformanceSolver;
#[allow(unused_imports)]
use crate::solver::solution;
use crate::survey::Analyzer;
#[allow(unused_imports)]
use crate::survey::Survey;
use crate::table::{contains_id, insert_id, Table};
#[allow(unused_imports)]
use crate::table::{has_id, id_inserted};
use crate::ty::{AssociatedTypeBinding, ConceptInstance, TyData, TyInterner};
#[allow(unused_imports)]
use crate::ty::{ty_data, types_wf};
use crate::unify::instantiate_concept_type;
#[allow(unused_imports)]
use crate::unify::instantiated;

verus! {

broadcast use {
    lemma_adds_nothing,
    lemma_adds_one,
    lemma_adds_through,
    lemma_later_itself,
    lemma_later_through,
};

/// How deep projections are followed.
pub const PROJECTION_LIMIT: u16 = 128;

/// An associated type of a type.
#[derive(Clone, Copy, Debug, PartialEq, Eq, Structural)]
pub struct ProjectionKey {
    pub self_ty: TyId,
    pub concept: DefId,
    pub associated_type: DefId,
}

/// What a conformance binds an associated type to.
#[derive(Clone, Copy, Debug, PartialEq, Eq, Structural)]
pub struct ProjectionBinding {
    pub key: ProjectionKey,
    pub definition: DefId,
    pub ty: TyId,
}

/// The newest binding of an associated type.
pub open spec fn binding_of(list: Chain<ProjectionBinding>, key: ProjectionKey) -> Option<
    ProjectionBinding,
>
    decreases list,
{
    match list {
        Chain::Empty => None,
        Chain::Link(link) => if link.item.key == key {
            Some(link.item)
        } else {
            binding_of(link.rest, key)
        },
    }
}

fn find_binding(list: &Chain<ProjectionBinding>, key: ProjectionKey) -> (binding: Option<
    ProjectionBinding,
>)
    ensures
        binding == binding_of(*list, key),
    decreases list,
{
    match list {
        Chain::Empty => None,
        Chain::Link(link) => if link.item.key == key {
            Some(link.item)
        } else {
            find_binding(&link.rest, key)
        },
    }
}

pub open spec fn has_key(list: Chain<ProjectionKey>, key: ProjectionKey) -> bool
    decreases list,
{
    match list {
        Chain::Empty => false,
        Chain::Link(link) => link.item == key || has_key(link.rest, key),
    }
}

fn contains_key(list: &Chain<ProjectionKey>, key: ProjectionKey) -> (result: bool)
    ensures
        result == has_key(*list, key),
    decreases list,
{
    match list {
        Chain::Empty => false,
        Chain::Link(link) => link.item == key || contains_key(&link.rest, key),
    }
}

/// The projections in a type, behind those that are known, and the types that
/// were looked at.
pub open spec fn projections_in(
    types: Seq<TyData>,
    ty: TyId,
    keys: Chain<ProjectionKey>,
    visited: Chain<u32>,
    depth: u16,
) -> (Chain<ProjectionKey>, Chain<u32>)
    decreases PROJECTION_LIMIT - depth, 1nat, 0nat,
{
    if depth >= PROJECTION_LIMIT || has_id(visited, ty.0) {
        (keys, visited)
    } else {
        let seen = id_inserted(visited, ty.0);
        let next = (depth + 1) as u16;
        match ty_data(types, ty) {
            TyData::Projection { self_ty, concept, associated_type } => projections_in(
                types,
                self_ty,
                keys.pushed(ProjectionKey { self_ty, concept, associated_type }),
                seen,
                next,
            ),
            TyData::Tuple(elements) => projections_in_list(types, elements, keys, seen, next),
            TyData::List(element) => projections_in(types, element, keys, seen, next),
            TyData::TextMap(element) => projections_in(types, element, keys, seen, next),
            TyData::Option(element) => projections_in(types, element, keys, seen, next),
            TyData::Task(element) => projections_in(types, element, keys, seen, next),
            TyData::TaskOutcome(element) => projections_in(types, element, keys, seen, next),
            TyData::Result { ok, error } => {
                let (keys, seen) = projections_in(types, ok, keys, seen, next);
                projections_in(types, error, keys, seen, next)
            },
            TyData::Nominal { definition: _, arguments } => projections_in_list(
                types,
                arguments,
                keys,
                seen,
                next,
            ),
            TyData::DynTarget(instance) => projections_in_bindings(
                types,
                instance.bindings,
                keys,
                seen,
                next,
            ),
            TyData::View { mutability: _, target } => projections_in(
                types,
                target,
                keys,
                seen,
                next,
            ),
            _ => (keys, seen),
        }
    }
}

pub open spec fn projections_in_list(
    types: Seq<TyData>,
    list: Chain<TyId>,
    keys: Chain<ProjectionKey>,
    visited: Chain<u32>,
    depth: u16,
) -> (Chain<ProjectionKey>, Chain<u32>)
    decreases PROJECTION_LIMIT - depth, 2nat, list.spec_len(),
{
    match list {
        Chain::Empty => (keys, visited),
        Chain::Link(link) => {
            let (keys, visited) = projections_in_list(types, link.rest, keys, visited, depth);
            projections_in(types, link.item, keys, visited, depth)
        },
    }
}

pub open spec fn projections_in_bindings(
    types: Seq<TyData>,
    list: Chain<AssociatedTypeBinding>,
    keys: Chain<ProjectionKey>,
    visited: Chain<u32>,
    depth: u16,
) -> (Chain<ProjectionKey>, Chain<u32>)
    decreases PROJECTION_LIMIT - depth, 2nat, list.spec_len(),
{
    match list {
        Chain::Empty => (keys, visited),
        Chain::Link(link) => {
            let (keys, visited) = projections_in_bindings(types, link.rest, keys, visited, depth);
            projections_in(types, link.item.ty, keys, visited, depth)
        },
    }
}

fn collect_projection_bindings(
    types: &TyInterner,
    ty: TyId,
    keys: &Chain<ProjectionKey>,
    visited: &Chain<u32>,
    depth: u16,
) -> (result: (Chain<ProjectionKey>, Chain<u32>))
    requires
        types_wf(types@),
    ensures
        result == projections_in(types@, ty, *keys, *visited, depth),
    decreases PROJECTION_LIMIT - depth, 1nat, 0nat,
{
    if depth >= PROJECTION_LIMIT || contains_id(visited, ty.0) {
        return (keys.clone(), visited.clone());
    }
    let seen = insert_id(visited, ty.0);
    let next: u16 = depth + 1;
    match types.data(ty) {
        TyData::Projection { self_ty, concept, associated_type } => {
            let key = ProjectionKey {
                self_ty: *self_ty,
                concept: *concept,
                associated_type: *associated_type,
            };
            collect_projection_bindings(types, *self_ty, &keys.clone().with(key), &seen, next)
        },
        TyData::Tuple(elements) => collect_in_list(types, elements, keys, &seen, next),
        TyData::List(element) => collect_projection_bindings(types, *element, keys, &seen, next),
        TyData::TextMap(element) => collect_projection_bindings(types, *element, keys, &seen, next),
        TyData::Option(element) => collect_projection_bindings(types, *element, keys, &seen, next),
        TyData::Task(element) => collect_projection_bindings(types, *element, keys, &seen, next),
        TyData::TaskOutcome(element) => collect_projection_bindings(
            types,
            *element,
            keys,
            &seen,
            next,
        ),
        TyData::Result { ok, error } => {
            let (found, looked_at) = collect_projection_bindings(types, *ok, keys, &seen, next);
            collect_projection_bindings(types, *error, &found, &looked_at, next)
        },
        TyData::Nominal { definition: _, arguments } => collect_in_list(
            types,
            arguments,
            keys,
            &seen,
            next,
        ),
        TyData::DynTarget(instance) => collect_in_bindings(
            types,
            &instance.bindings,
            keys,
            &seen,
            next,
        ),
        TyData::View { mutability: _, target } => collect_projection_bindings(
            types,
            *target,
            keys,
            &seen,
            next,
        ),
        _ => (keys.clone(), seen),
    }
}

fn collect_in_list(
    types: &TyInterner,
    list: &Chain<TyId>,
    keys: &Chain<ProjectionKey>,
    visited: &Chain<u32>,
    depth: u16,
) -> (result: (Chain<ProjectionKey>, Chain<u32>))
    requires
        types_wf(types@),
    ensures
        result == projections_in_list(types@, *list, *keys, *visited, depth),
    decreases PROJECTION_LIMIT - depth, 2nat, list.spec_len(),
{
    match list {
        Chain::Empty => (keys.clone(), visited.clone()),
        Chain::Link(link) => {
            let (found, seen) = collect_in_list(types, &link.rest, keys, visited, depth);
            collect_projection_bindings(types, link.item, &found, &seen, depth)
        },
    }
}

fn collect_in_bindings(
    types: &TyInterner,
    list: &Chain<AssociatedTypeBinding>,
    keys: &Chain<ProjectionKey>,
    visited: &Chain<u32>,
    depth: u16,
) -> (result: (Chain<ProjectionKey>, Chain<u32>))
    requires
        types_wf(types@),
    ensures
        result == projections_in_bindings(types@, *list, *keys, *visited, depth),
    decreases PROJECTION_LIMIT - depth, 2nat, list.spec_len(),
{
    match list {
        Chain::Empty => (keys.clone(), visited.clone()),
        Chain::Link(link) => {
            let (found, seen) = collect_in_bindings(types, &link.rest, keys, visited, depth);
            collect_projection_bindings(types, link.item.ty, &found, &seen, depth)
        },
    }
}

/// Following the bindings from an associated type leads back to one that is
/// already followed, or too deep.
pub open spec fn has_cycle(
    list: Chain<ProjectionBinding>,
    types: Seq<TyData>,
    key: ProjectionKey,
    active: Chain<ProjectionKey>,
    depth: u16,
) -> bool
    decreases PROJECTION_LIMIT - depth, 1nat, 0nat,
{
    if depth >= PROJECTION_LIMIT || has_key(active, key) {
        true
    } else {
        match binding_of(list, key) {
            None => false,
            Some(binding) => any_has_cycle(
                list,
                types,
                projections_in(types, binding.ty, Chain::Empty, Chain::Empty, 0).0,
                active.pushed(key),
                (depth + 1) as u16,
            ),
        }
    }
}

pub open spec fn any_has_cycle(
    list: Chain<ProjectionBinding>,
    types: Seq<TyData>,
    keys: Chain<ProjectionKey>,
    active: Chain<ProjectionKey>,
    depth: u16,
) -> bool
    decreases PROJECTION_LIMIT - depth, 2nat, keys.spec_len(),
{
    match keys {
        Chain::Empty => false,
        Chain::Link(link) => any_has_cycle(list, types, link.rest, active, depth) || (binding_of(
            list,
            link.item,
        ) is Some && has_cycle(list, types, link.item, active, depth)),
    }
}

fn projection_binding_has_cycle(
    list: &Chain<ProjectionBinding>,
    types: &TyInterner,
    key: ProjectionKey,
    active: &Chain<ProjectionKey>,
    depth: u16,
) -> (result: bool)
    requires
        types_wf(types@),
    ensures
        result == has_cycle(*list, types@, key, *active, depth),
    decreases PROJECTION_LIMIT - depth, 1nat, 0nat,
{
    if depth >= PROJECTION_LIMIT || contains_key(active, key) {
        return true;
    }
    match find_binding(list, key) {
        None => false,
        Some(binding) => {
            let (keys, _) = collect_projection_bindings(
                types,
                binding.ty,
                &Chain::new(),
                &Chain::new(),
                0,
            );
            check_any_cycle(list, types, &keys, &active.clone().with(key), depth + 1)
        },
    }
}

fn check_any_cycle(
    list: &Chain<ProjectionBinding>,
    types: &TyInterner,
    keys: &Chain<ProjectionKey>,
    active: &Chain<ProjectionKey>,
    depth: u16,
) -> (result: bool)
    requires
        types_wf(types@),
    ensures
        result == any_has_cycle(*list, types@, *keys, *active, depth),
    decreases PROJECTION_LIMIT - depth, 2nat, keys.spec_len(),
{
    match keys {
        Chain::Empty => false,
        Chain::Link(link) => check_any_cycle(list, types, &link.rest, active, depth) || (
        find_binding(list, link.item).is_some() && projection_binding_has_cycle(
            list,
            types,
            link.item,
            active,
            depth,
        )),
    }
}

/// The associated type that a binding of a conformance is about.
pub open spec fn key_of(
    conformance: ConformanceSemantics,
    binding: AssociatedTypeBinding,
) -> ProjectionKey {
    ProjectionKey {
        self_ty: conformance.target,
        concept: conformance.concept.concept,
        associated_type: binding.associated_type,
    }
}

fn make_key(
    conformance: &ConformanceSemantics,
    binding: AssociatedTypeBinding,
) -> (key: ProjectionKey)
    ensures
        key == key_of(*conformance, binding),
{
    ProjectionKey {
        self_ty: conformance.target,
        concept: conformance.concept.concept,
        associated_type: binding.associated_type,
    }
}

/// The bindings of a conformance, behind those of others.
pub open spec fn with_bindings(
    list: Chain<ProjectionBinding>,
    definition: DefId,
    conformance: ConformanceSemantics,
    bindings: Chain<AssociatedTypeBinding>,
) -> Chain<ProjectionBinding>
    decreases bindings,
{
    match bindings {
        Chain::Empty => list,
        Chain::Link(link) => with_bindings(list, definition, conformance, link.rest).pushed(
            ProjectionBinding { key: key_of(conformance, link.item), definition, ty: link.item.ty },
        ),
    }
}

fn add_bindings(
    list: Chain<ProjectionBinding>,
    definition: DefId,
    conformance: &ConformanceSemantics,
    bindings: &Chain<AssociatedTypeBinding>,
) -> (result: Chain<ProjectionBinding>)
    ensures
        result == with_bindings(list, definition, *conformance, *bindings),
    decreases bindings,
{
    match bindings {
        Chain::Empty => list,
        Chain::Link(link) => add_bindings(list, definition, conformance, &link.rest).with(
            ProjectionBinding {
                key: make_key(conformance, link.item),
                definition,
                ty: link.item.ty,
            },
        ),
    }
}

/// What the conformances among the first `count` definitions bind.
pub open spec fn bindings_below(conformances: Table<ConformanceSemantics>, count: nat) -> Chain<
    ProjectionBinding,
>
    decreases count,
{
    if count == 0 {
        Chain::Empty
    } else {
        let list = bindings_below(conformances, (count - 1) as nat);
        let definition = DefId((count - 1) as u32);
        match conformances.lookup(definition.0) {
            Some(conformance) => with_bindings(
                list,
                definition,
                conformance,
                conformance.associated_types,
            ),
            None => list,
        }
    }
}

fn collect_bindings(conformances: &Table<ConformanceSemantics>, count: u32) -> (list: Chain<
    ProjectionBinding,
>)
    ensures
        list == bindings_below(*conformances, count as nat),
{
    let mut list: Chain<ProjectionBinding> = Chain::new();
    let mut i: u32 = 0;
    while i < count
        invariant
            i <= count,
            list == bindings_below(*conformances, i as nat),
        decreases count - i,
    {
        match conformances.get(i) {
            Some(conformance) => {
                list = add_bindings(
                    list,
                    DefId(i),
                    conformance,
                    &conformance.associated_types,
                );
            },
            None => {},
        }
        i = i + 1;
    }
    list
}

/// A binding of the conformance takes part in a cycle.
pub open spec fn is_cyclic(
    list: Chain<ProjectionBinding>,
    types: Seq<TyData>,
    definition: DefId,
    conformance: ConformanceSemantics,
    bindings: Chain<AssociatedTypeBinding>,
) -> bool
    decreases bindings,
{
    match bindings {
        Chain::Empty => false,
        Chain::Link(link) => is_cyclic(list, types, definition, conformance, link.rest) || {
            let key = key_of(conformance, link.item);
            match binding_of(list, key) {
                Some(binding) => binding.definition == definition && has_cycle(
                    list,
                    types,
                    key,
                    Chain::Empty,
                    0,
                ),
                None => false,
            }
        },
    }
}

fn check_cyclic(
    list: &Chain<ProjectionBinding>,
    types: &TyInterner,
    definition: DefId,
    conformance: &ConformanceSemantics,
    bindings: &Chain<AssociatedTypeBinding>,
) -> (result: bool)
    requires
        types_wf(types@),
    ensures
        result == is_cyclic(*list, types@, definition, *conformance, *bindings),
    decreases bindings,
{
    match bindings {
        Chain::Empty => false,
        Chain::Link(link) => {
            if check_cyclic(list, types, definition, conformance, &link.rest) {
                return true;
            }
            let key = make_key(conformance, link.item);
            match find_binding(list, key) {
                Some(binding) => binding.definition == definition && projection_binding_has_cycle(
                    list,
                    types,
                    key,
                    &Chain::new(),
                    0,
                ),
                None => false,
            }
        },
    }
}

/// The bindings of a bound, for the target of a conformance.
pub open spec fn bindings_of_target(
    types: Seq<TyData>,
    list: Chain<AssociatedTypeBinding>,
    target: TyId,
    concept: ConceptInstance,
) -> (Seq<TyData>, Chain<AssociatedTypeBinding>)
    decreases list,
{
    match list {
        Chain::Empty => (types, Chain::Empty),
        Chain::Link(link) => {
            let (between, before) = bindings_of_target(types, link.rest, target, concept);
            let (after, ty) = instantiated(between, link.item.ty, target, concept, true);
            (
                after,
                before.pushed(
                    AssociatedTypeBinding { associated_type: link.item.associated_type, ty },
                ),
            )
        },
    }
}

fn instantiate_bindings(
    types: &mut TyInterner,
    list: &Chain<AssociatedTypeBinding>,
    target: TyId,
    concept: &ConceptInstance,
) -> (result: Chain<AssociatedTypeBinding>)
    requires
        types_wf(old(types)@),
    ensures
        types_wf(final(types)@),
        later(old(types)@, final(types)@),
        (final(types)@, result) == bindings_of_target(old(types)@, *list, target, *concept),
    decreases list,
{
    match list {
        Chain::Empty => Chain::new(),
        Chain::Link(link) => {
            let before = instantiate_bindings(types, &link.rest, target, concept);
            let ty = instantiate_concept_type(types, link.item.ty, target, concept, true);
            before.with(AssociatedTypeBinding { associated_type: link.item.associated_type, ty })
        },
    }
}

impl Survey {
    /// The conformance that a definition declares takes part in a cycle.
    pub open spec fn cyclic(self, list: Chain<ProjectionBinding>, definition: DefId) -> bool {
        match self.st.conformances.lookup(definition.0) {
            Some(conformance) => is_cyclic(
                list,
                self.names.types,
                definition,
                conformance,
                conformance.associated_types,
            ),
            None => false,
        }
    }

    /// The conformances that `judge` finds in cycles, among the first `count`
    /// definitions, are reported.
    pub open spec fn cycles_reported(
        self,
        cx: &Sources,
        judge: Survey,
        list: Chain<ProjectionBinding>,
        count: nat,
    ) -> Survey
        decreases count,
    {
        if count == 0 {
            self
        } else {
            let s = self.cycles_reported(cx, judge, list, (count - 1) as nat);
            let definition = DefId((count - 1) as u32);
            if judge.cyclic(list, definition) {
                s.text_error(
                    "ConformanceResolutionCycle",
                    "associated type bindings form a projection cycle",
                    cx.program.span_of(definition),
                )
            } else {
                s
            }
        }
    }

    /// The conditions under which a conformance holds.
    pub open spec fn conditions_of(self, definition: DefId) -> ParamEnv {
        match indexed_header(self.st.impl_index.buckets, definition) {
            Some(header) => ParamEnv { bounds: header.conditions },
            None => ParamEnv { bounds: Chain::Empty },
        }
    }

    /// A bound of an associated type holds of what a conformance binds.
    #[verifier::opaque]
    pub open spec fn check_bound(
        self,
        cx: &Sources,
        definition: DefId,
        conformance: ConformanceSemantics,
        associated_type: DefId,
        bound: Bound,
    ) -> Survey {
        let (types, self_ty) = instantiated(
            self.names.types,
            bound.self_ty,
            conformance.target,
            conformance.concept,
            true,
        );
        let (types, bindings) = bindings_of_target(
            types,
            bound.concept.bindings,
            conformance.target,
            conformance.concept,
        );
        let goal = Goal {
            self_ty,
            concept: ConceptInstance { concept: bound.concept.concept, bindings },
        };
        let (types, answer) = solution(
            self.st.impl_index.seen_from(cx.program, cx.program.module_of(definition)),
            self.conditions_of(definition),
            types,
            Chain::Empty,
            goal,
        );
        let s = self.with_types(types);
        match answer {
            Ok(_) => s,
            Err(failure) => s.report(
                labelled(
                    "AssociatedTypeBoundNotSatisfied",
                    Message::Definitions(
                        "associated type `",
                        associated_type,
                        "` must satisfy `",
                        bound.concept.concept,
                        bound_failure(failure),
                        "<error>",
                    ),
                    cx.program.span_of(definition),
                    cx.program.span_of(associated_type),
                    "bound declared here",
                ),
            ),
        }
    }

    #[verifier::opaque]
    pub open spec fn check_bounds(
        self,
        cx: &Sources,
        definition: DefId,
        conformance: ConformanceSemantics,
        associated_type: DefId,
        bounds: Chain<Bound>,
    ) -> Survey
        decreases bounds,
    {
        match bounds {
            Chain::Empty => self,
            Chain::Link(link) => self.check_bounds(
                cx,
                definition,
                conformance,
                associated_type,
                link.rest,
            ).check_bound(cx, definition, conformance, associated_type, link.item),
        }
    }

    /// What a conformance binds meets the bounds of the associated types.
    #[verifier::opaque]
    pub open spec fn check_bindings(
        self,
        cx: &Sources,
        definition: DefId,
        conformance: ConformanceSemantics,
        bindings: Chain<AssociatedTypeBinding>,
    ) -> Survey
        decreases bindings,
    {
        match bindings {
            Chain::Empty => self,
            Chain::Link(link) => {
                let s = self.check_bindings(cx, definition, conformance, link.rest);
                match s.signature_of(link.item.associated_type) {
                    Some(Signature::AssociatedType { owner: _, bounds }) => s.check_bounds(
                        cx,
                        definition,
                        conformance,
                        link.item.associated_type,
                        bounds,
                    ),
                    _ => s,
                }
            },
        }
    }

    /// The conformances outside of cycles, among the first `count`
    /// definitions, meet the bounds of their associated types. Whether one is
    /// in a cycle is judged in the survey `judge`.
    pub open spec fn bindings_checked(
        self,
        cx: &Sources,
        judge: Survey,
        list: Chain<ProjectionBinding>,
        count: nat,
    ) -> Survey
        decreases count,
    {
        if count == 0 {
            self
        } else {
            let s = self.bindings_checked(cx, judge, list, (count - 1) as nat);
            let definition = DefId((count - 1) as u32);
            match s.st.conformances.lookup(definition.0) {
                Some(conformance) => if judge.cyclic(list, definition) {
                    s
                } else {
                    s.check_bindings(cx, definition, conformance, conformance.associated_types)
                },
                None => s,
            }
        }
    }

    pub open spec fn validate_associated_type_bindings(self, cx: &Sources) -> Survey {
        let count = cx.program.definitions@.len();
        let list = bindings_below(self.st.conformances, count);
        self.cycles_reported(cx, self, list, count).bindings_checked(cx, self, list, count)
    }

    /// The conformances of the program are checked and can be searched.
    pub open spec fn build_conformances(self, cx: &Sources) -> Survey {
        let s = self.built(cx, cx.program.definitions@.len());
        let s = s.set_index(
            ImplIndex { buckets: buckets_sorted(s.st.impl_index.buckets) },
        ).validate_associated_type_bindings(cx);
        s.report_overlaps(cx, index_overlaps(s.names.types, s.st.impl_index.buckets))
    }
}

/// The conformances that are cyclic, by definition.
pub open spec fn cyclic_below(
    judge: Survey,
    list: Chain<ProjectionBinding>,
    count: nat,
) -> Chain<u32>
    decreases count,
{
    if count == 0 {
        Chain::Empty
    } else {
        let ids = cyclic_below(judge, list, (count - 1) as nat);
        if judge.cyclic(list, DefId((count - 1) as u32)) {
            ids.pushed((count - 1) as u32)
        } else {
            ids
        }
    }
}

proof fn lemma_cyclic_below(judge: Survey, list: Chain<ProjectionBinding>, count: nat, id: u32)
    requires
        count <= u32::MAX,
    ensures
        has_id(cyclic_below(judge, list, count), id) == (id < count && judge.cyclic(
            list,
            DefId(id),
        )),
    decreases count,
{
    if count > 0 {
        lemma_cyclic_below(judge, list, (count - 1) as nat, id);
    }
}

impl Analyzer {
    fn check_bound(
        &mut self,
        cx: &Sources,
        definition: DefId,
        conformance: &ConformanceSemantics,
        associated_type: DefId,
        bound: &Bound,
    )
        requires
            old(self).wf(),
        ensures
            adds_to(old(self)@.names.diagnostics, final(self)@.names.diagnostics),
            final(self).wf(),
            later(old(self)@.names.types, final(self)@.names.types),
            final(self)@ == old(self)@.check_bound(
                cx,
                definition,
                *conformance,
                associated_type,
                *bound,
            ),
    {
        proof {
            reveal(Survey::check_bound);
        }
        let self_ty = instantiate_concept_type(
            &mut self.names.types,
            bound.self_ty,
            conformance.target,
            &conformance.concept,
            true,
        );
        let bindings = instantiate_bindings(
            &mut self.names.types,
            &bound.concept.bindings,
            conformance.target,
            &conformance.concept,
        );
        let goal = Goal {
            self_ty,
            concept: ConceptInstance { concept: bound.concept.concept, bindings },
        };
        let environment = match self.st.impl_index.header(definition) {
            Some(header) => ParamEnv { bounds: header.conditions.clone() },
            None => ParamEnv { bounds: Chain::new() },
        };
        let index = self.st.impl_index.in_scope_of(cx.program, cx.program.module(definition));
        let answer = search(&index, &mut self.names.types, &goal, &environment);
        match answer {
            Ok(_) => {},
            Err(failure) => {
                let diagnostic = Diagnostic::error(
                    "AssociatedTypeBoundNotSatisfied",
                    Message::Definitions(
                        "associated type `",
                        associated_type,
                        "` must satisfy `",
                        bound.concept.concept,
                        describe_bound_failure(&failure),
                        "<error>",
                    ),
                    cx.program.definition_span(definition),
                ).with_label(
                    cx.program.definition_span(associated_type),
                    "bound declared here",
                );
                self.report(diagnostic);
            },
        }
    }

    fn check_bounds(
        &mut self,
        cx: &Sources,
        definition: DefId,
        conformance: &ConformanceSemantics,
        associated_type: DefId,
        bounds: &Chain<Bound>,
    )
        requires
            old(self).wf(),
        ensures
            adds_to(old(self)@.names.diagnostics, final(self)@.names.diagnostics),
            final(self).wf(),
            later(old(self)@.names.types, final(self)@.names.types),
            final(self)@ == old(self)@.check_bounds(
                cx,
                definition,
                *conformance,
                associated_type,
                *bounds,
            ),
        decreases bounds,
    {
        proof {
            reveal(Survey::check_bounds);
        }
        match bounds {
            Chain::Empty => {},
            Chain::Link(link) => {
                self.check_bounds(cx, definition, conformance, associated_type, &link.rest);
                self.check_bound(cx, definition, conformance, associated_type, &link.item);
            },
        }
    }

    fn check_bindings(
        &mut self,
        cx: &Sources,
        definition: DefId,
        conformance: &ConformanceSemantics,
        bindings: &Chain<AssociatedTypeBinding>,
    )
        requires
            old(self).wf(),
        ensures
            adds_to(old(self)@.names.diagnostics, final(self)@.names.diagnostics),
            final(self).wf(),
            later(old(self)@.names.types, final(self)@.names.types),
            final(self)@ == old(self)@.check_bindings(cx, definition, *conformance, *bindings),
        decreases bindings,
    {
        proof {
            reveal(Survey::check_bindings);
        }
        match bindings {
            Chain::Empty => {},
            Chain::Link(link) => {
                self.check_bindings(cx, definition, conformance, &link.rest);
                let bounds = match self.st.signatures.get(link.item.associated_type.0) {
                    Some(Signature::AssociatedType { owner: _, bounds }) => bounds.clone(),
                    _ => {
                        return;
                    },
                };
                self.check_bounds(
                    cx,
                    definition,
                    conformance,
                    link.item.associated_type,
                    &bounds,
                );
            },
        }
    }

    fn check_cyclic(&self, list: &Chain<ProjectionBinding>, definition: DefId) -> (result: bool)
        requires
            self.wf(),
        ensures
            result == self@.cyclic(*list, definition),
    {
        match self.st.conformances.get(definition.0) {
            Some(conformance) => check_cyclic(
                list,
                &self.names.types,
                definition,
                conformance,
                &conformance.associated_types,
            ),
            None => false,
        }
    }

    fn validate_associated_type_bindings(&mut self, cx: &Sources)
        requires
            old(self).wf(),
            cx.program.fits(),
        ensures
            adds_to(old(self)@.names.diagnostics, final(self)@.names.diagnostics),
            final(self).wf(),
            later(old(self)@.names.types, final(self)@.names.types),
            final(self)@ == old(self)@.validate_associated_type_bindings(cx),
    {
        let ghost judge = self@;
        let count: u32 = cx.program.definitions.len() as u32;
        let list = collect_bindings(&self.st.conformances, count);
        let mut cyclic: Chain<u32> = Chain::new();
        let mut k: u32 = 0;
        while k < count
            invariant
                adds_to(old(self)@.names.diagnostics, self@.names.diagnostics),
                k <= count,
                self@ == judge,
                self.wf(),
                later(old(self)@.names.types, self@.names.types),
                cyclic == cyclic_below(judge, list, k as nat),
            decreases count - k,
        {
            if self.check_cyclic(&list, DefId(k)) {
                cyclic.push(k);
            }
            k = k + 1;
        }
        let mut i: u32 = 0;
        while i < count
            invariant
                adds_to(old(self)@.names.diagnostics, self@.names.diagnostics),
                i <= count,
                self.wf(),
                later(old(self)@.names.types, self@.names.types),
                cyclic == cyclic_below(judge, list, count as nat),
                self@ == judge.cycles_reported(cx, judge, list, i as nat),
            decreases count - i,
        {
            proof {
                lemma_cyclic_below(judge, list, count as nat, i);
            }
            if contains_id(&cyclic, i) {
                self.text_error(
                    "ConformanceResolutionCycle",
                    "associated type bindings form a projection cycle",
                    cx.program.definition_span(DefId(i)),
                );
            }
            i = i + 1;
        }
        let ghost reported = self@;
        let mut j: u32 = 0;
        while j < count
            invariant
                adds_to(old(self)@.names.diagnostics, self@.names.diagnostics),
                j <= count,
                self.wf(),
                later(old(self)@.names.types, self@.names.types),
                cyclic == cyclic_below(judge, list, count as nat),
                self@ == reported.bindings_checked(cx, judge, list, j as nat),
            decreases count - j,
        {
            proof {
                lemma_cyclic_below(judge, list, count as nat, j);
            }
            let conformance = match self.st.conformances.get(j) {
                Some(found) => Some(found.clone()),
                None => None,
            };
            match conformance {
                Some(found) => {
                    if !contains_id(&cyclic, j) {
                        self.check_bindings(cx, DefId(j), &found, &found.associated_types);
                    }
                },
                None => {},
            }
            j = j + 1;
        }
    }

    /// Checks the conformances of the program.
    pub fn build_conformances(&mut self, cx: &Sources)
        requires
            old(self).wf(),
            cx.program.fits(),
        ensures
            adds_to(old(self)@.names.diagnostics, final(self)@.names.diagnostics),
            final(self).wf(),
            later(old(self)@.names.types, final(self)@.names.types),
            final(self)@ == old(self)@.build_conformances(cx),
    {
        let ghost begun = self@;
        let count: u32 = cx.program.definitions.len() as u32;
        let mut i: u32 = 0;
        while i < count
            invariant
                adds_to(old(self)@.names.diagnostics, self@.names.diagnostics),
                i <= count,
                self.wf(),
                later(old(self)@.names.types, self@.names.types),
                self@ == begun.built(cx, i as nat),
            decreases count - i,
        {
            self.build_conformance(cx, DefId(i));
            i = i + 1;
        }
        self.finish_index();
        self.validate_associated_type_bindings(cx);
        let pairs = self.st.impl_index.overlapping_pairs(&self.names.types);
        self.report_overlaps(cx, &pairs);
    }
}

fn search(
    index: &ImplIndex,
    types: &mut TyInterner,
    goal: &Goal,
    environment: &ParamEnv,
) -> (answer:
    Result<WitnessSelection, SolveFailure>)
    requires
        types_wf(old(types)@),
    ensures
        types_wf(final(types)@),
        later(old(types)@, final(types)@),
        (final(types)@, answer) == solution(
            *index,
            *environment,
            old(types)@,
            Chain::Empty,
            *goal,
        ),
{
    let mut solver = ConformanceSolver::new(index, types);
    solver.solve(goal, environment)
}

} // verus!
