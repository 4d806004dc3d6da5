//! What a value of a type obliges its owner to.

use vstd::prelude::*;

use crate::chain::Chain;
use crate::conformance::{Goal, ParamEnv, SolveFailure, WitnessSelection};
#[allow(unused_imports)]
use crate::diagnostics::{adds_to, lemma_adds_nothing, lemma_adds_one, lemma_adds_through};
#[allow(unused_imports)]
use crate::growth::{later, lemma_later_itself, lemma_later_through};
use crate::hir::DefinitionKind;
use crate::ids::{DefId, TyId};
use crate::semantics::{CanonicalStdItems, Signature};
#[allow(unused_imports)]
use crate::solver::solution;
use crate::solver::ConformanceSolver;
#[allow(unused_imports)]
use crate::state::World;
use crate::state::{BodyChecker, Context};
#[allow(unused_imports)]
use crate::substitution::substituted;
use crate::substitution::Substitution;
use crate::table::{contains_id, insert_id};
#[allow(unused_imports)]
use crate::table::{has_id, id_inserted};
use crate::ty::{BuiltinType, ConceptInstance, TyData, TyInterner};
#[allow(unused_imports)]
use crate::ty::{ty_data, types_wf};
#[allow(unused_imports)]
use crate::unify::paired;
use crate::unify::substitution_for;

verus! {

broadcast use {
    lemma_adds_nothing,
    lemma_adds_one,
    lemma_adds_through,
    lemma_later_itself,
    lemma_later_through,
};

/// A property that a type has because of one of its parts.
#[derive(Clone, Copy, Debug, PartialEq, Eq, Structural)]
pub enum Carried {
    /// A resource that must be bound with `scoped`.
    MustScope,
    /// A task that must be consumed.
    Task,
    /// A part of which neither is known.
    Unknown,
    /// A part that cannot be compared. Symbolic types can where the flag is
    /// set.
    Incomparable { symbolic: bool },
}

/// The bounds that a body may rely on.
pub open spec fn environment_of(cx: &Context) -> ParamEnv {
    ParamEnv { bounds: cx.environment.bounds }
}

/// The types and the evidence, or the failure, for a conformance in a body.
pub open spec fn solved(
    cx: &Context,
    types: Seq<TyData>,
    goal: Goal,
) -> (Seq<TyData>, Result<WitnessSelection, SolveFailure>) {
    solution(*cx.impl_index, environment_of(cx), types, Chain::Empty, goal)
}

pub(crate) fn solve(cx: &Context, types: &mut TyInterner, goal: &Goal) -> (result: Result<
    WitnessSelection,
    SolveFailure,
>)
    requires
        types_wf(old(types)@),
    ensures
        types_wf(final(types)@),
        later(old(types)@, final(types)@),
        (final(types)@, result) == solved(cx, old(types)@, *goal),
{
    let environment = ParamEnv { bounds: cx.environment.bounds.clone() };
    let mut solver = ConformanceSolver::new(cx.impl_index, types);
    solver.solve(goal, &environment)
}

/// The goal that a type conforms to a concept without further conditions.
pub open spec fn marker_goal(ty: TyId, concept: DefId) -> Goal {
    Goal { self_ty: ty, concept: ConceptInstance { concept, bindings: Chain::Empty } }
}

/// The types and the evidence that `ty` conforms to a language concept.
pub open spec fn resource_conformance(
    cx: &Context,
    types: Seq<TyData>,
    ty: TyId,
    concept: Option<DefId>,
) -> (Seq<TyData>, Option<WitnessSelection>) {
    match concept {
        None => (types, None),
        Some(concept) => match solved(cx, types, marker_goal(ty, concept)) {
            (after, Ok(witness)) => (after, Some(witness)),
            (after, Err(_)) => (after, None),
        },
    }
}

pub(crate) fn find_resource_conformance(
    cx: &Context,
    types: &mut TyInterner,
    ty: TyId,
    concept: Option<DefId>,
) -> (witness: Option<WitnessSelection>)
    requires
        types_wf(old(types)@),
    ensures
        types_wf(final(types)@),
        later(old(types)@, final(types)@),
        (final(types)@, witness) == resource_conformance(cx, old(types)@, ty, concept),
{
    match concept {
        None => None,
        Some(concept) => {
            let goal = Goal {
                self_ty: ty,
                concept: ConceptInstance { concept, bindings: Chain::new() },
            };
            match solve(cx, types, &goal) {
                Ok(witness) => Some(witness),
                Err(_) => None,
            }
        },
    }
}

/// Whether the shape of a type decides the property without its parts.
pub open spec fn decided_by_shape(what: Carried, data: TyData) -> Option<bool> {
    match (what, data) {
        (Carried::MustScope, TyData::Task(_)) => Some(false),
        (Carried::Task, TyData::Task(_)) => Some(true),
        (Carried::Unknown, TyData::Param(_)) => Some(true),
        (Carried::Unknown, TyData::SelfType(_)) => Some(true),
        (
            Carried::Unknown,
            TyData::Projection { self_ty: _, concept: _, associated_type: _ },
        ) => Some(true),
        (Carried::Incomparable { symbolic: _ }, TyData::Builtin(builtin)) => Some(
            builtin == BuiltinType::ContractFault,
        ),
        (Carried::Incomparable { symbolic: _ }, TyData::Param(_)) => Some(true),
        (Carried::Incomparable { symbolic: _ }, TyData::DynTarget(_)) => Some(true),
        (
            Carried::Incomparable { symbolic: _ },
            TyData::View { mutability: _, target: _ },
        ) => Some(true),
        (Carried::Incomparable { symbolic: _ }, TyData::Task(_)) => Some(true),
        (Carried::Incomparable { symbolic }, TyData::SelfType(_)) => Some(!symbolic),
        (
            Carried::Incomparable { symbolic },
            TyData::Projection { self_ty: _, concept: _, associated_type: _ },
        ) => Some(!symbolic),
        _ => None,
    }
}

fn decide_by_shape(what: Carried, data: &TyData) -> (decision: Option<bool>)
    ensures
        decision == decided_by_shape(what, *data),
{
    match (what, data) {
        (Carried::MustScope, TyData::Task(_)) => Some(false),
        (Carried::Task, TyData::Task(_)) => Some(true),
        (Carried::Unknown, TyData::Param(_)) => Some(true),
        (Carried::Unknown, TyData::SelfType(_)) => Some(true),
        (
            Carried::Unknown,
            TyData::Projection { self_ty: _, concept: _, associated_type: _ },
        ) => Some(true),
        (Carried::Incomparable { symbolic: _ }, TyData::Builtin(builtin)) => Some(
            *builtin == BuiltinType::ContractFault,
        ),
        (Carried::Incomparable { symbolic: _ }, TyData::Param(_)) => Some(true),
        (Carried::Incomparable { symbolic: _ }, TyData::DynTarget(_)) => Some(true),
        (
            Carried::Incomparable { symbolic: _ },
            TyData::View { mutability: _, target: _ },
        ) => Some(true),
        (Carried::Incomparable { symbolic: _ }, TyData::Task(_)) => Some(true),
        (Carried::Incomparable { symbolic }, TyData::SelfType(_)) => Some(!symbolic),
        (
            Carried::Incomparable { symbolic },
            TyData::Projection { self_ty: _, concept: _, associated_type: _ },
        ) => Some(!symbolic),
        _ => None,
    }
}

/// Whether a nominal type is one of the opaque types of the standard library.
pub open spec fn opaque_std(items: CanonicalStdItems, definition: DefId) -> bool {
    items.file == Some(definition) || items.io_error == Some(definition) || items.socket == Some(
        definition,
    )
}

fn is_opaque_std(items: CanonicalStdItems, definition: DefId) -> (opaque: bool)
    ensures
        opaque == opaque_std(items, definition),
{
    items.file == Some(definition) || items.io_error == Some(definition) || items.socket == Some(
        definition,
    )
}

/// How deep the search for a property goes. A type that is nested deeper is
/// taken to have it.
pub const NESTING_LIMIT: u16 = 128;

/// The types, and whether `ty` has a property. `active` holds the nominal
/// types that are being looked into.
pub open spec fn carries(
    cx: &Context,
    what: Carried,
    types: Seq<TyData>,
    ty: TyId,
    active: Chain<u32>,
    depth: u16,
) -> (Seq<TyData>, bool)
    decreases NESTING_LIMIT - depth, 0nat, 0nat,
{
    if depth >= NESTING_LIMIT {
        (types, true)
    } else {
        match decided_by_shape(what, ty_data(types, ty)) {
            Some(decision) => (types, decision),
            None => {
                let (types, marked) = match what {
                    Carried::MustScope => {
                        let (after, witness) = resource_conformance(
                            cx,
                            types,
                            ty,
                            cx.canonical_concepts.must_scope,
                        );
                        (after, witness is Some)
                    },
                    _ => (types, false),
                };
                if marked {
                    (types, true)
                } else {
                    carried_by_parts(cx, what, types, ty, active, (depth + 1) as u16)
                }
            },
        }
    }
}

/// Whether a part of `ty` has a property. The parts are at `depth`.
pub open spec fn carried_by_parts(
    cx: &Context,
    what: Carried,
    types: Seq<TyData>,
    ty: TyId,
    active: Chain<u32>,
    depth: u16,
) -> (Seq<TyData>, bool)
    decreases NESTING_LIMIT - depth, 4nat, 0nat,
{
    match ty_data(types, ty) {
        TyData::Tuple(elements) => any_carries(cx, what, types, elements, active, depth),
        TyData::List(element) => carries(cx, what, types, element, active, depth),
        TyData::TextMap(element) => carries(cx, what, types, element, active, depth),
        TyData::Option(element) => carries(cx, what, types, element, active, depth),
        TyData::TaskOutcome(element) => carries(cx, what, types, element, active, depth),
        TyData::Result { ok, error } => {
            let (between, first) = carries(cx, what, types, ok, active, depth);
            if first {
                (between, true)
            } else {
                carries(cx, what, between, error, active, depth)
            }
        },
        TyData::Nominal { definition, arguments } => if what is Incomparable && opaque_std(
            cx.canonical_std_items,
            definition,
        ) {
            (types, true)
        } else if has_id(active, ty.0) {
            (types, false)
        } else {
            let substitution = paired(
                cx.program.type_params_of(definition),
                arguments,
                Substitution::empty(),
            );
            let active = id_inserted(active, ty.0);
            match cx.program.kind_of(definition) {
                Some(DefinitionKind::RefinedType { base, predicate: _ }) =>
                    match cx.type_refs.lookup(base.0) {
                        None => (types, what is Incomparable),
                        Some(base) => {
                            let (between, base) = substituted(types, base, substitution);
                            carries(cx, what, between, base, active, depth)
                        },
                    },
                Some(DefinitionKind::Record { generic_params: _, fields, invariant_body: _ }) =>
                    field_carries(cx, what, types, fields, substitution, active, depth),
                Some(DefinitionKind::Enum { generic_params: _, variants }) => variant_carries(
                    cx,
                    what,
                    types,
                    variants,
                    substitution,
                    active,
                    depth,
                ),
                _ => (types, what is Incomparable),
            }
        },
        _ => (types, false),
    }
}

pub open spec fn any_carries(
    cx: &Context,
    what: Carried,
    types: Seq<TyData>,
    list: Chain<TyId>,
    active: Chain<u32>,
    depth: u16,
) -> (Seq<TyData>, bool)
    decreases NESTING_LIMIT - depth, 1nat, list.spec_len(),
{
    match list {
        Chain::Empty => (types, false),
        Chain::Link(link) => {
            let (between, before) = any_carries(cx, what, types, link.rest, active, depth);
            if before {
                (between, true)
            } else {
                carries(cx, what, between, link.item, active, depth)
            }
        },
    }
}

pub open spec fn field_carries(
    cx: &Context,
    what: Carried,
    types: Seq<TyData>,
    fields: Chain<DefId>,
    substitution: Substitution,
    active: Chain<u32>,
    depth: u16,
) -> (Seq<TyData>, bool)
    decreases NESTING_LIMIT - depth, 1nat, fields.spec_len(),
{
    match fields {
        Chain::Empty => (types, false),
        Chain::Link(link) => {
            let (between, before) = field_carries(
                cx,
                what,
                types,
                link.rest,
                substitution,
                active,
                depth,
            );
            if before {
                (between, true)
            } else {
                match cx.signature_of(link.item) {
                    Some(Signature::Field { owner: _, ty }) => {
                        let (after, ty) = substituted(between, ty, substitution);
                        carries(cx, what, after, ty, active, depth)
                    },
                    _ => (between, what is Incomparable),
                }
            }
        },
    }
}

pub open spec fn payload_carries(
    cx: &Context,
    what: Carried,
    types: Seq<TyData>,
    payload: Chain<TyId>,
    substitution: Substitution,
    active: Chain<u32>,
    depth: u16,
) -> (Seq<TyData>, bool)
    decreases NESTING_LIMIT - depth, 1nat, payload.spec_len(),
{
    match payload {
        Chain::Empty => (types, false),
        Chain::Link(link) => {
            let (between, before) = payload_carries(
                cx,
                what,
                types,
                link.rest,
                substitution,
                active,
                depth,
            );
            if before {
                (between, true)
            } else {
                let (after, ty) = substituted(between, link.item, substitution);
                carries(cx, what, after, ty, active, depth)
            }
        },
    }
}

pub open spec fn variant_carries(
    cx: &Context,
    what: Carried,
    types: Seq<TyData>,
    variants: Chain<DefId>,
    substitution: Substitution,
    active: Chain<u32>,
    depth: u16,
) -> (Seq<TyData>, bool)
    decreases NESTING_LIMIT - depth, 2nat, variants.spec_len(),
{
    match variants {
        Chain::Empty => (types, false),
        Chain::Link(link) => {
            let (between, before) = variant_carries(
                cx,
                what,
                types,
                link.rest,
                substitution,
                active,
                depth,
            );
            if before {
                (between, true)
            } else {
                match cx.signature_of(link.item) {
                    Some(Signature::Variant { owner: _, payload }) => payload_carries(
                        cx,
                        what,
                        between,
                        payload,
                        substitution,
                        active,
                        depth,
                    ),
                    _ => (between, what is Incomparable),
                }
            }
        },
    }
}

fn check_carries(
    cx: &Context,
    what: Carried,
    types: &mut TyInterner,
    ty: TyId,
    active: &Chain<u32>,
    depth: u16,
) -> (result: bool)
    requires
        types_wf(old(types)@),
    ensures
        types_wf(final(types)@),
        later(old(types)@, final(types)@),
        (final(types)@, result) == carries(cx, what, old(types)@, ty, *active, depth),
    decreases NESTING_LIMIT - depth, 0nat, 0nat,
{
    if depth >= NESTING_LIMIT {
        return true;
    }
    match decide_by_shape(what, types.data(ty)) {
        Some(decision) => decision,
        None => {
            let marked = match what {
                Carried::MustScope => find_resource_conformance(
                    cx,
                    types,
                    ty,
                    cx.canonical_concepts.must_scope,
                ).is_some(),
                _ => false,
            };
            if marked {
                true
            } else {
                check_parts(cx, what, types, ty, active, depth + 1)
            }
        },
    }
}

fn check_parts(
    cx: &Context,
    what: Carried,
    types: &mut TyInterner,
    ty: TyId,
    active: &Chain<u32>,
    depth: u16,
) -> (result: bool)
    requires
        types_wf(old(types)@),
        depth <= NESTING_LIMIT,
    ensures
        types_wf(final(types)@),
        later(old(types)@, final(types)@),
        (final(types)@, result) == carried_by_parts(cx, what, old(types)@, ty, *active, depth),
    decreases NESTING_LIMIT - depth, 4nat, 0nat,
{
    match types.data(ty).clone() {
        TyData::Tuple(elements) => check_any(cx, what, types, &elements, active, depth),
        TyData::List(element) => check_carries(cx, what, types, element, active, depth),
        TyData::TextMap(element) => check_carries(cx, what, types, element, active, depth),
        TyData::Option(element) => check_carries(cx, what, types, element, active, depth),
        TyData::TaskOutcome(element) => check_carries(cx, what, types, element, active, depth),
        TyData::Result { ok, error } => {
            check_carries(cx, what, types, ok, active, depth) || check_carries(
                cx,
                what,
                types,
                error,
                active,
                depth,
            )
        },
        TyData::Nominal { definition, arguments } => {
            let incomparable = match what {
                Carried::Incomparable { symbolic: _ } => true,
                _ => false,
            };
            if incomparable && is_opaque_std(cx.canonical_std_items, definition) {
                return true;
            }
            if contains_id(active, ty.0) {
                return false;
            }
            let substitution = substitution_for(
                &cx.program.type_generic_params(definition),
                &arguments,
            );
            let active = insert_id(active, ty.0);
            match cx.program.kind(definition) {
                Some(DefinitionKind::RefinedType { base, predicate: _ }) =>
                    match cx.type_refs.get(base.0) {
                        None => incomparable,
                        Some(base) => {
                            let base: TyId = types.substitute(*base, &substitution);
                            check_carries(cx, what, types, base, &active, depth)
                        },
                    },
                Some(DefinitionKind::Record { generic_params: _, fields, invariant_body: _ }) =>
                    check_fields(cx, what, types, fields, &substitution, &active, depth),
                Some(DefinitionKind::Enum { generic_params: _, variants }) => check_variants(
                    cx,
                    what,
                    types,
                    variants,
                    &substitution,
                    &active,
                    depth,
                ),
                _ => incomparable,
            }
        },
        _ => false,
    }
}

fn check_any(
    cx: &Context,
    what: Carried,
    types: &mut TyInterner,
    list: &Chain<TyId>,
    active: &Chain<u32>,
    depth: u16,
) -> (result: bool)
    requires
        types_wf(old(types)@),
        depth <= NESTING_LIMIT,
    ensures
        types_wf(final(types)@),
        later(old(types)@, final(types)@),
        (final(types)@, result) == any_carries(cx, what, old(types)@, *list, *active, depth),
    decreases NESTING_LIMIT - depth, 1nat, list.spec_len(),
{
    match list {
        Chain::Empty => false,
        Chain::Link(link) => {
            check_any(cx, what, types, &link.rest, active, depth) || check_carries(
                cx,
                what,
                types,
                link.item,
                active,
                depth,
            )
        },
    }
}

fn check_fields(
    cx: &Context,
    what: Carried,
    types: &mut TyInterner,
    fields: &Chain<DefId>,
    substitution: &Substitution,
    active: &Chain<u32>,
    depth: u16,
) -> (result: bool)
    requires
        types_wf(old(types)@),
        depth <= NESTING_LIMIT,
    ensures
        types_wf(final(types)@),
        later(old(types)@, final(types)@),
        (final(types)@, result) == field_carries(
            cx,
            what,
            old(types)@,
            *fields,
            *substitution,
            *active,
            depth,
        ),
    decreases NESTING_LIMIT - depth, 1nat, fields.spec_len(),
{
    match fields {
        Chain::Empty => false,
        Chain::Link(link) => {
            if check_fields(cx, what, types, &link.rest, substitution, active, depth) {
                return true;
            }
            match cx.signature(link.item) {
                Some(Signature::Field { owner: _, ty }) => {
                    let ty: TyId = types.substitute(*ty, substitution);
                    check_carries(cx, what, types, ty, active, depth)
                },
                _ => match what {
                    Carried::Incomparable { symbolic: _ } => true,
                    _ => false,
                },
            }
        },
    }
}

fn check_payload(
    cx: &Context,
    what: Carried,
    types: &mut TyInterner,
    payload: &Chain<TyId>,
    substitution: &Substitution,
    active: &Chain<u32>,
    depth: u16,
) -> (result: bool)
    requires
        types_wf(old(types)@),
        depth <= NESTING_LIMIT,
    ensures
        types_wf(final(types)@),
        later(old(types)@, final(types)@),
        (final(types)@, result) == payload_carries(
            cx,
            what,
            old(types)@,
            *payload,
            *substitution,
            *active,
            depth,
        ),
    decreases NESTING_LIMIT - depth, 1nat, payload.spec_len(),
{
    match payload {
        Chain::Empty => false,
        Chain::Link(link) => {
            if check_payload(cx, what, types, &link.rest, substitution, active, depth) {
                return true;
            }
            let ty: TyId = types.substitute(link.item, substitution);
            check_carries(cx, what, types, ty, active, depth)
        },
    }
}

fn check_variants(
    cx: &Context,
    what: Carried,
    types: &mut TyInterner,
    variants: &Chain<DefId>,
    substitution: &Substitution,
    active: &Chain<u32>,
    depth: u16,
) -> (result: bool)
    requires
        types_wf(old(types)@),
        depth <= NESTING_LIMIT,
    ensures
        types_wf(final(types)@),
        later(old(types)@, final(types)@),
        (final(types)@, result) == variant_carries(
            cx,
            what,
            old(types)@,
            *variants,
            *substitution,
            *active,
            depth,
        ),
    decreases NESTING_LIMIT - depth, 2nat, variants.spec_len(),
{
    match variants {
        Chain::Empty => false,
        Chain::Link(link) => {
            if check_variants(cx, what, types, &link.rest, substitution, active, depth) {
                return true;
            }
            match cx.signature(link.item) {
                Some(Signature::Variant { owner: _, payload }) => check_payload(
                    cx,
                    what,
                    types,
                    payload,
                    substitution,
                    active,
                    depth,
                ),
                _ => match what {
                    Carried::Incomparable { symbolic: _ } => true,
                    _ => false,
                },
            }
        },
    }
}

impl World {
    #[verifier::opaque]
    pub open spec fn carries(self, cx: &Context, what: Carried, ty: TyId) -> (World, bool) {
        let (types, result) = carries(cx, what, self.types, ty, Chain::Empty, 0);
        (World { types, ..self }, result)
    }

    pub open spec fn has_must_scope_obligation(self, cx: &Context, ty: TyId) -> (World, bool) {
        self.carries(cx, Carried::MustScope, ty)
    }

    pub open spec fn has_task_obligation(self, cx: &Context, ty: TyId) -> (World, bool) {
        self.carries(cx, Carried::Task, ty)
    }

    pub open spec fn has_unknown_discard_obligation(
        self,
        cx: &Context,
        ty: TyId,
    ) -> (World, bool) {
        self.carries(cx, Carried::Unknown, ty)
    }

    pub open spec fn may_have_task_obligation(self, cx: &Context, ty: TyId) -> (World, bool) {
        let (w, has) = self.has_task_obligation(cx, ty);
        if has {
            (w, true)
        } else {
            w.has_unknown_discard_obligation(cx, ty)
        }
    }
}

impl BodyChecker {
    pub fn carries(&mut self, cx: &Context, what: Carried, ty: TyId) -> (result: bool)
        requires
            old(self).wf(),
        ensures
            adds_to(old(self)@.st.diagnostics, final(self)@.st.diagnostics),
            final(self).wf(),
            later(old(self)@.types, final(self)@.types),
            (final(self)@, result) == old(self)@.carries(cx, what, ty),
    {
        proof {
            reveal(World::carries);
        }
        check_carries(cx, what, &mut self.types, ty, &Chain::new(), 0)
    }

    /// A value of the type must be bound with `scoped`.
    pub fn has_must_scope_obligation(&mut self, cx: &Context, ty: TyId) -> (result: bool)
        requires
            old(self).wf(),
        ensures
            adds_to(old(self)@.st.diagnostics, final(self)@.st.diagnostics),
            final(self).wf(),
            later(old(self)@.types, final(self)@.types),
            (final(self)@, result) == old(self)@.has_must_scope_obligation(cx, ty),
    {
        self.carries(cx, Carried::MustScope, ty)
    }

    /// A value of the type holds a task that must be consumed.
    pub fn has_task_obligation(&mut self, cx: &Context, ty: TyId) -> (result: bool)
        requires
            old(self).wf(),
        ensures
            adds_to(old(self)@.st.diagnostics, final(self)@.st.diagnostics),
            final(self).wf(),
            later(old(self)@.types, final(self)@.types),
            (final(self)@, result) == old(self)@.has_task_obligation(cx, ty),
    {
        self.carries(cx, Carried::Task, ty)
    }

    /// It is not known whether a value of the type may be dropped.
    pub fn has_unknown_discard_obligation(&mut self, cx: &Context, ty: TyId) -> (result: bool)
        requires
            old(self).wf(),
        ensures
            adds_to(old(self)@.st.diagnostics, final(self)@.st.diagnostics),
            final(self).wf(),
            later(old(self)@.types, final(self)@.types),
            (final(self)@, result) == old(self)@.has_unknown_discard_obligation(cx, ty),
    {
        self.carries(cx, Carried::Unknown, ty)
    }

    pub fn may_have_task_obligation(&mut self, cx: &Context, ty: TyId) -> (result: bool)
        requires
            old(self).wf(),
        ensures
            adds_to(old(self)@.st.diagnostics, final(self)@.st.diagnostics),
            final(self).wf(),
            later(old(self)@.types, final(self)@.types),
            (final(self)@, result) == old(self)@.may_have_task_obligation(cx, ty),
    {
        self.has_task_obligation(cx, ty) || self.has_unknown_discard_obligation(cx, ty)
    }
}

} // verus!
