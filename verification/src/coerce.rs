//! How a value is adapted to an expected type, and the evidence that calls
//! need.

use vstd::prelude::*;

use crate::chain::Chain;
use crate::conformance::{Goal, SolveFailure, WitnessSelection};
#[allow(unused_imports)]
use crate::diagnostics::{adds_to, lemma_adds_nothing, lemma_adds_one, lemma_adds_through};
use crate::diagnostics::Message;
use crate::flow::{ActiveBorrow, BorrowIdentity};
#[allow(unused_imports)]
use crate::growth::{later, lemma_later_itself, lemma_later_through};
use crate::hir::{DefinitionKind, Expr};
use crate::ids::{DefId, LocalId, PatternId, Span, TyId};
#[allow(unused_imports)]
use crate::flow::FlowState;
use crate::obligations::{find_resource_conformance, solve, Carried};
#[allow(unused_imports)]
use crate::obligations::{resource_conformance, solved};
use crate::semantics::{
    CallableSignature, Coercion, Place, PlaceRoot, Resolution, ViewResolution, ViewSource,
};
#[allow(unused_imports)]
use crate::solver::goal_substituted;
use crate::solver::substitute_concept;
use crate::state::{BodyChecker, CheckState, Context, ContractMode, DynamicCoercionMode};
#[allow(unused_imports)]
use crate::state::World;
use crate::substitution::Substitution;
#[allow(unused_imports)]
use crate::symbolic::root_term;
use crate::symbolic::{make_root_term, ProofRoot};
use crate::table::insert_id;
#[allow(unused_imports)]
use crate::table::id_inserted;
use crate::ty::{
    AssociatedTypeBinding, BuiltinType, ConceptInstance, Mutability, TyData, TyInterner,
};
#[allow(unused_imports)]
use crate::ty::{error_ty, ty_data, types_wf};
use crate::unify::find_first_binding;
#[allow(unused_imports)]
use crate::unify::{first_binding, made};

verus! {

broadcast use {
    lemma_adds_nothing,
    lemma_adds_one,
    lemma_adds_through,
    lemma_later_itself,
    lemma_later_through,
};

/// That a type conforms to a concept, with the associated types.
pub struct Evidence {
    pub target: TyId,
    pub concept: DefId,
    pub bindings: Chain<AssociatedTypeBinding>,
}

/// What the first matching evidence binds an associated type to.
pub open spec fn evident_type(
    evidence: Chain<Evidence>,
    target: TyId,
    concept: DefId,
    associated_type: DefId,
) -> Option<TyId> {
    match first_evidence(evidence, target, concept) {
        Some(bindings) => first_binding(bindings, associated_type),
        None => None,
    }
}

pub open spec fn first_evidence(
    evidence: Chain<Evidence>,
    target: TyId,
    concept: DefId,
) -> Option<Chain<AssociatedTypeBinding>>
    decreases evidence,
{
    match evidence {
        Chain::Empty => None,
        Chain::Link(link) => match first_evidence(link.rest, target, concept) {
            Some(found) => Some(found),
            None => if link.item.target == target && link.item.concept == concept {
                Some(link.item.bindings)
            } else {
                None
            },
        },
    }
}

fn find_first_evidence(evidence: &Chain<Evidence>, target: TyId, concept: DefId) -> (result: Option<
    Chain<AssociatedTypeBinding>,
>)
    ensures
        result == first_evidence(*evidence, target, concept),
    decreases evidence,
{
    match evidence {
        Chain::Empty => None,
        Chain::Link(link) => match find_first_evidence(&link.rest, target, concept) {
            Some(found) => Some(found),
            None => if link.item.target == target && link.item.concept == concept {
                Some(link.item.bindings.clone())
            } else {
                None
            },
        },
    }
}

/// How many steps a type is normalised for.
pub const NORMAL_FORM_LIMIT: u32 = u32::MAX;

/// The types and the type that come of replacing associated types by what the
/// evidence binds them to, in at most `budget` nested steps.
pub open spec fn normalized(
    types: Seq<TyData>,
    ty: TyId,
    evidence: Chain<Evidence>,
    budget: u32,
) -> (Seq<TyData>, TyId)
    decreases budget, 0nat, 0nat,
{
    if budget == 0 {
        (types, ty)
    } else {
        let next = (budget - 1) as u32;
        match ty_data(types, ty) {
            TyData::Projection { self_ty, concept, associated_type } => {
                let (between, self_ty) = normalized(types, self_ty, evidence, next);
                match evident_type(evidence, self_ty, concept, associated_type) {
                    Some(bound) => normalized(between, bound, evidence, next),
                    None => made(
                        between,
                        TyData::Projection { self_ty, concept, associated_type },
                    ),
                }
            },
            TyData::Tuple(elements) => {
                let (between, elements) = normalized_list(types, elements, evidence, next);
                made(between, TyData::Tuple(elements))
            },
            TyData::List(element) => {
                let (between, element) = normalized(types, element, evidence, next);
                made(between, TyData::List(element))
            },
            TyData::TextMap(value) => {
                let (between, value) = normalized(types, value, evidence, next);
                made(between, TyData::TextMap(value))
            },
            TyData::Option(element) => {
                let (between, element) = normalized(types, element, evidence, next);
                made(between, TyData::Option(element))
            },
            TyData::Result { ok, error } => {
                let (between, ok) = normalized(types, ok, evidence, next);
                let (after, error) = normalized(between, error, evidence, next);
                made(after, TyData::Result { ok, error })
            },
            TyData::Task(output) => {
                let (between, output) = normalized(types, output, evidence, next);
                made(between, TyData::Task(output))
            },
            TyData::TaskOutcome(output) => {
                let (between, output) = normalized(types, output, evidence, next);
                made(between, TyData::TaskOutcome(output))
            },
            TyData::Nominal { definition, arguments } => {
                let (between, arguments) = normalized_list(types, arguments, evidence, next);
                made(between, TyData::Nominal { definition, arguments })
            },
            TyData::DynTarget(instance) => {
                let (between, bindings) = normalized_bindings(
                    types,
                    instance.bindings,
                    evidence,
                    next,
                );
                made(between, TyData::DynTarget(ConceptInstance { bindings, ..instance }))
            },
            TyData::View { mutability, target } => {
                let (between, target) = normalized(types, target, evidence, next);
                made(between, TyData::View { mutability, target })
            },
            _ => (types, ty),
        }
    }
}

pub open spec fn normalized_list(
    types: Seq<TyData>,
    list: Chain<TyId>,
    evidence: Chain<Evidence>,
    budget: u32,
) -> (Seq<TyData>, Chain<TyId>)
    decreases budget, 1nat, list.spec_len(),
{
    match list {
        Chain::Empty => (types, Chain::Empty),
        Chain::Link(link) => {
            let (between, rest) = normalized_list(types, link.rest, evidence, budget);
            let (after, ty) = normalized(between, link.item, evidence, budget);
            (after, rest.pushed(ty))
        },
    }
}

pub open spec fn normalized_bindings(
    types: Seq<TyData>,
    bindings: Chain<AssociatedTypeBinding>,
    evidence: Chain<Evidence>,
    budget: u32,
) -> (Seq<TyData>, Chain<AssociatedTypeBinding>)
    decreases budget, 1nat, bindings.spec_len(),
{
    match bindings {
        Chain::Empty => (types, Chain::Empty),
        Chain::Link(link) => {
            let (between, rest) = normalized_bindings(types, link.rest, evidence, budget);
            let (after, ty) = normalized(between, link.item.ty, evidence, budget);
            (after, rest.pushed(AssociatedTypeBinding { ty, ..link.item }))
        },
    }
}

pub(crate) fn normalize_type_with_evidence(
    types: &mut TyInterner,
    ty: TyId,
    evidence: &Chain<Evidence>,
    budget: u32,
) -> (result: TyId)
    requires
        types_wf(old(types)@),
    ensures
        types_wf(final(types)@),
        later(old(types)@, final(types)@),
        (final(types)@, result) == normalized(old(types)@, ty, *evidence, budget),
    decreases budget, 0nat, 0nat,
{
    if budget == 0 {
        return ty;
    }
    let next: u32 = budget - 1;
    let data = types.data(ty).clone();
    match data {
        TyData::Projection { self_ty, concept, associated_type } => {
            let self_ty = normalize_type_with_evidence(types, self_ty, evidence, next);
            let bound = match find_first_evidence(evidence, self_ty, concept) {
                Some(bindings) => find_first_binding(&bindings, associated_type),
                None => None,
            };
            match bound {
                Some(bound) => normalize_type_with_evidence(types, bound, evidence, next),
                None => types.intern(TyData::Projection { self_ty, concept, associated_type }),
            }
        },
        TyData::Tuple(elements) => {
            let elements = normalize_list(types, &elements, evidence, next);
            types.intern(TyData::Tuple(elements))
        },
        TyData::List(element) => {
            let element = normalize_type_with_evidence(types, element, evidence, next);
            types.intern(TyData::List(element))
        },
        TyData::TextMap(value) => {
            let value = normalize_type_with_evidence(types, value, evidence, next);
            types.intern(TyData::TextMap(value))
        },
        TyData::Option(element) => {
            let element = normalize_type_with_evidence(types, element, evidence, next);
            types.intern(TyData::Option(element))
        },
        TyData::Result { ok, error } => {
            let ok = normalize_type_with_evidence(types, ok, evidence, next);
            let error = normalize_type_with_evidence(types, error, evidence, next);
            types.intern(TyData::Result { ok, error })
        },
        TyData::Task(output) => {
            let output = normalize_type_with_evidence(types, output, evidence, next);
            types.intern(TyData::Task(output))
        },
        TyData::TaskOutcome(output) => {
            let output = normalize_type_with_evidence(types, output, evidence, next);
            types.intern(TyData::TaskOutcome(output))
        },
        TyData::Nominal { definition, arguments } => {
            let arguments = normalize_list(types, &arguments, evidence, next);
            types.intern(TyData::Nominal { definition, arguments })
        },
        TyData::DynTarget(instance) => {
            let bindings = normalize_bindings(types, &instance.bindings, evidence, next);
            types.intern(TyData::DynTarget(ConceptInstance { concept: instance.concept, bindings }))
        },
        TyData::View { mutability, target } => {
            let target = normalize_type_with_evidence(types, target, evidence, next);
            types.intern(TyData::View { mutability, target })
        },
        _ => ty,
    }
}

fn normalize_list(
    types: &mut TyInterner,
    list: &Chain<TyId>,
    evidence: &Chain<Evidence>,
    budget: u32,
) -> (result: Chain<TyId>)
    requires
        types_wf(old(types)@),
    ensures
        types_wf(final(types)@),
        later(old(types)@, final(types)@),
        (final(types)@, result) == normalized_list(old(types)@, *list, *evidence, budget),
    decreases budget, 1nat, list.spec_len(),
{
    match list {
        Chain::Empty => Chain::new(),
        Chain::Link(link) => {
            let rest = normalize_list(types, &link.rest, evidence, budget);
            let ty = normalize_type_with_evidence(types, link.item, evidence, budget);
            rest.with(ty)
        },
    }
}

fn normalize_bindings(
    types: &mut TyInterner,
    bindings: &Chain<AssociatedTypeBinding>,
    evidence: &Chain<Evidence>,
    budget: u32,
) -> (result: Chain<AssociatedTypeBinding>)
    requires
        types_wf(old(types)@),
    ensures
        types_wf(final(types)@),
        later(old(types)@, final(types)@),
        (final(types)@, result) == normalized_bindings(old(types)@, *bindings, *evidence, budget),
    decreases budget, 1nat, bindings.spec_len(),
{
    match bindings {
        Chain::Empty => Chain::new(),
        Chain::Link(link) => {
            let rest = normalize_bindings(types, &link.rest, evidence, budget);
            let ty = normalize_type_with_evidence(types, link.item.ty, evidence, budget);
            rest.with(AssociatedTypeBinding { associated_type: link.item.associated_type, ty })
        },
    }
}

/// The name of a local.
pub open spec fn local_name(cx: &Context, local: LocalId) -> Option<Seq<char>> {
    match cx.local_of(local) {
        Some(found) => Some(found.name@),
        None => None,
    }
}

fn same_local_name(cx: &Context, left: LocalId, right: LocalId) -> (same: bool)
    ensures
        same == (local_name(cx, left) == local_name(cx, right)),
{
    match (cx.local(left), cx.local(right)) {
        (Some(a), Some(b)) => a.name == b.name,
        (None, None) => true,
        _ => false,
    }
}

/// A scope with one more local, which hides an older one of the same name.
pub open spec fn scope_with(cx: &Context, scope: Chain<LocalId>, local: LocalId) -> Chain<LocalId> {
    scope_without(cx, scope, local).pushed(local)
}

pub open spec fn scope_without(
    cx: &Context,
    scope: Chain<LocalId>,
    local: LocalId,
) -> Chain<LocalId>
    decreases scope,
{
    match scope {
        Chain::Empty => scope,
        Chain::Link(link) => if local_name(cx, link.item) == local_name(cx, local) {
            scope_without(cx, link.rest, local)
        } else {
            scope_without(cx, link.rest, local).pushed(link.item)
        },
    }
}

fn remove_name(cx: &Context, scope: &Chain<LocalId>, local: LocalId) -> (result: Chain<LocalId>)
    ensures
        result == scope_without(cx, *scope, local),
    decreases scope,
{
    match scope {
        Chain::Empty => Chain::new(),
        Chain::Link(link) => if same_local_name(cx, link.item, local) {
            remove_name(cx, &link.rest, local)
        } else {
            remove_name(cx, &link.rest, local).with(link.item)
        },
    }
}

/// The next value of a counter that stays at its greatest value.
pub open spec fn counted(counter: u32) -> u32 {
    if counter < u32::MAX {
        (counter + 1) as u32
    } else {
        counter
    }
}

pub(crate) fn count(counter: u32) -> (next: u32)
    ensures
        next == counted(counter),
{
    if counter < u32::MAX {
        counter + 1
    } else {
        counter
    }
}

/// The place can be written.
pub open spec fn is_mutable_place(place: Option<Place>) -> bool {
    match place {
        Some(place) => place.mutability == Mutability::Mutable,
        None => false,
    }
}

fn check_mutable_place(place: &Option<Place>) -> (mutable: bool)
    ensures
        mutable == is_mutable_place(*place),
{
    match place {
        Some(place) => place.mutability == Mutability::Mutable,
        None => false,
    }
}

pub open spec fn failure_code(failure: SolveFailure) -> &'static str {
    match failure {
        SolveFailure::Missing => "MissingConformance",
        SolveFailure::Ambiguous(_) => "DuplicateConformance",
        SolveFailure::Cycle(_) => "ConformanceResolutionCycle",
        _ => "DynAssociatedTypeMismatch",
    }
}

pub open spec fn failure_text(failure: SolveFailure) -> &'static str {
    match failure {
        SolveFailure::Missing => "no conformance satisfies this concept requirement",
        SolveFailure::Ambiguous(_) => "multiple conformances satisfy this concept requirement",
        SolveFailure::Cycle(_) => "conformance resolution entered a cycle",
        _ => "conformance associated binding differs from the dyn target",
    }
}

fn describe_failure(failure: &SolveFailure) -> (result: (&'static str, &'static str))
    ensures
        result == (failure_code(*failure), failure_text(*failure)),
{
    match failure {
        SolveFailure::Missing => (
            "MissingConformance",
            "no conformance satisfies this concept requirement",
        ),
        SolveFailure::Ambiguous(_) => (
            "DuplicateConformance",
            "multiple conformances satisfy this concept requirement",
        ),
        SolveFailure::Cycle(_) => (
            "ConformanceResolutionCycle",
            "conformance resolution entered a cycle",
        ),
        _ => (
            "DynAssociatedTypeMismatch",
            "conformance associated binding differs from the dyn target",
        ),
    }
}

/// Contracts of a concept may compare values of symbolic types.
pub open spec fn symbolic_equality_allowed(cx: &Context, contract: ContractMode) -> bool {
    contract != ContractMode::Ordinary && match cx.program.kind_of(
        cx.environment.owner,
    ) {
        Some(DefinitionKind::Method { owner, signature: _ }) => match cx.program.kind_of(owner) {
            Some(
                DefinitionKind::Concept { dyn_capable: _, associated_types: _, requirements: _ },
            ) => true,
            _ => false,
        },
        _ => false,
    }
}

fn symbolic_concept_contract_equality_allowed(
    cx: &Context,
    contract: ContractMode,
) -> (allowed: bool)
    ensures
        allowed == symbolic_equality_allowed(cx, contract),
{
    contract != ContractMode::Ordinary && match cx.program.kind(
        cx.environment.owner,
    ) {
        Some(DefinitionKind::Method { owner, signature: _ }) => match cx.program.kind(*owner) {
            Some(
                DefinitionKind::Concept { dyn_capable: _, associated_types: _, requirements: _ },
            ) => true,
            _ => false,
        },
        _ => false,
    }
}

impl World {
    pub open spec fn is_error(self, ty: TyId) -> bool {
        self.data(ty) is Error
    }

    /// The type that a refined type refines, if it is resolved.
    pub open spec fn base_of(self, cx: &Context, ty: TyId) -> Option<TyId> {
        match self.data(ty) {
            TyData::Nominal { definition, arguments: _ } => match cx.program.kind_of(definition) {
                Some(DefinitionKind::RefinedType { base, predicate: _ }) => cx.type_refs.lookup(
                    base.0,
                ),
                _ => None,
            },
            _ => None,
        }
    }

    /// The refined type that `ty` is.
    pub open spec fn refined_of(self, cx: &Context, ty: TyId) -> Option<DefId> {
        match self.data(ty) {
            TyData::Nominal { definition, arguments: _ } => match cx.program.kind_of(definition) {
                Some(DefinitionKind::RefinedType { base: _, predicate: _ }) => Some(definition),
                _ => None,
            },
            _ => None,
        }
    }

    /// A value of type `actual` can stand where `expected` is asked for.
    pub open spec fn assignable(self, cx: &Context, actual: TyId, expected: TyId) -> bool {
        actual == expected || self.is_error(actual) || self.is_error(expected) || self.data(
            actual,
        ) is Never || self.base_of(cx, actual) == Some(expected)
    }

    pub open spec fn is_builtin_or_refined(
        self,
        cx: &Context,
        ty: TyId,
        builtin: BuiltinType,
    ) -> bool {
        self.data(ty) == TyData::Builtin(builtin) || match self.base_of(cx, ty) {
            Some(base) => self.data(base) == TyData::Builtin(builtin),
            None => false,
        }
    }

    #[verifier::opaque]
    pub open spec fn join_types(self, cx: &Context, left: TyId, right: TyId, span: Span) -> (
        World,
        TyId,
    ) {
        if self.assignable(cx, right, left) {
            (self, left)
        } else if self.assignable(cx, left, right) {
            (self, right)
        } else {
            (
                self.error(
                    "TypeMismatch",
                    Message::Types(
                        "branches have incompatible types ",
                        left,
                        " and ",
                        right,
                        "",
                    ),
                    span,
                ),
                error_ty(),
            )
        }
    }

    #[verifier::opaque]
    pub open spec fn supports_value_equality(self, cx: &Context, ty: TyId) -> (World, bool) {
        let (w, carries) = self.carries(
            cx,
            Carried::Incomparable { symbolic: symbolic_equality_allowed(cx, self.st.contract) },
            ty,
        );
        (w, !carries)
    }

    #[verifier::opaque]
    pub open spec fn solve_witness(self, cx: &Context, goal: Goal, span: Span) -> (
        World,
        Option<WitnessSelection>,
    ) {
        match solved(cx, self.types, goal) {
            (types, Ok(witness)) => (World { types, ..self }, Some(witness)),
            (types, Err(failure)) => (
                World { types, ..self }.text_error(
                    failure_code(failure),
                    failure_text(failure),
                    span,
                ),
                None,
            ),
        }
    }

    #[verifier::opaque]
    pub open spec fn resource_witness(self, cx: &Context, ty: TyId, concept: Option<DefId>) -> (
        World,
        Option<WitnessSelection>,
    ) {
        let (types, witness) = resource_conformance(cx, self.types, ty, concept);
        (World { types, ..self }, witness)
    }

    /// The evidence for the bounds of a signature.
    #[verifier::opaque]
    pub open spec fn resolve_bounds(
        self,
        cx: &Context,
        bounds: Chain<Goal>,
        substitution: Substitution,
        span: Span,
    ) -> (World, Chain<WitnessSelection>)
        decreases bounds,
    {
        match bounds {
            Chain::Empty => (self, Chain::Empty),
            Chain::Link(link) => {
                let (w, witnesses) = self.resolve_bounds(cx, link.rest, substitution, span);
                let (types, goal) = goal_substituted(w.types, link.item, substitution);
                let (w, witness) = World { types, ..w }.solve_witness(cx, goal, span);
                match witness {
                    Some(witness) => (w, witnesses.pushed(witness)),
                    None => (w, witnesses),
                }
            },
        }
    }

    /// What the witnesses of the bounds are evidence for. There may be fewer
    /// witnesses than bounds: then the last bounds have none.
    #[verifier::opaque]
    pub open spec fn evidence_for(
        self,
        bounds: Chain<Goal>,
        substitution: Substitution,
        witnesses: Chain<WitnessSelection>,
    ) -> (World, Chain<Evidence>)
        decreases bounds,
    {
        match bounds {
            Chain::Empty => (self, Chain::Empty),
            Chain::Link(bound) => if bounds.spec_len() > witnesses.spec_len() {
                self.evidence_for(bound.rest, substitution, witnesses)
            } else {
                match witnesses {
                    Chain::Empty => (self, Chain::Empty),
                    Chain::Link(witness) => {
                        let (w, rest) = self.evidence_for(bound.rest, substitution, witness.rest);
                        let (w, target) = w.substitute(bound.item.self_ty, substitution);
                        (
                            w,
                            rest.pushed(
                                Evidence {
                                    target,
                                    concept: bound.item.concept.concept,
                                    bindings: witness.item.associated_types,
                                },
                            ),
                        )
                    },
                }
            },
        }
    }

    #[verifier::opaque]
    pub open spec fn normalize_call_type(
        self,
        ty: TyId,
        signature: CallableSignature,
        substitution: Substitution,
        witnesses: Chain<WitnessSelection>,
    ) -> (World, TyId) {
        let (w, evidence) = self.evidence_for(signature.bounds, substitution, witnesses);
        let (types, result) = normalized(w.types, ty, evidence, NORMAL_FORM_LIMIT);
        (World { types, ..w }, result)
    }

    /// A value whose obligations would be lost cannot become an interface
    /// value.
    #[verifier::opaque]
    pub open spec fn reject_dyn_obligation(self, cx: &Context, concrete: TyId, e: Expr) -> (
        World,
        bool,
    ) {
        let (w, must_scope) = self.has_must_scope_obligation(cx, concrete);
        if must_scope {
            (
                w.text_error(
                    "IllegalDynConversion",
                    "a value with a MustScope obligation cannot be erased to dyn",
                    e.span,
                ).consume_task_obligation_with_type(cx, e, concrete),
                true,
            )
        } else {
            let (w, task) = w.has_task_obligation(cx, concrete);
            if task {
                (
                    w.text_error(
                        "IllegalDynConversion",
                        "a value containing an unconsumed Task cannot be erased to dyn",
                        e.span,
                    ).consume_task_obligation_with_type(cx, e, concrete),
                    true,
                )
            } else {
                let (w, unknown) = w.has_unknown_discard_obligation(cx, concrete);
                if unknown {
                    (
                        w.text_error(
                            "IllegalDynConversion",
                            "a type with unresolved generic obligations cannot be erased to dyn",
                            e.span,
                        ).consume_task_obligation_with_type(cx, e, concrete),
                        true,
                    )
                } else {
                    (w, false)
                }
            }
        }
    }

    pub open spec fn next_token(self) -> World {
        World {
            st: CheckState { next_view_token: counted(self.st.next_view_token), ..self.st },
            ..self
        }
    }

    #[verifier::opaque]
    pub open spec fn register_view(
        self,
        owner: Place,
        mutable: bool,
        token: u32,
        span: Span,
    ) -> World {
        self.register_borrow(
            ActiveBorrow {
                owner,
                mutable,
                region: self.region(),
                identity: BorrowIdentity::Interface(token),
                span,
            },
            span,
        ).0
    }

    #[verifier::opaque]
    pub open spec fn coerce_to_dynamic(
        self,
        cx: &Context,
        e: Expr,
        actual: TyId,
        expected: TyId,
        mutability: Mutability,
        target: TyId,
    ) -> (World, TyId) {
        match self.data(target) {
            TyData::DynTarget(instance) => {
                let (w, rejected) = self.reject_dyn_obligation(cx, actual, e);
                if rejected {
                    (w, error_ty())
                } else {
                    let mutable = mutability == Mutability::Mutable;
                    let calling = w.st.dynamic_coercion_mode == DynamicCoercionMode::CallBorrow;
                    let owner = if calling {
                        w.place_of(e.id)
                    } else {
                        None
                    };
                    let w = if calling && mutable && !is_mutable_place(owner) {
                        w.text_error(
                            "DynMutReceiverUnavailable",
                            "this concept can modify its receiver, so the argument must be a variable",
                            e.span,
                        )
                    } else {
                        w
                    };
                    let (w, witness) = w.solve_witness(
                        cx,
                        Goal { self_ty: actual, concept: instance },
                        e.span,
                    );
                    match witness {
                        None => (w, expected),
                        Some(witness) => {
                            let token = w.st.next_view_token;
                            let region = w.region();
                            let w = w.next_token();
                            let w = match owner {
                                Some(place) => w.register_view(place, mutable, token, e.span),
                                None => w,
                            };
                            (
                                w.set_view(
                                    e.id,
                                    ViewResolution {
                                        source: ViewSource::Concrete { witness, writeback: owner },
                                        mutable,
                                        region,
                                        token,
                                    },
                                ).set_coercion(e.id, Coercion::ConcreteToDyn),
                                expected,
                            )
                        },
                    }
                }
            },
            _ => (
                self.text_error(
                    "CompilerDefect",
                    "dynamic parameter has no concept target",
                    e.span,
                ),
                error_ty(),
            ),
        }
    }

    /// An interface value is lent to a call.
    #[verifier::opaque]
    pub open spec fn reborrow_interface_argument(self, e: Expr, mutability: Mutability) -> World {
        if self.st.semantics.views.lookup(e.id.0) is Some {
            self
        } else {
            let mutable = mutability == Mutability::Mutable;
            match self.place_of(e.id) {
                None => if mutable {
                    self.text_error(
                        "DynMutReceiverUnavailable",
                        "a mutable interface argument must name a variable",
                        e.span,
                    )
                } else {
                    self
                },
                Some(owner) => {
                    let may_write = owner.mutability == Mutability::Mutable || owner.root is Param;
                    let w = if mutable && !may_write {
                        self.text_error(
                            "DynMutReceiverUnavailable",
                            "this interface can modify its receiver, so the argument must be a variable",
                            e.span,
                        )
                    } else {
                        self
                    };
                    let token = w.st.next_view_token;
                    let region = w.region();
                    w.next_token().register_view(owner, mutable, token, e.span).set_view(
                        e.id,
                        ViewResolution {
                            source: ViewSource::Interface { owner },
                            mutable,
                            region,
                            token,
                        },
                    ).set_coercion(e.id, Coercion::InterfaceReborrow)
                },
            }
        }
    }

    /// The value of `e`, of type `actual`, where `expected` is asked for.
    #[verifier::opaque]
    pub open spec fn coerce(self, cx: &Context, e: Expr, actual: TyId, expected: TyId) -> (
        World,
        TyId,
    ) {
        if actual == expected {
            match self.data(expected) {
                TyData::View { mutability, target: _ } => if self.st.dynamic_coercion_mode
                    == DynamicCoercionMode::CallBorrow {
                    (self.reborrow_interface_argument(e, mutability), expected)
                } else {
                    (self, expected)
                },
                _ => (self, expected),
            }
        } else if self.is_error(actual) || self.is_error(expected) {
            (self, expected)
        } else if self.data(actual) is Never {
            (self.set_coercion(e.id, Coercion::NeverToAny), expected)
        } else if self.data(expected) is View && !(self.data(actual) is View) {
            self.coerce_to_dynamic(
                cx,
                e,
                actual,
                expected,
                self.data(expected)->mutability,
                self.data(expected)->target,
            )
        } else {
            let mismatch = (
                self.error(
                    "TypeMismatch",
                    Message::Types("expected ", expected, ", found ", actual, ""),
                    e.span,
                ),
                error_ty(),
            );
            match self.refined_of(cx, actual) {
                Some(refined) => {
                    let base = match self.base_of(cx, actual) {
                        Some(base) => base,
                        None => error_ty(),
                    };
                    if base == expected {
                        (self.set_coercion(e.id, Coercion::RefinedToBase { refined }), expected)
                    } else {
                        mismatch
                    }
                },
                None => mismatch,
            }
        }
    }

    #[verifier::opaque]
    pub open spec fn expect_compatible(
        self,
        cx: &Context,
        span: Span,
        actual: TyId,
        expected: TyId,
    ) -> World {
        if self.assignable(cx, actual, expected) || self.assignable(cx, expected, actual) {
            self
        } else {
            self.error(
                "TypeMismatch",
                Message::Types("pattern has type ", actual, ", expected ", expected, ""),
                span,
            )
        }
    }

    /// The declared type of the standard library, or a report that it is
    /// missing.
    #[verifier::opaque]
    pub open spec fn canonical_std_type(
        self,
        definition: Option<DefId>,
        missing: &'static str,
        span: Span,
    ) -> (World, TyId) {
        match definition {
            Some(definition) => self.intern(
                TyData::Nominal { definition, arguments: Chain::Empty },
            ),
            None => (
                self.text_error("MissingStandardLibraryItem", missing, span),
                error_ty(),
            ),
        }
    }

    pub open spec fn is_canonical_resource_type(self, cx: &Context, ty: TyId) -> bool {
        match self.data(ty) {
            TyData::Nominal { definition, arguments } => arguments is Empty && (
            cx.canonical_std_items.file == Some(definition) || cx.canonical_std_items.socket
                == Some(definition)),
            _ => false,
        }
    }

    pub open spec fn with_scopes(self, scopes: Chain<Chain<LocalId>>) -> World {
        World { st: CheckState { scopes, ..self.st }, ..self }
    }

    /// The local is visible from here to the end of the innermost scope.
    #[verifier::opaque]
    pub open spec fn declare(self, cx: &Context, local: LocalId) -> World {
        match self.st.scopes {
            Chain::Empty => self,
            Chain::Link(link) => self.with_scopes(
                link.rest.pushed(scope_with(cx, link.item, local)),
            ),
        }
    }

    pub open spec fn await_scope(self, local: LocalId) -> World {
        self.with_flow(
            FlowState {
                pending_must_scope_locals: id_inserted(
                    self.st.flow.pending_must_scope_locals,
                    local.0,
                ),
                ..self.st.flow
            },
        )
    }

    #[verifier::opaque]
    pub open spec fn bind_pattern(
        self,
        cx: &Context,
        pattern: PatternId,
        local: LocalId,
        expected: TyId,
    ) -> World {
        let w = self.set_pattern_resolution(pattern, Resolution::Local(local)).set_local_type(
            local,
            expected,
        ).register_task_local(cx, local, expected);
        let (w, must_scope) = w.has_must_scope_obligation(cx, expected);
        let w = if must_scope {
            w.await_scope(local)
        } else {
            w
        };
        w.assume_established_type(cx, expected, root_term(ProofRoot::Local(local.0))).declare(
            cx,
            local,
        )
    }
}

impl BodyChecker {
    pub fn is_error(&self, ty: TyId) -> (error: bool)
        requires
            self.wf(),
        ensures
            error == self@.is_error(ty),
    {
        match self.types.data(ty) {
            TyData::Error => true,
            _ => false,
        }
    }

    pub fn is_never(&self, ty: TyId) -> (never: bool)
        requires
            self.wf(),
        ensures
            never == (self@.data(ty) is Never),
    {
        match self.types.data(ty) {
            TyData::Never => true,
            _ => false,
        }
    }

    fn base_of(&self, cx: &Context, ty: TyId) -> (base: Option<TyId>)
        requires
            self.wf(),
        ensures
            base == self@.base_of(cx, ty),
    {
        match self.types.data(ty) {
            TyData::Nominal { definition, arguments: _ } => match cx.program.kind(*definition) {
                Some(DefinitionKind::RefinedType { base, predicate: _ }) => match cx.type_refs.get(
                    base.0,
                ) {
                    Some(ty) => Some(*ty),
                    None => None,
                },
                _ => None,
            },
            _ => None,
        }
    }

    fn refined_of(&self, cx: &Context, ty: TyId) -> (refined: Option<DefId>)
        requires
            self.wf(),
        ensures
            refined == self@.refined_of(cx, ty),
    {
        match self.types.data(ty) {
            TyData::Nominal { definition, arguments: _ } => match cx.program.kind(*definition) {
                Some(DefinitionKind::RefinedType { base: _, predicate: _ }) => Some(*definition),
                _ => None,
            },
            _ => None,
        }
    }

    pub fn assignable(&self, cx: &Context, actual: TyId, expected: TyId) -> (may: bool)
        requires
            self.wf(),
        ensures
            may == self@.assignable(cx, actual, expected),
    {
        actual == expected || self.is_error(actual) || self.is_error(expected) || self.is_never(
            actual,
        ) || match self.base_of(cx, actual) {
            Some(base) => base == expected,
            None => false,
        }
    }

    pub fn is_builtin(&self, ty: TyId, builtin: BuiltinType) -> (same: bool)
        requires
            self.wf(),
        ensures
            same == (self@.data(ty) == TyData::Builtin(builtin)),
    {
        match self.types.data(ty) {
            TyData::Builtin(found) => *found == builtin,
            _ => false,
        }
    }

    pub fn is_builtin_or_refined(&self, cx: &Context, ty: TyId, builtin: BuiltinType) -> (result:
        bool)
        requires
            self.wf(),
        ensures
            result == self@.is_builtin_or_refined(cx, ty, builtin),
    {
        self.is_builtin(ty, builtin) || match self.base_of(cx, ty) {
            Some(base) => self.is_builtin(base, builtin),
            None => false,
        }
    }

    pub fn join_types(&mut self, cx: &Context, left: TyId, right: TyId, span: Span) -> (ty: TyId)
        requires
            old(self).wf(),
        ensures
            adds_to(old(self)@.st.diagnostics, final(self)@.st.diagnostics),
            final(self).wf(),
            later(old(self)@.types, final(self)@.types),
            (final(self)@, ty) == old(self)@.join_types(cx, left, right, span),
    {
        proof {
            reveal(World::join_types);
        }
        if self.assignable(cx, right, left) {
            left
        } else if self.assignable(cx, left, right) {
            right
        } else {
            self.error(
                "TypeMismatch",
                Message::Types("branches have incompatible types ", left, " and ", right, ""),
                span,
            );
            TyId(0)
        }
    }

    pub fn supports_value_equality(&mut self, cx: &Context, ty: TyId) -> (result: bool)
        requires
            old(self).wf(),
        ensures
            adds_to(old(self)@.st.diagnostics, final(self)@.st.diagnostics),
            final(self).wf(),
            later(old(self)@.types, final(self)@.types),
            (final(self)@, result) == old(self)@.supports_value_equality(cx, ty),
    {
        proof {
            reveal(World::supports_value_equality);
        }
        let symbolic = symbolic_concept_contract_equality_allowed(cx, self.st.contract);
        !self.carries(cx, Carried::Incomparable { symbolic }, ty)
    }

    pub fn solve_witness(&mut self, cx: &Context, goal: &Goal, span: Span) -> (result: Option<
        WitnessSelection,
    >)
        requires
            old(self).wf(),
        ensures
            adds_to(old(self)@.st.diagnostics, final(self)@.st.diagnostics),
            final(self).wf(),
            later(old(self)@.types, final(self)@.types),
            (final(self)@, result) == old(self)@.solve_witness(cx, *goal, span),
    {
        proof {
            reveal(World::solve_witness);
        }
        match solve(cx, &mut self.types, goal) {
            Ok(witness) => Some(witness),
            Err(failure) => {
                let (code, text) = describe_failure(&failure);
                self.text_error(code, text, span);
                None
            },
        }
    }

    pub fn resource_witness(&mut self, cx: &Context, ty: TyId, concept: Option<DefId>) -> (result:
        Option<WitnessSelection>)
        requires
            old(self).wf(),
        ensures
            adds_to(old(self)@.st.diagnostics, final(self)@.st.diagnostics),
            final(self).wf(),
            later(old(self)@.types, final(self)@.types),
            (final(self)@, result) == old(self)@.resource_witness(cx, ty, concept),
    {
        proof {
            reveal(World::resource_witness);
        }
        find_resource_conformance(cx, &mut self.types, ty, concept)
    }

    fn resolve_bounds(
        &mut self,
        cx: &Context,
        bounds: &Chain<Goal>,
        substitution: &Substitution,
        span: Span,
    ) -> (witnesses: Chain<WitnessSelection>)
        requires
            old(self).wf(),
        ensures
            adds_to(old(self)@.st.diagnostics, final(self)@.st.diagnostics),
            final(self).wf(),
            later(old(self)@.types, final(self)@.types),
            (final(self)@, witnesses) == old(self)@.resolve_bounds(
                cx,
                *bounds,
                *substitution,
                span,
            ),
        decreases bounds,
    {
        proof {
            reveal(World::resolve_bounds);
        }
        match bounds {
            Chain::Empty => Chain::new(),
            Chain::Link(link) => {
                let witnesses = self.resolve_bounds(cx, &link.rest, substitution, span);
                let self_ty = self.types.substitute(link.item.self_ty, substitution);
                let concept = substitute_concept(
                    &mut self.types,
                    &link.item.concept,
                    substitution,
                );
                match self.solve_witness(cx, &Goal { self_ty, concept }, span) {
                    Some(witness) => witnesses.with(witness),
                    None => witnesses,
                }
            },
        }
    }

    pub fn resolve_bound_witnesses(
        &mut self,
        cx: &Context,
        signature: &CallableSignature,
        substitution: &Substitution,
        span: Span,
    ) -> (witnesses: Chain<WitnessSelection>)
        requires
            old(self).wf(),
        ensures
            adds_to(old(self)@.st.diagnostics, final(self)@.st.diagnostics),
            final(self).wf(),
            later(old(self)@.types, final(self)@.types),
            (final(self)@, witnesses) == old(self)@.resolve_bounds(
                cx,
                signature.bounds,
                *substitution,
                span,
            ),
    {
        self.resolve_bounds(cx, &signature.bounds, substitution, span)
    }

    fn evidence_for(
        &mut self,
        bounds: &Chain<Goal>,
        substitution: &Substitution,
        witnesses: &Chain<WitnessSelection>,
    ) -> (evidence: Chain<Evidence>)
        requires
            old(self).wf(),
        ensures
            adds_to(old(self)@.st.diagnostics, final(self)@.st.diagnostics),
            final(self).wf(),
            later(old(self)@.types, final(self)@.types),
            (final(self)@, evidence) == old(self)@.evidence_for(
                *bounds,
                *substitution,
                *witnesses,
            ),
        decreases bounds,
    {
        proof {
            reveal(World::evidence_for);
        }
        match bounds {
            Chain::Empty => Chain::new(),
            Chain::Link(bound) => if crate::unify::longer(bounds, witnesses) {
                self.evidence_for(&bound.rest, substitution, witnesses)
            } else {
                match witnesses {
                    Chain::Empty => Chain::new(),
                    Chain::Link(witness) => {
                        let rest = self.evidence_for(&bound.rest, substitution, &witness.rest);
                        let target = self.substitute(bound.item.self_ty, substitution);
                        rest.with(
                            Evidence {
                                target,
                                concept: bound.item.concept.concept,
                                bindings: witness.item.associated_types.clone(),
                            },
                        )
                    },
                }
            },
        }
    }

    pub fn normalize_call_type(
        &mut self,
        ty: TyId,
        signature: &CallableSignature,
        substitution: &Substitution,
        witnesses: &Chain<WitnessSelection>,
    ) -> (result: TyId)
        requires
            old(self).wf(),
        ensures
            adds_to(old(self)@.st.diagnostics, final(self)@.st.diagnostics),
            final(self).wf(),
            later(old(self)@.types, final(self)@.types),
            (final(self)@, result) == old(self)@.normalize_call_type(
                ty,
                *signature,
                *substitution,
                *witnesses,
            ),
    {
        proof {
            reveal(World::normalize_call_type);
        }
        let evidence = self.evidence_for(&signature.bounds, substitution, witnesses);
        normalize_type_with_evidence(&mut self.types, ty, &evidence, NORMAL_FORM_LIMIT)
    }

    pub fn reject_dyn_obligation(&mut self, cx: &Context, concrete: TyId, e: &Expr) -> (rejected:
        bool)
        requires
            old(self).wf(),
        ensures
            adds_to(old(self)@.st.diagnostics, final(self)@.st.diagnostics),
            final(self).wf(),
            later(old(self)@.types, final(self)@.types),
            (final(self)@, rejected) == old(self)@.reject_dyn_obligation(cx, concrete, *e),
    {
        proof {
            reveal(World::reject_dyn_obligation);
        }
        let text = if self.has_must_scope_obligation(cx, concrete) {
            "a value with a MustScope obligation cannot be erased to dyn"
        } else if self.has_task_obligation(cx, concrete) {
            "a value containing an unconsumed Task cannot be erased to dyn"
        } else if self.has_unknown_discard_obligation(cx, concrete) {
            "a type with unresolved generic obligations cannot be erased to dyn"
        } else {
            return false;
        };
        self.text_error("IllegalDynConversion", text, e.span);
        self.consume_task_obligation_with_type(cx, e, concrete);
        true
    }

    fn register_view(&mut self, owner: Place, mutable: bool, token: u32, span: Span)
        ensures
            adds_to(old(self)@.st.diagnostics, final(self)@.st.diagnostics),
            final(self)@.types == old(self)@.types,
            final(self)@ == old(self)@.register_view(owner, mutable, token, span),
    {
        proof {
            reveal(World::register_view);
        }
        let region = self.region();
        self.register_borrow(
            ActiveBorrow {
                owner,
                mutable,
                region,
                identity: BorrowIdentity::Interface(token),
                span,
            },
            span,
        );
    }

    fn coerce_to_dynamic(
        &mut self,
        cx: &Context,
        e: &Expr,
        actual: TyId,
        expected: TyId,
        mutability: Mutability,
        target: TyId,
    ) -> (ty: TyId)
        requires
            old(self).wf(),
        ensures
            adds_to(old(self)@.st.diagnostics, final(self)@.st.diagnostics),
            final(self).wf(),
            later(old(self)@.types, final(self)@.types),
            (final(self)@, ty) == old(self)@.coerce_to_dynamic(
                cx,
                *e,
                actual,
                expected,
                mutability,
                target,
            ),
    {
        proof {
            reveal(World::coerce_to_dynamic);
        }
        match self.data(target) {
            TyData::DynTarget(instance) => {
                if self.reject_dyn_obligation(cx, actual, e) {
                    return TyId(0);
                }
                let mutable = mutability == Mutability::Mutable;
                let calling = self.st.dynamic_coercion_mode == DynamicCoercionMode::CallBorrow;
                let owner = if calling {
                    self.place(e.id)
                } else {
                    None
                };
                if calling && mutable && !check_mutable_place(&owner) {
                    self.text_error(
                        "DynMutReceiverUnavailable",
                        "this concept can modify its receiver, so the argument must be a variable",
                        e.span,
                    );
                }
                let goal = Goal { self_ty: actual, concept: instance };
                match self.solve_witness(cx, &goal, e.span) {
                    None => {},
                    Some(witness) => {
                        let token: u32 = self.st.next_view_token;
                        let region = self.region();
                        self.st.next_view_token = count(token);
                        match &owner {
                            Some(place) => self.register_view(
                                place.clone(),
                                mutable,
                                token,
                                e.span,
                            ),
                            None => {},
                        }
                        self.set_view(
                            e.id,
                            ViewResolution {
                                source: ViewSource::Concrete { witness, writeback: owner },
                                mutable,
                                region,
                                token,
                            },
                        );
                        self.set_coercion(e.id, Coercion::ConcreteToDyn);
                    },
                }
                expected
            },
            _ => {
                self.text_error(
                    "CompilerDefect",
                    "dynamic parameter has no concept target",
                    e.span,
                );
                TyId(0)
            },
        }
    }

    fn reborrow_interface_argument(&mut self, e: &Expr, mutability: Mutability)
        ensures
            adds_to(old(self)@.st.diagnostics, final(self)@.st.diagnostics),
            final(self)@.types == old(self)@.types,
            final(self)@ == old(self)@.reborrow_interface_argument(*e, mutability),
    {
        proof {
            reveal(World::reborrow_interface_argument);
        }
        if self.st.semantics.views.get(e.id.0).is_some() {
            return;
        }
        let mutable = mutability == Mutability::Mutable;
        match self.place(e.id) {
            None => if mutable {
                self.text_error(
                    "DynMutReceiverUnavailable",
                    "a mutable interface argument must name a variable",
                    e.span,
                );
            },
            Some(owner) => {
                let from_param = match owner.root {
                    PlaceRoot::Param(_) => true,
                    _ => false,
                };
                if mutable && !(owner.mutability == Mutability::Mutable || from_param) {
                    self.text_error(
                        "DynMutReceiverUnavailable",
                        "this interface can modify its receiver, so the argument must be a variable",
                        e.span,
                    );
                }
                let token: u32 = self.st.next_view_token;
                let region = self.region();
                self.st.next_view_token = count(token);
                self.register_view(owner.clone(), mutable, token, e.span);
                self.set_view(
                    e.id,
                    ViewResolution {
                        source: ViewSource::Interface { owner },
                        mutable,
                        region,
                        token,
                    },
                );
                self.set_coercion(e.id, Coercion::InterfaceReborrow);
            },
        }
    }

    pub fn coerce(&mut self, cx: &Context, e: &Expr, actual: TyId, expected: TyId) -> (ty: TyId)
        requires
            old(self).wf(),
        ensures
            adds_to(old(self)@.st.diagnostics, final(self)@.st.diagnostics),
            final(self).wf(),
            later(old(self)@.types, final(self)@.types),
            (final(self)@, ty) == old(self)@.coerce(cx, *e, actual, expected),
    {
        proof {
            reveal(World::coerce);
        }
        let wanted = self.data(expected);
        if actual == expected {
            match wanted {
                TyData::View { mutability, target: _ } => if self.st.dynamic_coercion_mode
                    == DynamicCoercionMode::CallBorrow {
                    self.reborrow_interface_argument(e, mutability);
                },
                _ => {},
            }
            return expected;
        }
        if self.is_error(actual) || self.is_error(expected) {
            return expected;
        }
        if self.is_never(actual) {
            self.set_coercion(e.id, Coercion::NeverToAny);
            return expected;
        }
        let from_view = match self.types.data(actual) {
            TyData::View { mutability: _, target: _ } => true,
            _ => false,
        };
        match wanted {
            TyData::View { mutability, target } => if !from_view {
                return self.coerce_to_dynamic(cx, e, actual, expected, mutability, target);
            },
            _ => {},
        }
        match self.refined_of(cx, actual) {
            Some(refined) => {
                let base = match self.base_of(cx, actual) {
                    Some(base) => base,
                    None => TyId(0),
                };
                if base == expected {
                    self.set_coercion(e.id, Coercion::RefinedToBase { refined });
                    return expected;
                }
            },
            None => {},
        }
        self.error(
            "TypeMismatch",
            Message::Types("expected ", expected, ", found ", actual, ""),
            e.span,
        );
        TyId(0)
    }

    pub fn expect_compatible(&mut self, cx: &Context, span: Span, actual: TyId, expected: TyId)
        requires
            old(self).wf(),
        ensures
            adds_to(old(self)@.st.diagnostics, final(self)@.st.diagnostics),
            final(self).wf(),
            later(old(self)@.types, final(self)@.types),
            final(self)@ == old(self)@.expect_compatible(cx, span, actual, expected),
    {
        proof {
            reveal(World::expect_compatible);
        }
        if !self.assignable(cx, actual, expected) && !self.assignable(cx, expected, actual) {
            self.error(
                "TypeMismatch",
                Message::Types("pattern has type ", actual, ", expected ", expected, ""),
                span,
            );
        }
    }

    pub fn canonical_std_type(
        &mut self,
        definition: Option<DefId>,
        missing: &'static str,
        span: Span,
    ) -> (ty: TyId)
        requires
            old(self).wf(),
        ensures
            adds_to(old(self)@.st.diagnostics, final(self)@.st.diagnostics),
            final(self).wf(),
            later(old(self)@.types, final(self)@.types),
            (final(self)@, ty) == old(self)@.canonical_std_type(definition, missing, span),
    {
        proof {
            reveal(World::canonical_std_type);
        }
        match definition {
            Some(definition) => self.intern(
                TyData::Nominal { definition, arguments: Chain::new() },
            ),
            None => {
                self.text_error("MissingStandardLibraryItem", missing, span);
                TyId(0)
            },
        }
    }

    pub fn is_canonical_resource_type(&self, cx: &Context, ty: TyId) -> (result: bool)
        requires
            self.wf(),
        ensures
            result == self@.is_canonical_resource_type(cx, ty),
    {
        match self.types.data(ty) {
            TyData::Nominal { definition, arguments } => arguments.is_empty() && (
            cx.canonical_std_items.file == Some(*definition) || cx.canonical_std_items.socket
                == Some(*definition)),
            _ => false,
        }
    }

    pub fn declare(&mut self, cx: &Context, local: LocalId)
        ensures
            adds_to(old(self)@.st.diagnostics, final(self)@.st.diagnostics),
            final(self)@.types == old(self)@.types,
            final(self)@ == old(self)@.declare(cx, local),
    {
        proof {
            reveal(World::declare);
        }
        let scopes = match &self.st.scopes {
            Chain::Empty => return,
            Chain::Link(link) => link.rest.clone().with(
                remove_name(cx, &link.item, local).with(local),
            ),
        };
        self.st.scopes = scopes;
    }

    pub fn await_scope(&mut self, local: LocalId)
        ensures
            adds_to(old(self)@.st.diagnostics, final(self)@.st.diagnostics),
            final(self)@.types == old(self)@.types,
            final(self)@ == old(self)@.await_scope(local),
    {
        self.st.flow.pending_must_scope_locals = insert_id(
            &self.st.flow.pending_must_scope_locals,
            local.0,
        );
    }

    pub fn bind_pattern(
        &mut self,
        cx: &Context,
        pattern: PatternId,
        local: LocalId,
        expected: TyId,
    )
        requires
            old(self).wf(),
        ensures
            adds_to(old(self)@.st.diagnostics, final(self)@.st.diagnostics),
            final(self).wf(),
            later(old(self)@.types, final(self)@.types),
            final(self)@ == old(self)@.bind_pattern(cx, pattern, local, expected),
    {
        proof {
            reveal(World::bind_pattern);
        }
        self.set_pattern_resolution(pattern, Resolution::Local(local));
        self.set_local_type(local, expected);
        self.register_task_local(cx, local, expected);
        if self.has_must_scope_obligation(cx, expected) {
            self.await_scope(local);
        }
        let term = make_root_term(ProofRoot::Local(local.0));
        self.assume_established_type(cx, expected, &term);
        self.declare(cx, local);
    }
}

} // verus!
