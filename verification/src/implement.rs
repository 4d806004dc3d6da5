//! The conformances that a program declares.

use vstd::prelude::*;

use crate::chain::{same_length, Chain, Same};
use crate::conformance::{Goal, ImplHeader, ImplIndex, SolveFailure};
#[allow(unused_imports)]
use crate::conformance::bucket_inserted;
#[allow(unused_imports)]
use crate::diagnostics::{adds_to, lemma_adds_nothing, lemma_adds_one, lemma_adds_through};
use crate::diagnostics::{Diagnostic, Message};
#[allow(unused_imports)]
use crate::diagnostics::labelled;
#[allow(unused_imports)]
use crate::growth::{later, lemma_later_itself, lemma_later_through};
use crate::hir::{get, ConceptRef, DefinitionKind, Program};
#[allow(unused_imports)]
use crate::hir::at;
use crate::ids::{DefId, GenericParamId, ParamId, TyId};
#[allow(unused_imports)]
use crate::resolve::bindings_sorted;
use crate::resolve::{sort_bindings, Sources, TypeContext, RESOLUTION_LIMIT};
use crate::semantics::{Bound, ConformanceSemantics, Signature};
use crate::substitution::Substitution;
#[allow(unused_imports)]
use crate::substitution::substituted;
use crate::survey::Analyzer;
#[allow(unused_imports)]
use crate::survey::Survey;
use crate::table::{contains_id, insert_id};
#[allow(unused_imports)]
use crate::table::{has_id, id_inserted};
use crate::ty::{AssociatedTypeBinding, ConceptInstance, TyData, TyInterner};
#[allow(unused_imports)]
use crate::ty::{interned, interned_ty, types_wf};
use crate::unify::{instantiate_concept_type, is_strict_structural_subterm, type_parameters_in};
#[allow(unused_imports)]
use crate::unify::{instantiated, params_in, strict_subterm};

verus! {

broadcast use {
    lemma_adds_nothing,
    lemma_adds_one,
    lemma_adds_through,
    lemma_later_itself,
    lemma_later_through,
};

/// The substitution of the generic parameters of a requirement by those of its
/// implementation.
pub open spec fn renaming(
    types: Seq<TyData>,
    required: Chain<GenericParamId>,
    actual: Chain<GenericParamId>,
) -> (Seq<TyData>, Substitution)
    decreases required,
{
    match (required, actual) {
        (Chain::Link(from), Chain::Link(to)) => {
            let (between, known) = renaming(types, from.rest, to.rest);
            let data = TyData::Param(to.item);
            (interned(between, data), known.inserted(from.item, interned_ty(between, data)))
        },
        _ => (types, Substitution::empty()),
    }
}

fn rename(
    types: &mut TyInterner,
    required: &Chain<GenericParamId>,
    actual: &Chain<GenericParamId>,
) -> (known:
    Substitution)
    requires
        types_wf(old(types)@),
    ensures
        types_wf(final(types)@),
        later(old(types)@, final(types)@),
        (final(types)@, known) == renaming(old(types)@, *required, *actual),
    decreases required,
{
    match (required, actual) {
        (Chain::Link(from), Chain::Link(to)) => {
            let mut known = rename(types, &from.rest, &to.rest);
            let ty = types.intern(TyData::Param(to.item));
            known.insert(from.item, ty);
            known
        },
        _ => Substitution::default(),
    }
}

/// A type of a requirement as its implementation must have it.
pub open spec fn required_type(
    types: Seq<TyData>,
    ty: TyId,
    target: TyId,
    concept: ConceptInstance,
    alpha: Substitution,
) -> (Seq<TyData>, TyId) {
    let (between, own) = instantiated(types, ty, target, concept, true);
    substituted(between, own, alpha)
}

pub(crate) fn make_required_type(
    types: &mut TyInterner,
    ty: TyId,
    target: TyId,
    concept: &ConceptInstance,
    alpha: &Substitution,
) -> (result: TyId)
    requires
        types_wf(old(types)@),
    ensures
        types_wf(final(types)@),
        later(old(types)@, final(types)@),
        (final(types)@, result) == required_type(old(types)@, ty, target, *concept, *alpha),
{
    let own = instantiate_concept_type(types, ty, target, concept, true);
    types.substitute(own, alpha)
}

/// The parameters of an implementation have the required types. They are
/// compared from the front, no further than the first that differs.
pub open spec fn params_match(
    types: Seq<TyData>,
    required: Chain<(ParamId, TyId)>,
    actual: Chain<(ParamId, TyId)>,
    target: TyId,
    concept: ConceptInstance,
    alpha: Substitution,
) -> (Seq<TyData>, bool)
    decreases required,
{
    match (required, actual) {
        (Chain::Link(left), Chain::Link(right)) => {
            let (between, same) = params_match(
                types,
                left.rest,
                right.rest,
                target,
                concept,
                alpha,
            );
            if !same {
                (between, false)
            } else {
                let (after, ty) = required_type(between, left.item.1, target, concept, alpha);
                (after, ty == right.item.1)
            }
        },
        _ => (types, true),
    }
}

fn check_params(
    types: &mut TyInterner,
    required: &Chain<(ParamId, TyId)>,
    actual: &Chain<(ParamId, TyId)>,
    target: TyId,
    concept: &ConceptInstance,
    alpha: &Substitution,
) -> (same: bool)
    requires
        types_wf(old(types)@),
    ensures
        types_wf(final(types)@),
        later(old(types)@, final(types)@),
        (final(types)@, same) == params_match(
            old(types)@,
            *required,
            *actual,
            target,
            *concept,
            *alpha,
        ),
    decreases required,
{
    match (required, actual) {
        (Chain::Link(left), Chain::Link(right)) => {
            if !check_params(types, &left.rest, &right.rest, target, concept, alpha) {
                return false;
            }
            let ty = make_required_type(types, left.item.1, target, concept, alpha);
            ty == right.item.1
        },
        _ => true,
    }
}

pub open spec fn required_bindings(
    types: Seq<TyData>,
    list: Chain<AssociatedTypeBinding>,
    target: TyId,
    concept: ConceptInstance,
    alpha: Substitution,
) -> (Seq<TyData>, Chain<AssociatedTypeBinding>)
    decreases list,
{
    match list {
        Chain::Empty => (types, Chain::Empty),
        Chain::Link(link) => {
            let (between, before) = required_bindings(types, link.rest, target, concept, alpha);
            let (after, ty) = required_type(between, link.item.ty, target, concept, alpha);
            (
                after,
                before.pushed(
                    AssociatedTypeBinding { associated_type: link.item.associated_type, ty },
                ),
            )
        },
    }
}

pub(crate) fn make_required_bindings(
    types: &mut TyInterner,
    list: &Chain<AssociatedTypeBinding>,
    target: TyId,
    concept: &ConceptInstance,
    alpha: &Substitution,
) -> (result: Chain<AssociatedTypeBinding>)
    requires
        types_wf(old(types)@),
    ensures
        types_wf(final(types)@),
        later(old(types)@, final(types)@),
        (final(types)@, result) == required_bindings(
            old(types)@,
            *list,
            target,
            *concept,
            *alpha,
        ),
    decreases list,
{
    match list {
        Chain::Empty => Chain::new(),
        Chain::Link(link) => {
            let before = make_required_bindings(types, &link.rest, target, concept, alpha);
            let ty = make_required_type(types, link.item.ty, target, concept, alpha);
            before.with(AssociatedTypeBinding { associated_type: link.item.associated_type, ty })
        },
    }
}

/// The bounds of a requirement as its implementation must have them.
pub open spec fn required_bounds(
    types: Seq<TyData>,
    list: Chain<Bound>,
    target: TyId,
    concept: ConceptInstance,
    alpha: Substitution,
) -> (Seq<TyData>, Chain<Bound>)
    decreases list,
{
    match list {
        Chain::Empty => (types, Chain::Empty),
        Chain::Link(link) => {
            let (between, before) = required_bounds(types, link.rest, target, concept, alpha);
            let (between, self_ty) = required_type(
                between,
                link.item.self_ty,
                target,
                concept,
                alpha,
            );
            let (after, bindings) = required_bindings(
                between,
                link.item.concept.bindings,
                target,
                concept,
                alpha,
            );
            (
                after,
                before.pushed(
                    Goal {
                        self_ty,
                        concept: ConceptInstance { concept: link.item.concept.concept, bindings },
                    },
                ),
            )
        },
    }
}

fn make_required_bounds(
    types: &mut TyInterner,
    list: &Chain<Bound>,
    target: TyId,
    concept: &ConceptInstance,
    alpha: &Substitution,
) -> (result: Chain<Bound>)
    requires
        types_wf(old(types)@),
    ensures
        types_wf(final(types)@),
        later(old(types)@, final(types)@),
        (final(types)@, result) == required_bounds(old(types)@, *list, target, *concept, *alpha),
    decreases list,
{
    match list {
        Chain::Empty => Chain::new(),
        Chain::Link(link) => {
            let before = make_required_bounds(types, &link.rest, target, concept, alpha);
            let self_ty = make_required_type(types, link.item.self_ty, target, concept, alpha);
            let bindings = make_required_bindings(
                types,
                &link.item.concept.bindings,
                target,
                concept,
                alpha,
            );
            before.with(
                Goal {
                    self_ty,
                    concept: ConceptInstance { concept: link.item.concept.concept, bindings },
                },
            )
        },
    }
}

/// The list without its newest `goal`; nothing if it holds none.
pub open spec fn goal_removed(list: Chain<Goal>, goal: Goal) -> Option<Chain<Goal>>
    decreases list,
{
    match list {
        Chain::Empty => None,
        Chain::Link(link) => if link.item == goal {
            Some(link.rest)
        } else {
            match goal_removed(link.rest, goal) {
                Some(rest) => Some(rest.pushed(link.item)),
                None => None,
            }
        },
    }
}

fn remove_goal(list: &Chain<Goal>, goal: &Goal) -> (result: Option<Chain<Goal>>)
    ensures
        result == goal_removed(*list, *goal),
    decreases list,
{
    match list {
        Chain::Empty => None,
        Chain::Link(link) => if link.item.same(goal) {
            Some(link.rest.clone())
        } else {
            match remove_goal(&link.rest, goal) {
                Some(rest) => Some(rest.with(link.item.clone())),
                None => None,
            }
        },
    }
}

/// The lists hold the same goals, each equally often.
pub open spec fn same_goals(left: Chain<Goal>, right: Chain<Goal>) -> bool
    decreases left,
{
    match left {
        Chain::Empty => right is Empty,
        Chain::Link(link) => match goal_removed(right, link.item) {
            Some(rest) => same_goals(link.rest, rest),
            None => false,
        },
    }
}

fn check_same_goals(left: &Chain<Goal>, right: &Chain<Goal>) -> (same: bool)
    ensures
        same == same_goals(*left, *right),
    decreases left,
{
    match left {
        Chain::Empty => right.is_empty(),
        Chain::Link(link) => match remove_goal(right, &link.item) {
            Some(rest) => check_same_goals(&link.rest, &rest),
            None => false,
        },
    }
}

/// The implementation of each requirement, in the order of the requirements,
/// with one more.
pub open spec fn method_put(
    methods: Chain<(DefId, DefId)>,
    requirement: DefId,
    method: DefId,
) -> Chain<
    (DefId, DefId),
>
    decreases methods,
{
    match methods {
        Chain::Empty => methods.pushed((requirement, method)),
        Chain::Link(link) => if link.item.0 == requirement {
            link.rest.pushed((requirement, method))
        } else if link.item.0.0 < requirement.0 {
            methods.pushed((requirement, method))
        } else {
            method_put(link.rest, requirement, method).pushed(link.item)
        },
    }
}

fn put_method(methods: &Chain<(DefId, DefId)>, requirement: DefId, method: DefId) -> (result: Chain<
    (DefId, DefId),
>)
    ensures
        result == method_put(*methods, requirement, method),
    decreases methods,
{
    match methods {
        Chain::Empty => methods.clone().with((requirement, method)),
        Chain::Link(link) => if link.item.0 == requirement {
            link.rest.clone().with((requirement, method))
        } else if link.item.0.0 < requirement.0 {
            methods.clone().with((requirement, method))
        } else {
            put_method(&link.rest, requirement, method).with(link.item)
        },
    }
}

/// A requirement has an implementation.
pub open spec fn is_implemented(methods: Chain<(DefId, DefId)>, requirement: DefId) -> bool
    decreases methods,
{
    match methods {
        Chain::Empty => false,
        Chain::Link(link) => link.item.0 == requirement || is_implemented(
            link.rest,
            requirement,
        ),
    }
}

fn check_implemented(methods: &Chain<(DefId, DefId)>, requirement: DefId) -> (result: bool)
    ensures
        result == is_implemented(*methods, requirement),
    decreases methods,
{
    match methods {
        Chain::Empty => false,
        Chain::Link(link) => link.item.0 == requirement || check_implemented(
            &link.rest,
            requirement,
        ),
    }
}

/// A type that a conformance may be declared for.
pub open spec fn is_target_head(data: TyData) -> bool {
    match data {
        TyData::Nominal { definition: _, arguments: _ } => true,
        TyData::Builtin(_) => true,
        TyData::Option(_) => true,
        TyData::Result { ok: _, error: _ } => true,
        TyData::TextMap(_) => true,
        _ => false,
    }
}

fn check_target_head(data: &TyData) -> (result: bool)
    ensures
        result == is_target_head(*data),
{
    match data {
        TyData::Nominal { definition: _, arguments: _ } => true,
        TyData::Builtin(_) => true,
        TyData::Option(_) => true,
        TyData::Result { ok: _, error: _ } => true,
        TyData::TextMap(_) => true,
        _ => false,
    }
}

/// A method without contracts of its own.
pub open spec fn has_no_contracts(program: &Program, method: DefId) -> bool {
    match program.kind_of(method) {
        Some(DefinitionKind::Method { owner: _, signature }) => signature.requires is Empty
            && signature.ensures is Empty,
        _ => false,
    }
}

fn check_no_contracts(program: &Program, method: DefId) -> (result: bool)
    ensures
        result == has_no_contracts(program, method),
{
    match program.kind(method) {
        Some(DefinitionKind::Method { owner: _, signature }) => signature.requires.is_empty()
            && signature.ensures.is_empty(),
        _ => false,
    }
}

/// Why a goal has no evidence, as a bound of an associated type reports it.
pub open spec fn bound_failure(failure: SolveFailure) -> &'static str {
    match failure {
        SolveFailure::Missing => "` (no matching conformance exists)",
        SolveFailure::Ambiguous(_) => "` (more than one conformance matches)",
        SolveFailure::Cycle(_) => "` (proof search entered a cycle)",
        _ => "` (an associated binding does not match)",
    }
}

pub(crate) fn describe_bound_failure(failure: &SolveFailure) -> (text: &'static str)
    ensures
        text == bound_failure(*failure),
{
    match failure {
        SolveFailure::Missing => "` (no matching conformance exists)",
        SolveFailure::Ambiguous(_) => "` (more than one conformance matches)",
        SolveFailure::Cycle(_) => "` (proof search entered a cycle)",
        _ => "` (an associated binding does not match)",
    }
}

impl Survey {
    /// The signature of an implementation is what its requirement asks for.
    #[verifier::opaque]
    pub open spec fn conformance_signatures_match(
        self,
        cx: &Sources,
        requirement: DefId,
        implementation: DefId,
        target: TyId,
        concept: ConceptInstance,
    ) -> (Survey, bool) {
        match (self.signature_of(requirement), self.signature_of(implementation)) {
            (Some(Signature::Callable(required)), Some(Signature::Callable(actual))) => if
                required.receiver != actual.receiver || required.params.spec_len()
                != actual.params.spec_len() || required.call_generic_params.spec_len()
                != actual.call_generic_params.spec_len() {
                (self, false)
            } else {
                let (types, alpha) = renaming(
                    self.names.types,
                    required.call_generic_params,
                    actual.call_generic_params,
                );
                let (types, same_params) = params_match(
                    types,
                    required.params,
                    actual.params,
                    target,
                    concept,
                    alpha,
                );
                if !same_params {
                    (self.with_types(types), false)
                } else {
                    let (types, return_ty) = required_type(
                        types,
                        required.return_ty,
                        target,
                        concept,
                        alpha,
                    );
                    if return_ty != actual.return_ty {
                        (self.with_types(types), false)
                    } else {
                        let (types, bounds) = required_bounds(
                            types,
                            required.call_bounds,
                            target,
                            concept,
                            alpha,
                        );
                        (
                            self.with_types(types),
                            same_goals(bounds, actual.call_bounds) && has_no_contracts(
                                cx.program,
                                implementation,
                            ),
                        )
                    }
                }
            },
            _ => (self, false),
        }
    }

    /// The target of a conformance is one that it may be declared for.
    #[verifier::opaque]
    pub open spec fn check_conformance_head(
        self,
        cx: &Sources,
        definition: DefId,
        generic_params: Chain<GenericParamId>,
        target: TyId,
        concept: DefId,
    ) -> (Survey, bool) {
        let head = is_target_head(self.data(target));
        let s = if head {
            self
        } else {
            self.text_error(
                "UnconstrainedImplParameter",
                "conformance target must have a concrete builtin, prelude, or nominal outer constructor",
                cx.program.span_of(definition),
            )
        };
        let module = cx.program.module_of(definition);
        let owned = cx.program.module_of(concept) == module || match self.data(target) {
            TyData::Nominal { definition: owner, arguments: _ } => cx.program.module_of(owner)
                == module,
            _ => false,
        };
        let s = if owned {
            s
        } else {
            s.text_error(
                "ForeignConformance",
                "conformance must be declared by the concept or target type owner module",
                cx.program.span_of(definition),
            )
        };
        let (s, determined) = s.check_determined(
            cx,
            generic_params,
            params_in(self.names.types, target, Chain::Empty),
        );
        (s, head && owned && determined)
    }

    /// The target determines each generic parameter.
    #[verifier::opaque]
    pub open spec fn check_determined(
        self,
        cx: &Sources,
        generic_params: Chain<GenericParamId>,
        present: Chain<u32>,
    ) -> (Survey, bool)
        decreases generic_params,
    {
        match generic_params {
            Chain::Empty => (self, true),
            Chain::Link(link) => {
                let (s, valid) = self.check_determined(cx, link.rest, present);
                if has_id(present, link.item.0) {
                    (s, valid)
                } else {
                    (
                        s.error(
                            "UnconstrainedImplParameter",
                            Message::GenericParam(
                                "impl parameter `",
                                link.item,
                                "` is not determined by the target head",
                            ),
                            cx.program.generic_span_of(link.item),
                        ),
                        false,
                    )
                }
            },
        }
    }

    /// The associated types that a conformance binds, in the order in which it
    /// does.
    #[verifier::opaque]
    pub open spec fn bind_associated(
        self,
        cx: &Sources,
        members: Chain<DefId>,
        declared: Chain<DefId>,
        context: TypeContext,
    ) -> (Survey, Chain<AssociatedTypeBinding>, Chain<u32>, bool)
        decreases members,
    {
        match members {
            Chain::Empty => (self, Chain::Empty, Chain::Empty, true),
            Chain::Link(link) => {
                let (s, list, seen, valid) = self.bind_associated(
                    cx,
                    link.rest,
                    declared,
                    context,
                );
                match cx.program.name_of(link.item) {
                    None => (s, list, seen, valid),
                    Some(name) => match cx.program.member_named(declared, name@) {
                        None => (
                            s.error(
                                "IncompleteConformance",
                                Message::Name("concept has no associated type `", name, "`"),
                                cx.program.span_of(link.item),
                            ),
                            list,
                            seen,
                            false,
                        ),
                        Some(requirement) => if has_id(seen, requirement.0) {
                            (
                                s.error(
                                    "DuplicateDeclaration",
                                    Message::Name(
                                        "associated type `",
                                        name,
                                        "` is bound more than once",
                                    ),
                                    cx.program.span_of(link.item),
                                ),
                                list,
                                seen,
                                false,
                            )
                        } else {
                            let after = id_inserted(seen, requirement.0);
                            match cx.program.kind_of(link.item) {
                                Some(
                                    DefinitionKind::AssociatedType { owner: _, bounds: _, binding },
                                ) => match binding {
                                    Some(value) => {
                                        let (n, ty) = s.names.resolve_type_ref(
                                            cx,
                                            value,
                                            context,
                                            RESOLUTION_LIMIT,
                                        );
                                        (
                                            s.with_names(n),
                                            list.pushed(
                                                AssociatedTypeBinding {
                                                    associated_type: requirement,
                                                    ty,
                                                },
                                            ),
                                            after,
                                            valid,
                                        )
                                    },
                                    None => (s, list, after, valid),
                                },
                                _ => (s, list, after, valid),
                            }
                        },
                    },
                }
            },
        }
    }

    /// Each associated type of the concept is bound.
    #[verifier::opaque]
    pub open spec fn require_associated(
        self,
        cx: &Sources,
        definition: DefId,
        declared: Chain<DefId>,
        seen: Chain<u32>,
    ) -> (Survey, bool)
        decreases declared,
    {
        match declared {
            Chain::Empty => (self, true),
            Chain::Link(link) => {
                let (s, valid) = self.require_associated(cx, definition, link.rest, seen);
                if has_id(seen, link.item.0) {
                    (s, valid)
                } else {
                    (
                        s.error(
                            "IncompleteConformance",
                            Message::Definition(
                                "missing associated type `",
                                link.item,
                                "`",
                                "<error>",
                            ),
                            cx.program.span_of(definition),
                        ),
                        false,
                    )
                }
            },
        }
    }

    /// The methods of a conformance by the requirements that they implement.
    #[verifier::opaque]
    pub open spec fn pair_methods(
        self,
        cx: &Sources,
        methods: Chain<DefId>,
        requirements: Chain<DefId>,
    ) -> (Survey, Chain<(DefId, DefId)>, bool)
        decreases methods,
    {
        match methods {
            Chain::Empty => (self, Chain::Empty, true),
            Chain::Link(link) => {
                let (s, list, valid) = self.pair_methods(cx, link.rest, requirements);
                match cx.program.name_of(link.item) {
                    None => (s, list, valid),
                    Some(name) => match cx.program.member_named(requirements, name@) {
                        None => (
                            s.error(
                                "IncompleteConformance",
                                Message::Name("concept has no method `", name, "`"),
                                cx.program.span_of(link.item),
                            ),
                            list,
                            false,
                        ),
                        Some(requirement) => {
                            let after = method_put(list, requirement, link.item);
                            if is_implemented(list, requirement) {
                                (
                                    s.error(
                                        "DuplicateDeclaration",
                                        Message::Name(
                                            "method `",
                                            name,
                                            "` is implemented more than once",
                                        ),
                                        cx.program.span_of(link.item),
                                    ),
                                    after,
                                    false,
                                )
                            } else {
                                (s, after, valid)
                            }
                        },
                    },
                }
            },
        }
    }

    /// Each requirement of the concept is implemented.
    #[verifier::opaque]
    pub open spec fn require_methods(
        self,
        cx: &Sources,
        definition: DefId,
        requirements: Chain<DefId>,
        methods: Chain<(DefId, DefId)>,
    ) -> (Survey, bool)
        decreases requirements,
    {
        match requirements {
            Chain::Empty => (self, true),
            Chain::Link(link) => {
                let (s, valid) = self.require_methods(cx, definition, link.rest, methods);
                if is_implemented(methods, link.item) {
                    (s, valid)
                } else {
                    (
                        s.error(
                            "IncompleteConformance",
                            Message::Definition("missing method `", link.item, "`", "<error>"),
                            cx.program.span_of(definition),
                        ),
                        false,
                    )
                }
            },
        }
    }

    /// The implementations have the signatures that are required of them.
    #[verifier::opaque]
    pub open spec fn check_methods(
        self,
        cx: &Sources,
        methods: Chain<(DefId, DefId)>,
        target: TyId,
        concept: ConceptInstance,
    ) -> (Survey, bool)
        decreases methods,
    {
        match methods {
            Chain::Empty => (self, true),
            Chain::Link(link) => {
                let (s, valid) = self.check_methods(cx, link.rest, target, concept);
                let (s, same) = s.conformance_signatures_match(
                    cx,
                    link.item.0,
                    link.item.1,
                    target,
                    concept,
                );
                if same {
                    (s, valid)
                } else {
                    (
                        s.report(
                            labelled(
                                "ConformanceSignatureMismatch",
                                Message::Text(
                                    "implementation method does not match its concept requirement",
                                ),
                                cx.program.span_of(link.item.1),
                                cx.program.span_of(link.item.0),
                                "required signature",
                            ),
                        ),
                        false,
                    )
                }
            },
        }
    }

    /// The conditions of a conformance: what the bounds of its parameters ask
    /// for. Each must speak of a proper part of the target.
    #[verifier::opaque]
    pub open spec fn parameter_conditions(
        self,
        cx: &Sources,
        parameter: GenericParamId,
        parameter_ty: TyId,
        bounds: Chain<ConceptRef>,
        target: TyId,
        context: TypeContext,
    ) -> (Survey, Chain<Goal>, bool)
        decreases bounds,
    {
        match bounds {
            Chain::Empty => (self, Chain::Empty, true),
            Chain::Link(link) => {
                let (s, list, valid) = self.parameter_conditions(
                    cx,
                    parameter,
                    parameter_ty,
                    link.rest,
                    target,
                    context,
                );
                let (n, bound) = s.names.resolve_concept_ref(
                    cx,
                    link.item.path,
                    link.item.bindings,
                    context,
                    false,
                    RESOLUTION_LIMIT,
                );
                let s = s.with_names(n);
                match bound {
                    None => (s, list, valid),
                    Some(concept) => {
                        let after = list.pushed(Goal { self_ty: parameter_ty, concept });
                        if strict_subterm(n.types, parameter_ty, target) {
                            (s, after, valid)
                        } else {
                            (
                                s.text_error(
                                    "ConformanceResolutionCycle",
                                    "conformance prerequisite must apply to a strict structural subterm",
                                    cx.program.generic_span_of(parameter),
                                ),
                                after,
                                false,
                            )
                        }
                    },
                }
            },
        }
    }

    #[verifier::opaque]
    pub open spec fn conformance_conditions(
        self,
        cx: &Sources,
        generic_params: Chain<GenericParamId>,
        target: TyId,
        context: TypeContext,
    ) -> (Survey, Chain<Goal>, bool)
        decreases generic_params,
    {
        match generic_params {
            Chain::Empty => (self, Chain::Empty, true),
            Chain::Link(link) => {
                let (s, list, valid) = self.conformance_conditions(
                    cx,
                    link.rest,
                    target,
                    context,
                );
                let (n, parameter_ty) = s.names.intern(TyData::Param(link.item));
                let s = s.with_names(n);
                match at(cx.program.generic_params@, link.item.0) {
                    None => (s, list, valid),
                    Some(source) => {
                        let (s, own, own_valid) = s.parameter_conditions(
                            cx,
                            link.item,
                            parameter_ty,
                            source.bounds,
                            target,
                            context,
                        );
                        (s, list.joined(own), valid && own_valid)
                    },
                }
            },
        }
    }

    /// A conformance is checked against its concept. One without errors takes
    /// part in the search for evidence.
    #[verifier::opaque]
    pub open spec fn build_conformance(self, cx: &Sources, definition: DefId) -> Survey {
        match cx.program.kind_of(definition) {
            Some(
                DefinitionKind::Conformance {
                    generic_params,
                    target,
                    concept,
                    associated_types,
                    methods,
                },
            ) => {
                let (n, context) = self.names.type_context(cx, definition);
                let (n, ty) = n.resolve_type_ref(cx, target, context, RESOLUTION_LIMIT);
                let (n, instance) = n.resolve_concept_ref(
                    cx,
                    concept.path,
                    concept.bindings,
                    context,
                    false,
                    RESOLUTION_LIMIT,
                );
                let s = self.with_names(n);
                match instance {
                    None => s,
                    Some(instance) => s.build_members(
                        cx,
                        definition,
                        generic_params,
                        ty,
                        instance.concept,
                        associated_types,
                        methods,
                        context,
                    ),
                }
            },
            _ => self,
        }
    }

    #[verifier::opaque]
    pub open spec fn build_members(
        self,
        cx: &Sources,
        definition: DefId,
        generic_params: Chain<GenericParamId>,
        target: TyId,
        concept: DefId,
        associated_types: Chain<DefId>,
        methods: Chain<DefId>,
        context: TypeContext,
    ) -> Survey {
        match cx.program.kind_of(concept) {
            Some(
                DefinitionKind::Concept {
                    dyn_capable: _,
                    associated_types: declared,
                    requirements,
                },
            ) => {
                let (s, head_valid) = self.check_conformance_head(
                    cx,
                    definition,
                    generic_params,
                    target,
                    concept,
                );
                let (s, list, seen, bound_valid) = s.bind_associated(
                    cx,
                    associated_types,
                    declared,
                    context,
                );
                let (s, all_bound) = s.require_associated(cx, definition, declared, seen);
                let bindings = bindings_sorted(list);
                let instance = ConceptInstance { concept, bindings };
                let (s, paired, paired_valid) = s.pair_methods(cx, methods, requirements);
                let (s, all_paired) = s.require_methods(cx, definition, requirements, paired);
                let (s, all_match) = s.check_methods(cx, paired, target, instance);
                let (s, conditions, conditions_valid) = s.conformance_conditions(
                    cx,
                    generic_params,
                    target,
                    context,
                );
                let s = s.set_conformance(
                    definition,
                    ConformanceSemantics {
                        concept: instance,
                        target,
                        methods: paired,
                        associated_types: bindings,
                    },
                );
                if head_valid && bound_valid && all_bound && paired_valid && all_paired
                    && all_match && conditions_valid {
                    s.set_index(
                        ImplIndex {
                            buckets: bucket_inserted(
                                s.st.impl_index.buckets,
                                ImplHeader {
                                    definition,
                                    generic_params,
                                    concept,
                                    target,
                                    conditions,
                                    associated_types: bindings,
                                },
                            ),
                        },
                    )
                } else {
                    s
                }
            },
            _ => self,
        }
    }

    /// The conformances among the first `count` definitions are checked.
    pub open spec fn built(self, cx: &Sources, count: nat) -> Survey
        decreases count,
    {
        if count == 0 {
            self
        } else {
            self.built(cx, (count - 1) as nat).build_conformance(cx, DefId((count - 1) as u32))
        }
    }

    #[verifier::opaque]
    pub open spec fn report_overlaps(self, cx: &Sources, pairs: Chain<(DefId, DefId)>) -> Survey
        decreases pairs,
    {
        match pairs {
            Chain::Empty => self,
            Chain::Link(link) => {
                let s = self.report_overlaps(cx, link.rest);
                let duplicate = match (
                    s.st.conformances.lookup(link.item.0.0),
                    s.st.conformances.lookup(link.item.1.0),
                ) {
                    (Some(left), Some(right)) => left.target == right.target,
                    _ => false,
                };
                s.report(
                    labelled(
                        if duplicate {
                            "DuplicateConformance"
                        } else {
                            "OverlappingConformance"
                        },
                        Message::Text(
                            if duplicate {
                                "the same conformance is declared more than once"
                            } else {
                                "conformance target heads may overlap"
                            },
                        ),
                        cx.program.span_of(link.item.1),
                        cx.program.span_of(link.item.0),
                        "conflicting conformance",
                    ),
                )
            },
        }
    }
}

impl Analyzer {
    fn conformance_signatures_match(
        &mut self,
        cx: &Sources,
        requirement: DefId,
        implementation: DefId,
        target: TyId,
        concept: &ConceptInstance,
    ) -> (result: bool)
        requires
            old(self).wf(),
        ensures
            adds_to(old(self)@.names.diagnostics, final(self)@.names.diagnostics),
            final(self).wf(),
            later(old(self)@.names.types, final(self)@.names.types),
            (final(self)@, result) == old(self)@.conformance_signatures_match(
                cx,
                requirement,
                implementation,
                target,
                *concept,
            ),
    {
        proof {
            reveal(Survey::conformance_signatures_match);
        }
        match (
            self.st.signatures.get(requirement.0),
            self.st.signatures.get(implementation.0),
        ) {
            (Some(Signature::Callable(required)), Some(Signature::Callable(actual))) => {
                if required.receiver != actual.receiver || !same_length(
                    &required.params,
                    &actual.params,
                ) || !same_length(&required.call_generic_params, &actual.call_generic_params) {
                    return false;
                }
                let alpha = rename(
                    &mut self.names.types,
                    &required.call_generic_params,
                    &actual.call_generic_params,
                );
                if !check_params(
                    &mut self.names.types,
                    &required.params,
                    &actual.params,
                    target,
                    concept,
                    &alpha,
                ) {
                    return false;
                }
                let return_ty = make_required_type(
                    &mut self.names.types,
                    required.return_ty,
                    target,
                    concept,
                    &alpha,
                );
                if return_ty != actual.return_ty {
                    return false;
                }
                let bounds = make_required_bounds(
                    &mut self.names.types,
                    &required.call_bounds,
                    target,
                    concept,
                    &alpha,
                );
                check_same_goals(&bounds, &actual.call_bounds) && check_no_contracts(
                    cx.program,
                    implementation,
                )
            },
            _ => false,
        }
    }

    fn check_conformance_head(
        &mut self,
        cx: &Sources,
        definition: DefId,
        generic_params: &Chain<GenericParamId>,
        target: TyId,
        concept: DefId,
    ) -> (valid: bool)
        requires
            old(self).wf(),
        ensures
            adds_to(old(self)@.names.diagnostics, final(self)@.names.diagnostics),
            final(self).wf(),
            later(old(self)@.names.types, final(self)@.names.types),
            (final(self)@, valid) == old(self)@.check_conformance_head(
                cx,
                definition,
                *generic_params,
                target,
                concept,
            ),
    {
        proof {
            reveal(Survey::check_conformance_head);
        }
        let head = check_target_head(self.names.types.data(target));
        let module = cx.program.module(definition);
        let owned = cx.program.module(concept) == module || match self.names.types.data(target) {
            TyData::Nominal { definition: owner, arguments: _ } => cx.program.module(*owner)
                == module,
            _ => false,
        };
        let present = type_parameters_in(&self.names.types, target);
        if !head {
            self.text_error(
                "UnconstrainedImplParameter",
                "conformance target must have a concrete builtin, prelude, or nominal outer constructor",
                cx.program.definition_span(definition),
            );
        }
        if !owned {
            self.text_error(
                "ForeignConformance",
                "conformance must be declared by the concept or target type owner module",
                cx.program.definition_span(definition),
            );
        }
        let determined = self.check_determined(cx, generic_params, &present);
        head && owned && determined
    }

    fn check_determined(
        &mut self,
        cx: &Sources,
        generic_params: &Chain<GenericParamId>,
        present: &Chain<u32>,
    ) -> (valid: bool)
        ensures
            adds_to(old(self)@.names.diagnostics, final(self)@.names.diagnostics),
            final(self)@.names.types == old(self)@.names.types,
            (final(self)@, valid) == old(self)@.check_determined(cx, *generic_params, *present),
        decreases generic_params,
    {
        proof {
            reveal(Survey::check_determined);
        }
        match generic_params {
            Chain::Empty => true,
            Chain::Link(link) => {
                let valid = self.check_determined(cx, &link.rest, present);
                if contains_id(present, link.item.0) {
                    valid
                } else {
                    self.error(
                        "UnconstrainedImplParameter",
                        Message::GenericParam(
                            "impl parameter `",
                            link.item,
                            "` is not determined by the target head",
                        ),
                        cx.program.generic_span(link.item),
                    );
                    false
                }
            },
        }
    }

    fn bind_associated(
        &mut self,
        cx: &Sources,
        members: &Chain<DefId>,
        declared: &Chain<DefId>,
        context: &TypeContext,
    ) -> (result: (Chain<AssociatedTypeBinding>, Chain<u32>, bool))
        requires
            old(self).wf(),
        ensures
            adds_to(old(self)@.names.diagnostics, final(self)@.names.diagnostics),
            final(self).wf(),
            later(old(self)@.names.types, final(self)@.names.types),
            (final(self)@, result.0, result.1, result.2) == old(self)@.bind_associated(
                cx,
                *members,
                *declared,
                *context,
            ),
        decreases members,
    {
        proof {
            reveal(Survey::bind_associated);
        }
        match members {
            Chain::Empty => (Chain::new(), Chain::new(), true),
            Chain::Link(link) => {
                let (list, seen, valid) = self.bind_associated(
                    cx,
                    &link.rest,
                    declared,
                    context,
                );
                match cx.program.definition_name(link.item) {
                    None => (list, seen, valid),
                    Some(name) => match cx.program.find_member(declared, name) {
                        None => {
                            self.error(
                                "IncompleteConformance",
                                Message::Name(
                                    "concept has no associated type `",
                                    name.clone(),
                                    "`",
                                ),
                                cx.program.definition_span(link.item),
                            );
                            (list, seen, false)
                        },
                        Some(requirement) => if contains_id(&seen, requirement.0) {
                            self.error(
                                "DuplicateDeclaration",
                                Message::Name(
                                    "associated type `",
                                    name.clone(),
                                    "` is bound more than once",
                                ),
                                cx.program.definition_span(link.item),
                            );
                            (list, seen, false)
                        } else {
                            let after = insert_id(&seen, requirement.0);
                            match cx.program.kind(link.item) {
                                Some(
                                    DefinitionKind::AssociatedType { owner: _, bounds: _, binding },
                                ) => match binding {
                                    Some(value) => {
                                        let ty = self.names.resolve_type_ref(
                                            cx,
                                            *value,
                                            context,
                                            RESOLUTION_LIMIT,
                                        );
                                        (
                                            list.with(
                                                AssociatedTypeBinding {
                                                    associated_type: requirement,
                                                    ty,
                                                },
                                            ),
                                            after,
                                            valid,
                                        )
                                    },
                                    None => (list, after, valid),
                                },
                                _ => (list, after, valid),
                            }
                        },
                    },
                }
            },
        }
    }

    fn require_associated(
        &mut self,
        cx: &Sources,
        definition: DefId,
        declared: &Chain<DefId>,
        seen: &Chain<u32>,
    ) -> (valid: bool)
        ensures
            adds_to(old(self)@.names.diagnostics, final(self)@.names.diagnostics),
            final(self)@.names.types == old(self)@.names.types,
            (final(self)@, valid) == old(self)@.require_associated(
                cx,
                definition,
                *declared,
                *seen,
            ),
        decreases declared,
    {
        proof {
            reveal(Survey::require_associated);
        }
        match declared {
            Chain::Empty => true,
            Chain::Link(link) => {
                let valid = self.require_associated(cx, definition, &link.rest, seen);
                if contains_id(seen, link.item.0) {
                    valid
                } else {
                    self.error(
                        "IncompleteConformance",
                        Message::Definition(
                            "missing associated type `",
                            link.item,
                            "`",
                            "<error>",
                        ),
                        cx.program.definition_span(definition),
                    );
                    false
                }
            },
        }
    }

    fn pair_methods(
        &mut self,
        cx: &Sources,
        methods: &Chain<DefId>,
        requirements: &Chain<DefId>,
    ) -> (result: (Chain<(DefId, DefId)>, bool))
        ensures
            adds_to(old(self)@.names.diagnostics, final(self)@.names.diagnostics),
            final(self)@.names.types == old(self)@.names.types,
            (final(self)@, result.0, result.1) == old(self)@.pair_methods(
                cx,
                *methods,
                *requirements,
            ),
        decreases methods,
    {
        proof {
            reveal(Survey::pair_methods);
        }
        match methods {
            Chain::Empty => (Chain::new(), true),
            Chain::Link(link) => {
                let (list, valid) = self.pair_methods(cx, &link.rest, requirements);
                match cx.program.definition_name(link.item) {
                    None => (list, valid),
                    Some(name) => match cx.program.find_member(requirements, name) {
                        None => {
                            self.error(
                                "IncompleteConformance",
                                Message::Name("concept has no method `", name.clone(), "`"),
                                cx.program.definition_span(link.item),
                            );
                            (list, false)
                        },
                        Some(requirement) => {
                            let after = put_method(&list, requirement, link.item);
                            if check_implemented(&list, requirement) {
                                self.error(
                                    "DuplicateDeclaration",
                                    Message::Name(
                                        "method `",
                                        name.clone(),
                                        "` is implemented more than once",
                                    ),
                                    cx.program.definition_span(link.item),
                                );
                                (after, false)
                            } else {
                                (after, valid)
                            }
                        },
                    },
                }
            },
        }
    }

    fn require_methods(
        &mut self,
        cx: &Sources,
        definition: DefId,
        requirements: &Chain<DefId>,
        methods: &Chain<(DefId, DefId)>,
    ) -> (valid: bool)
        ensures
            adds_to(old(self)@.names.diagnostics, final(self)@.names.diagnostics),
            final(self)@.names.types == old(self)@.names.types,
            (final(self)@, valid) == old(self)@.require_methods(
                cx,
                definition,
                *requirements,
                *methods,
            ),
        decreases requirements,
    {
        proof {
            reveal(Survey::require_methods);
        }
        match requirements {
            Chain::Empty => true,
            Chain::Link(link) => {
                let valid = self.require_methods(cx, definition, &link.rest, methods);
                if check_implemented(methods, link.item) {
                    valid
                } else {
                    self.error(
                        "IncompleteConformance",
                        Message::Definition("missing method `", link.item, "`", "<error>"),
                        cx.program.definition_span(definition),
                    );
                    false
                }
            },
        }
    }

    fn check_methods(
        &mut self,
        cx: &Sources,
        methods: &Chain<(DefId, DefId)>,
        target: TyId,
        concept: &ConceptInstance,
    ) -> (valid: bool)
        requires
            old(self).wf(),
        ensures
            adds_to(old(self)@.names.diagnostics, final(self)@.names.diagnostics),
            final(self).wf(),
            later(old(self)@.names.types, final(self)@.names.types),
            (final(self)@, valid) == old(self)@.check_methods(cx, *methods, target, *concept),
        decreases methods,
    {
        proof {
            reveal(Survey::check_methods);
        }
        match methods {
            Chain::Empty => true,
            Chain::Link(link) => {
                let valid = self.check_methods(cx, &link.rest, target, concept);
                if self.conformance_signatures_match(
                    cx,
                    link.item.0,
                    link.item.1,
                    target,
                    concept,
                ) {
                    valid
                } else {
                    let diagnostic = Diagnostic::error(
                        "ConformanceSignatureMismatch",
                        Message::Text(
                            "implementation method does not match its concept requirement",
                        ),
                        cx.program.definition_span(link.item.1),
                    ).with_label(cx.program.definition_span(link.item.0), "required signature");
                    self.report(diagnostic);
                    false
                }
            },
        }
    }

    fn parameter_conditions(
        &mut self,
        cx: &Sources,
        parameter: GenericParamId,
        parameter_ty: TyId,
        bounds: &Chain<ConceptRef>,
        target: TyId,
        context: &TypeContext,
    ) -> (result: (Chain<Goal>, bool))
        requires
            old(self).wf(),
        ensures
            adds_to(old(self)@.names.diagnostics, final(self)@.names.diagnostics),
            final(self).wf(),
            later(old(self)@.names.types, final(self)@.names.types),
            (final(self)@, result.0, result.1) == old(self)@.parameter_conditions(
                cx,
                parameter,
                parameter_ty,
                *bounds,
                target,
                *context,
            ),
        decreases bounds,
    {
        proof {
            reveal(Survey::parameter_conditions);
        }
        match bounds {
            Chain::Empty => (Chain::new(), true),
            Chain::Link(link) => {
                let (list, valid) = self.parameter_conditions(
                    cx,
                    parameter,
                    parameter_ty,
                    &link.rest,
                    target,
                    context,
                );
                match self.names.resolve_concept_ref(
                    cx,
                    &link.item.path,
                    &link.item.bindings,
                    context,
                    false,
                    RESOLUTION_LIMIT,
                ) {
                    None => (list, valid),
                    Some(concept) => {
                        let after = list.with(Goal { self_ty: parameter_ty, concept });
                        if is_strict_structural_subterm(&self.names.types, parameter_ty, target) {
                            (after, valid)
                        } else {
                            self.text_error(
                                "ConformanceResolutionCycle",
                                "conformance prerequisite must apply to a strict structural subterm",
                                cx.program.generic_span(parameter),
                            );
                            (after, false)
                        }
                    },
                }
            },
        }
    }

    fn conformance_conditions(
        &mut self,
        cx: &Sources,
        generic_params: &Chain<GenericParamId>,
        target: TyId,
        context: &TypeContext,
    ) -> (result: (Chain<Goal>, bool))
        requires
            old(self).wf(),
        ensures
            adds_to(old(self)@.names.diagnostics, final(self)@.names.diagnostics),
            final(self).wf(),
            later(old(self)@.names.types, final(self)@.names.types),
            (final(self)@, result.0, result.1) == old(self)@.conformance_conditions(
                cx,
                *generic_params,
                target,
                *context,
            ),
        decreases generic_params,
    {
        proof {
            reveal(Survey::conformance_conditions);
        }
        match generic_params {
            Chain::Empty => (Chain::new(), true),
            Chain::Link(link) => {
                let (list, valid) = self.conformance_conditions(cx, &link.rest, target, context);
                let parameter_ty = self.names.intern(TyData::Param(link.item));
                match get(&cx.program.generic_params, link.item.0) {
                    None => (list, valid),
                    Some(source) => {
                        let (own, own_valid) = self.parameter_conditions(
                            cx,
                            link.item,
                            parameter_ty,
                            &source.bounds,
                            target,
                            context,
                        );
                        (list.join(&own), valid && own_valid)
                    },
                }
            },
        }
    }

    pub fn build_conformance(&mut self, cx: &Sources, definition: DefId)
        requires
            old(self).wf(),
        ensures
            adds_to(old(self)@.names.diagnostics, final(self)@.names.diagnostics),
            final(self).wf(),
            later(old(self)@.names.types, final(self)@.names.types),
            final(self)@ == old(self)@.build_conformance(cx, definition),
    {
        proof {
            reveal(Survey::build_conformance);
        }
        match cx.program.kind(definition) {
            Some(
                DefinitionKind::Conformance {
                    generic_params,
                    target,
                    concept,
                    associated_types,
                    methods,
                },
            ) => {
                let context = self.names.type_context(cx, definition);
                let ty = self.names.resolve_type_ref(cx, *target, &context, RESOLUTION_LIMIT);
                match self.names.resolve_concept_ref(
                    cx,
                    &concept.path,
                    &concept.bindings,
                    &context,
                    false,
                    RESOLUTION_LIMIT,
                ) {
                    None => {},
                    Some(instance) => {
                        self.build_members(
                            cx,
                            definition,
                            generic_params,
                            ty,
                            instance.concept,
                            associated_types,
                            methods,
                            &context,
                        );
                    },
                }
            },
            _ => {},
        }
    }

    fn build_members(
        &mut self,
        cx: &Sources,
        definition: DefId,
        generic_params: &Chain<GenericParamId>,
        target: TyId,
        concept: DefId,
        associated_types: &Chain<DefId>,
        methods: &Chain<DefId>,
        context: &TypeContext,
    )
        requires
            old(self).wf(),
        ensures
            adds_to(old(self)@.names.diagnostics, final(self)@.names.diagnostics),
            final(self).wf(),
            later(old(self)@.names.types, final(self)@.names.types),
            final(self)@ == old(self)@.build_members(
                cx,
                definition,
                *generic_params,
                target,
                concept,
                *associated_types,
                *methods,
                *context,
            ),
    {
        proof {
            reveal(Survey::build_members);
        }
        match cx.program.kind(concept) {
            Some(
                DefinitionKind::Concept {
                    dyn_capable: _,
                    associated_types: declared,
                    requirements,
                },
            ) => {
                let head_valid = self.check_conformance_head(
                    cx,
                    definition,
                    generic_params,
                    target,
                    concept,
                );
                let (list, seen, bound_valid) = self.bind_associated(
                    cx,
                    associated_types,
                    declared,
                    context,
                );
                let all_bound = self.require_associated(cx, definition, declared, &seen);
                let bindings = sort_bindings(&list);
                let instance = ConceptInstance { concept, bindings: bindings.clone() };
                let (paired, paired_valid) = self.pair_methods(cx, methods, requirements);
                let all_paired = self.require_methods(cx, definition, requirements, &paired);
                let all_match = self.check_methods(cx, &paired, target, &instance);
                let (conditions, conditions_valid) = self.conformance_conditions(
                    cx,
                    generic_params,
                    target,
                    context,
                );
                self.set_conformance(
                    definition,
                    ConformanceSemantics {
                        concept: instance,
                        target,
                        methods: paired,
                        associated_types: bindings.clone(),
                    },
                );
                if head_valid && bound_valid && all_bound && paired_valid && all_paired
                    && all_match && conditions_valid {
                    self.insert_header(
                        ImplHeader {
                            definition,
                            generic_params: generic_params.clone(),
                            concept,
                            target,
                            conditions,
                            associated_types: bindings,
                        },
                    );
                }
            },
            _ => {},
        }
    }

    pub fn report_overlaps(&mut self, cx: &Sources, pairs: &Chain<(DefId, DefId)>)
        ensures
            adds_to(old(self)@.names.diagnostics, final(self)@.names.diagnostics),
            final(self)@.names.types == old(self)@.names.types,
            final(self)@ == old(self)@.report_overlaps(cx, *pairs),
        decreases pairs,
    {
        proof {
            reveal(Survey::report_overlaps);
        }
        match pairs {
            Chain::Empty => {},
            Chain::Link(link) => {
                self.report_overlaps(cx, &link.rest);
                let duplicate = match (
                    self.st.conformances.get(link.item.0.0),
                    self.st.conformances.get(link.item.1.0),
                ) {
                    (Some(left), Some(right)) => left.target == right.target,
                    _ => false,
                };
                let diagnostic = Diagnostic::error(
                    if duplicate {
                        "DuplicateConformance"
                    } else {
                        "OverlappingConformance"
                    },
                    Message::Text(
                        if duplicate {
                            "the same conformance is declared more than once"
                        } else {
                            "conformance target heads may overlap"
                        },
                    ),
                    cx.program.definition_span(link.item.1),
                ).with_label(
                    cx.program.definition_span(link.item.0),
                    "conflicting conformance",
                );
                self.report(diagnostic);
            },
        }
    }
}

} // verus!
