//! A conformance takes part in the search for evidence only if it keeps every
//! promise of its concept.

use vstd::prelude::*;

use crate::chain::Chain;
use crate::hir::DefinitionKind;
use crate::ids::{DefId, GenericParamId, TyId};
use crate::implement::{is_implemented, is_target_head, method_put};
use crate::resolve::{Names, Sources, TypeContext};
use crate::survey::Survey;
use crate::table::has_id;
use crate::ty::{ConceptInstance, TyData};
use crate::unify::params_in;

verus! {

/// How many errors have been reported.
pub open spec fn errors(s: Survey) -> nat {
    s.names.diagnostics.spec_len()
}

/// How many of the parameters are not among those that are present.
pub open spec fn undetermined(params: Chain<GenericParamId>, present: Chain<u32>) -> nat
    decreases params,
{
    match params {
        Chain::Empty => 0,
        Chain::Link(link) => undetermined(link.rest, present) + if has_id(present, link.item.0) {
            0nat
        } else {
            1nat
        },
    }
}

/// Each generic parameter that the target does not mention is reported, and
/// the parameters are accepted exactly if there is none.
pub proof fn law_determined_parameters(
    s: Survey,
    cx: &Sources,
    params: Chain<GenericParamId>,
    present: Chain<u32>,
)
    ensures
        ({
            let (after, valid) = s.check_determined(cx, params, present);
            &&& errors(after) == errors(s) + undetermined(params, present)
            &&& valid <==> undetermined(params, present) == 0
            &&& valid <==> forall|i: int|
                0 <= i < params.seq().len() ==> has_id(present, (#[trigger] params.seq()[i]).0)
            &&& after.st == s.st
            &&& after.names.types == s.names.types
        }),
    decreases params,
{
    reveal_with_fuel(Survey::check_determined, 2);
    reveal(Survey::error);
    reveal(Names::report);
    if params is Link {
        let rest = params.without_last();
        let last = params->0.item;
        law_determined_parameters(s, cx, rest, present);
        assert(params.seq() == rest.seq().push(last));
        assert(params.seq()[rest.seq().len() as int] == last);
        assert forall|i: int| 0 <= i < rest.seq().len() implies #[trigger] rest.seq()[i]
            == params.seq()[i] by {}
        if exists|i: int| 0 <= i < rest.seq().len() && !has_id(present, (#[trigger] rest.seq()[i]).0) {
            let i = choose|i: int|
                0 <= i < rest.seq().len() && !has_id(present, (#[trigger] rest.seq()[i]).0);
            assert(params.seq()[i] == rest.seq()[i]);
        }
        if undetermined(params, present) == 0 {
            assert forall|i: int| 0 <= i < params.seq().len() implies has_id(
                present,
                (#[trigger] params.seq()[i]).0,
            ) by {
                if i < rest.seq().len() {
                    assert(rest.seq()[i] == params.seq()[i]);
                }
            }
        }
    }
}

/// A conformance may be declared for a type with a builtin, prelude or nominal
/// head, in the module of its concept or of its type, if the type mentions each
/// of its parameters; anything else is reported.
pub proof fn law_conformance_heads(
    s: Survey,
    cx: &Sources,
    definition: DefId,
    generic_params: Chain<GenericParamId>,
    target: TyId,
    concept: DefId,
)
    ensures
        ({
            let (after, valid) = s.check_conformance_head(
                cx,
                definition,
                generic_params,
                target,
                concept,
            );
            let head = match s.data(target) {
                TyData::Nominal { definition: _, arguments: _ } => true,
                TyData::Builtin(_) => true,
                TyData::Option(_) => true,
                TyData::Result { ok: _, error: _ } => true,
                TyData::TextMap(_) => true,
                _ => false,
            };
            let home = cx.program.module_of(definition);
            let owned = cx.program.module_of(concept) == home || match s.data(target) {
                TyData::Nominal { definition: owner, arguments: _ } => cx.program.module_of(owner)
                    == home,
                _ => false,
            };
            let missing = undetermined(
                generic_params,
                params_in(s.names.types, target, Chain::Empty),
            );
            &&& valid <==> head && owned && missing == 0
            &&& errors(after) == errors(s) + missing + (if head {
                0nat
            } else {
                1nat
            }) + (if owned {
                0nat
            } else {
                1nat
            })
            &&& after.st == s.st
        }),
{
    reveal(Survey::check_conformance_head);
    reveal(Survey::error);
    reveal(Names::report);
    let home = cx.program.module_of(definition);
    let head = is_target_head(s.data(target));
    let first = if head {
        s
    } else {
        s.text_error(
            "UnconstrainedImplParameter",
            "conformance target must have a concrete builtin, prelude, or nominal outer constructor",
            cx.program.span_of(definition),
        )
    };
    let owned = cx.program.module_of(concept) == home || match s.data(target) {
        TyData::Nominal { definition: owner, arguments: _ } => cx.program.module_of(owner) == home,
        _ => false,
    };
    let second = if owned {
        first
    } else {
        first.text_error(
            "ForeignConformance",
            "conformance must be declared by the concept or target type owner module",
            cx.program.span_of(definition),
        )
    };
    assert(errors(first) == errors(s) + if head {
        0nat
    } else {
        1nat
    });
    assert(errors(second) == errors(first) + if owned {
        0nat
    } else {
        1nat
    });
    law_determined_parameters(
        second,
        cx,
        generic_params,
        params_in(s.names.types, target, Chain::Empty),
    );
}

/// How many of the requirements have no implementation.
pub open spec fn unimplemented(requirements: Chain<DefId>, methods: Chain<(DefId, DefId)>) -> nat
    decreases requirements,
{
    match requirements {
        Chain::Empty => 0,
        Chain::Link(link) => unimplemented(link.rest, methods) + if is_implemented(
            methods,
            link.item,
        ) {
            0nat
        } else {
            1nat
        },
    }
}

/// Each requirement without an implementation is reported, and the methods are
/// accepted exactly if there is none.
pub proof fn law_every_requirement_is_implemented(
    s: Survey,
    cx: &Sources,
    definition: DefId,
    requirements: Chain<DefId>,
    methods: Chain<(DefId, DefId)>,
)
    ensures
        ({
            let (after, valid) = s.require_methods(cx, definition, requirements, methods);
            &&& errors(after) == errors(s) + unimplemented(requirements, methods)
            &&& valid <==> unimplemented(requirements, methods) == 0
            &&& valid ==> forall|i: int|
                0 <= i < requirements.seq().len() ==> is_implemented(
                    methods,
                    #[trigger] requirements.seq()[i],
                )
            &&& !valid ==> exists|i: int|
                0 <= i < requirements.seq().len() && !is_implemented(
                    methods,
                    #[trigger] requirements.seq()[i],
                )
            &&& after.st == s.st
        }),
    decreases requirements,
{
    reveal_with_fuel(Survey::require_methods, 2);
    reveal(Survey::error);
    reveal(Names::report);
    if requirements is Link {
        let rest = requirements.without_last();
        let last = requirements->0.item;
        let count = rest.seq().len() as int;
        law_every_requirement_is_implemented(s, cx, definition, rest, methods);
        assert(requirements.seq() == rest.seq().push(last));
        assert(requirements.seq()[count] == last);
        if unimplemented(rest, methods) > 0 {
            let i = choose|i: int|
                0 <= i < rest.seq().len() && !is_implemented(methods, #[trigger] rest.seq()[i]);
            assert(requirements.seq()[i] == rest.seq()[i]);
        } else {
            assert forall|i: int| 0 <= i < requirements.seq().len() && i != count implies
                is_implemented(methods, #[trigger] requirements.seq()[i]) by {
                assert(rest.seq()[i] == requirements.seq()[i]);
            }
        }
    }
}

/// How many of the associated types are not bound.
pub open spec fn unbound(declared: Chain<DefId>, seen: Chain<u32>) -> nat
    decreases declared,
{
    match declared {
        Chain::Empty => 0,
        Chain::Link(link) => unbound(link.rest, seen) + if has_id(seen, link.item.0) {
            0nat
        } else {
            1nat
        },
    }
}

/// Each associated type of the concept that is not bound is reported, and the
/// bindings are accepted exactly if there is none.
pub proof fn law_every_associated_type_is_bound(
    s: Survey,
    cx: &Sources,
    definition: DefId,
    declared: Chain<DefId>,
    seen: Chain<u32>,
)
    ensures
        ({
            let (after, valid) = s.require_associated(cx, definition, declared, seen);
            &&& errors(after) == errors(s) + unbound(declared, seen)
            &&& valid <==> unbound(declared, seen) == 0
            &&& after.st == s.st
        }),
    decreases declared,
{
    reveal_with_fuel(Survey::require_associated, 2);
    reveal(Survey::error);
    reveal(Names::report);
    if declared is Link {
        law_every_associated_type_is_bound(s, cx, definition, declared.without_last(), seen);
    }
}

/// The signature of one implementation was accepted for its requirement, by
/// what was known at that time.
pub open spec fn was_accepted(
    cx: &Sources,
    pair: (DefId, DefId),
    target: TyId,
    concept: ConceptInstance,
) -> bool {
    exists|then: Survey| #[trigger]
        then.conformance_signatures_match(cx, pair.0, pair.1, target, concept).1
}

/// Implementations are accepted together only if each was accepted for its
/// requirement; otherwise there is an error for each that was not.
pub proof fn law_every_signature_is_accepted(
    s: Survey,
    cx: &Sources,
    methods: Chain<(DefId, DefId)>,
    target: TyId,
    concept: ConceptInstance,
)
    ensures
        ({
            let (after, valid) = s.check_methods(cx, methods, target, concept);
            &&& valid ==> errors(after) == errors(s)
            &&& !valid ==> errors(after) > errors(s)
            &&& errors(after) >= errors(s)
            &&& after.st == s.st
            &&& valid ==> forall|i: int|
                0 <= i < methods.seq().len() ==> was_accepted(
                    cx,
                    #[trigger] methods.seq()[i],
                    target,
                    concept,
                )
        }),
        methods is Link ==> ({
            let before = s.check_methods(cx, methods.without_last(), target, concept);
            let last = methods->0.item;
            s.check_methods(cx, methods, target, concept).1 == (before.1
                && before.0.conformance_signatures_match(cx, last.0, last.1, target, concept).1)
        }),
    decreases methods,
{
    reveal_with_fuel(Survey::check_methods, 2);
    reveal(Survey::conformance_signatures_match);
    reveal(Survey::report);
    reveal(Names::report);
    if methods is Link {
        let rest = methods.without_last();
        let last = methods->0.item;
        law_every_signature_is_accepted(s, cx, rest, target, concept);
        let before = s.check_methods(cx, rest, target, concept).0;
        let (_, same) = before.conformance_signatures_match(cx, last.0, last.1, target, concept);
        assert(methods.seq() == rest.seq().push(last));
        if s.check_methods(cx, methods, target, concept).1 {
            assert(was_accepted(cx, last, target, concept));
            assert forall|i: int| 0 <= i < methods.seq().len() implies was_accepted(
                cx,
                #[trigger] methods.seq()[i],
                target,
                concept,
            ) by {
                if i < rest.seq().len() {
                    assert(rest.seq()[i] == methods.seq()[i]);
                }
            }
        }
    }
}

/// The pair is among those of the list.
pub open spec fn implements(
    methods: Chain<(DefId, DefId)>,
    requirement: DefId,
    method: DefId,
) -> bool
    decreases methods,
{
    match methods {
        Chain::Empty => false,
        Chain::Link(link) => link.item == (requirement, method) || implements(
            link.rest,
            requirement,
            method,
        ),
    }
}

/// Noting an implementation keeps those of all other requirements.
pub proof fn law_implementations_are_noted(
    methods: Chain<(DefId, DefId)>,
    requirement: DefId,
    method: DefId,
    other: DefId,
    of_other: DefId,
)
    ensures
        implements(method_put(methods, requirement, method), requirement, method),
        other != requirement ==> implements(
            method_put(methods, requirement, method),
            other,
            of_other,
        ) == implements(methods, other, of_other),
        is_implemented(method_put(methods, requirement, method), other) == (other == requirement
            || is_implemented(methods, other)),
    decreases methods,
{
    if methods is Link {
        law_implementations_are_noted(
            methods.without_last(),
            requirement,
            method,
            other,
            of_other,
        );
    }
}

/// Every method of a conformance implements the requirement of its own name,
/// and a method without one, or a second one for the same, is reported.
pub proof fn law_methods_implement_their_names(
    s: Survey,
    cx: &Sources,
    methods: Chain<DefId>,
    requirements: Chain<DefId>,
    requirement: DefId,
    method: DefId,
)
    ensures
        ({
            let (after, list, valid) = s.pair_methods(cx, methods, requirements);
            &&& implements(list, requirement, method) ==> methods.seq().contains(method)
                && match cx.program.name_of(method) {
                Some(name) => cx.program.member_named(requirements, name@) == Some(requirement),
                None => false,
            }
            &&& valid ==> errors(after) == errors(s)
            &&& !valid ==> errors(after) > errors(s)
            &&& errors(after) >= errors(s)
            &&& valid && methods.seq().contains(method) && cx.program.name_of(method) is Some
                ==> cx.program.member_named(requirements, cx.program.name_of(method)->0@) is Some
                && is_implemented(
                list,
                cx.program.member_named(requirements, cx.program.name_of(method)->0@)->0,
            )
            &&& after.st == s.st
        }),
    decreases methods,
{
    reveal_with_fuel(Survey::pair_methods, 2);
    reveal(Survey::error);
    reveal(Names::report);
    if methods is Link {
        let rest = methods.without_last();
        let last = methods->0.item;
        law_methods_implement_their_names(s, cx, rest, requirements, requirement, method);
        let (before, list, valid) = s.pair_methods(cx, rest, requirements);
        assert(methods.seq() == rest.seq().push(last));
        assert(methods.seq()[rest.seq().len() as int] == last);
        if rest.seq().contains(method) {
            let i = choose|i: int| 0 <= i < rest.seq().len() && rest.seq()[i] == method;
            assert(methods.seq()[i] == method);
        }
        match cx.program.name_of(last) {
            Some(name) => match cx.program.member_named(requirements, name@) {
                Some(found) => {
                    law_implementations_are_noted(list, found, last, requirement, method);
                    law_implementations_are_noted(list, found, last, found, method);
                    if cx.program.name_of(method) is Some && cx.program.member_named(
                        requirements,
                        cx.program.name_of(method)->0@,
                    ) is Some {
                        let other = cx.program.member_named(
                            requirements,
                            cx.program.name_of(method)->0@,
                        )->0;
                        law_implementations_are_noted(list, found, last, other, method);
                    }
                    lemma_put_only(list, found, last, found, method);
                },
                None => {},
            },
            None => {},
        }
    }
}

proof fn lemma_put_only(
    methods: Chain<(DefId, DefId)>,
    requirement: DefId,
    method: DefId,
    other: DefId,
    of_other: DefId,
)
    ensures
        implements(method_put(methods, requirement, method), other, of_other) ==> (other, of_other)
            == (requirement, method) || implements(methods, other, of_other),
    decreases methods,
{
    if methods is Link {
        lemma_put_only(methods.without_last(), requirement, method, other, of_other);
    }
}

/// A conformance enters the search for evidence only if its target has a head
/// that is allowed, every associated type of its concept is bound, and every
/// requirement is implemented by a method whose signature was accepted.
pub proof fn law_only_complete_conformances_count(
    s: Survey,
    cx: &Sources,
    definition: DefId,
    generic_params: Chain<GenericParamId>,
    target: TyId,
    concept: DefId,
    associated_types: Chain<DefId>,
    methods: Chain<DefId>,
    context: TypeContext,
)
    ensures
        ({
            let after = s.build_members(
                cx,
                definition,
                generic_params,
                target,
                concept,
                associated_types,
                methods,
                context,
            );
            after.st.impl_index != s.st.impl_index ==> match cx.program.kind_of(concept) {
                Some(
                    DefinitionKind::Concept { dyn_capable: _, associated_types: _, requirements },
                ) => {
                    &&& s.check_conformance_head(
                        cx,
                        definition,
                        generic_params,
                        target,
                        concept,
                    ).1
                    &&& match after.st.conformances.lookup(definition.0) {
                        Some(built) => {
                            &&& built.target == target
                            &&& built.concept.concept == concept
                            &&& built.concept.bindings == built.associated_types
                            &&& forall|i: int|
                                0 <= i < requirements.seq().len() ==> is_implemented(
                                    built.methods,
                                    #[trigger] requirements.seq()[i],
                                )
                            &&& forall|i: int|
                                0 <= i < built.methods.seq().len() ==> was_accepted(
                                    cx,
                                    #[trigger] built.methods.seq()[i],
                                    target,
                                    built.concept,
                                )
                        },
                        None => false,
                    }
                },
                _ => false,
            }
        }),
{
    reveal(Survey::build_members);
    reveal(Survey::set_conformance);
    reveal(Survey::set_index);
    match cx.program.kind_of(concept) {
        Some(
            DefinitionKind::Concept { dyn_capable: _, associated_types: declared, requirements },
        ) => {
            let (s1, head_valid) = s.check_conformance_head(
                cx,
                definition,
                generic_params,
                target,
                concept,
            );
            law_conformance_heads(s, cx, definition, generic_params, target, concept);
            let (s2, list, seen, bound_valid) = s1.bind_associated(
                cx,
                associated_types,
                declared,
                context,
            );
            lemma_binding_keeps_state(s1, cx, associated_types, declared, context);
            let (s3, all_bound) = s2.require_associated(cx, definition, declared, seen);
            law_every_associated_type_is_bound(s2, cx, definition, declared, seen);
            let (s4, paired, paired_valid) = s3.pair_methods(cx, methods, requirements);
            law_methods_implement_their_names(s3, cx, methods, requirements, concept, concept);
            let (s5, all_paired) = s4.require_methods(cx, definition, requirements, paired);
            law_every_requirement_is_implemented(s4, cx, definition, requirements, paired);
            let instance = ConceptInstance {
                concept,
                bindings: crate::resolve::bindings_sorted(list),
            };
            let (s6, all_match) = s5.check_methods(cx, paired, target, instance);
            law_every_signature_is_accepted(s5, cx, paired, target, instance);
            lemma_conditions_keep_state(s6, cx, generic_params, target, context);
        },
        _ => {},
    }
}

proof fn lemma_binding_keeps_state(
    s: Survey,
    cx: &Sources,
    members: Chain<DefId>,
    declared: Chain<DefId>,
    context: TypeContext,
)
    ensures
        s.bind_associated(cx, members, declared, context).0.st == s.st,
    decreases members,
{
    reveal_with_fuel(Survey::bind_associated, 2);
    reveal(Survey::error);
    if members is Link {
        lemma_binding_keeps_state(s, cx, members.without_last(), declared, context);
    }
}

proof fn lemma_conditions_keep_state(
    s: Survey,
    cx: &Sources,
    generic_params: Chain<GenericParamId>,
    target: TyId,
    context: TypeContext,
)
    ensures
        s.conformance_conditions(cx, generic_params, target, context).0.st == s.st,
    decreases generic_params,
{
    reveal_with_fuel(Survey::conformance_conditions, 2);
    if generic_params is Link {
        let last = generic_params->0.item;
        lemma_conditions_keep_state(s, cx, generic_params.without_last(), target, context);
        let before = s.conformance_conditions(
            cx,
            generic_params.without_last(),
            target,
            context,
        ).0;
        let (n, parameter_ty) = before.names.intern(TyData::Param(last));
        let next = before.with_names(n);
        match crate::hir::at(cx.program.generic_params@, last.0) {
            Some(source) => {
                lemma_own_conditions_keep_state(
                    next,
                    cx,
                    last,
                    parameter_ty,
                    source.bounds,
                    target,
                    context,
                );
            },
            None => {},
        }
    }
}

proof fn lemma_own_conditions_keep_state(
    s: Survey,
    cx: &Sources,
    parameter: GenericParamId,
    parameter_ty: TyId,
    bounds: Chain<crate::hir::ConceptRef>,
    target: TyId,
    context: TypeContext,
)
    ensures
        s.parameter_conditions(cx, parameter, parameter_ty, bounds, target, context).0.st == s.st,
    decreases bounds,
{
    reveal_with_fuel(Survey::parameter_conditions, 2);
    reveal(Survey::error);
    if bounds is Link {
        lemma_own_conditions_keep_state(
            s,
            cx,
            parameter,
            parameter_ty,
            bounds.without_last(),
            target,
            context,
        );
    }
}

} // verus!
