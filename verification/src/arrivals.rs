//! What holds where values arrive: in parameters, in locals, and in the types
//! that evidence decides.

use vstd::prelude::*;

use crate::calls::Actual;
use crate::chain::Chain;
use crate::coerce::{evident_type, normalized, normalized_bindings, normalized_list, Evidence};
use crate::conformance::{Goal, WitnessSelection};
use crate::declare::shape_of;
use crate::diagnostics::reported;
use crate::flow::FlowState;
use crate::hir::{BodyKind, DefinitionKind, Expr, Path};
use crate::ids::{DefId, LocalId, Span, TyId, TypeRefId};
use crate::lookup::{is_the_dispose_method, prelude_type};
use crate::semantics::{CanonicalStdItems, Signature};
use crate::state::{Context, DeferredFlowEffect, DynamicCoercionMode, World};
use crate::statements::hidden_by;
use crate::substitution::Substitution;
use crate::ty::{
    all_below, bindings_below, parts_below, ty_data, types_wf, AssociatedTypeBinding, TyData,
};
use crate::unify::made;

verus! {

proof fn lemma_made_again(types: Seq<TyData>, ty: TyId)
    requires
        types_wf(types),
        ty.0 < types.len(),
    ensures
        made(types, types[ty.0 as int]) == (types, ty),
        parts_below(types[ty.0 as int], ty.0 as int),
{
    let data = types[ty.0 as int];
    assert(parts_below(data, ty.0 as int));
    crate::ty::lemma_parts_below_more(data, ty.0 as int, types.len() as int);
    assert(types.contains(data));
    let place = types.index_of(data);
    assert(0 <= place < types.len() && types[place] == data);
}

/// Without evidence a type stays what it is.
pub proof fn law_no_evidence_no_change(types: Seq<TyData>, ty: TyId, budget: u32)
    requires
        types_wf(types),
        ty.0 < types.len(),
    ensures
        normalized(types, ty, Chain::Empty, budget) == (types, ty),
    decreases budget, 0nat, 0nat,
{
    reveal_with_fuel(normalized, 2);
    if budget > 0 {
        let next = (budget - 1) as u32;
        lemma_made_again(types, ty);
        match types[ty.0 as int] {
            TyData::Projection { self_ty, concept, associated_type } => {
                law_no_evidence_no_change(types, self_ty, next);
            },
            TyData::Tuple(elements) => {
                lemma_no_evidence_list(types, elements, next, ty.0);
            },
            TyData::List(part) => {
                law_no_evidence_no_change(types, part, next);
            },
            TyData::TextMap(part) => {
                law_no_evidence_no_change(types, part, next);
            },
            TyData::Option(part) => {
                law_no_evidence_no_change(types, part, next);
            },
            TyData::Result { ok, error } => {
                law_no_evidence_no_change(types, ok, next);
                law_no_evidence_no_change(types, error, next);
            },
            TyData::Task(part) => {
                law_no_evidence_no_change(types, part, next);
            },
            TyData::TaskOutcome(part) => {
                law_no_evidence_no_change(types, part, next);
            },
            TyData::Nominal { definition, arguments } => {
                lemma_no_evidence_list(types, arguments, next, ty.0);
            },
            TyData::DynTarget(instance) => {
                lemma_no_evidence_bindings(types, instance.bindings, next, ty.0);
            },
            TyData::View { mutability, target } => {
                law_no_evidence_no_change(types, target, next);
            },
            _ => {},
        }
    }
}

proof fn lemma_no_evidence_list(types: Seq<TyData>, list: Chain<TyId>, budget: u32, limit: u32)
    requires
        types_wf(types),
        all_below(list, limit as int),
        limit <= types.len(),
    ensures
        normalized_list(types, list, Chain::Empty, budget) == (types, list),
    decreases budget, 1nat, list.spec_len(),
{
    reveal_with_fuel(normalized_list, 2);
    if list is Link {
        let rest = list.without_last();
        let last = list->0.item;
        lemma_no_evidence_list(types, rest, budget, limit);
        law_no_evidence_no_change(types, last, budget);
        assert(rest.pushed(last) == list);
    }
}

proof fn lemma_no_evidence_bindings(
    types: Seq<TyData>,
    list: Chain<AssociatedTypeBinding>,
    budget: u32,
    limit: u32,
)
    requires
        types_wf(types),
        bindings_below(list, limit as int),
        limit <= types.len(),
    ensures
        normalized_bindings(types, list, Chain::Empty, budget) == (types, list),
    decreases budget, 1nat, list.spec_len(),
{
    reveal_with_fuel(normalized_bindings, 2);
    if list is Link {
        let rest = list.without_last();
        let last = list->0.item;
        lemma_no_evidence_bindings(types, rest, budget, limit);
        law_no_evidence_no_change(types, last.ty, budget);
        assert(rest.pushed(last) == list);
    }
}

/// An associated type becomes what the evidence binds it to, wherever it stands
/// in a type.
pub proof fn law_evidence_decides(
    types: Seq<TyData>,
    ty: TyId,
    part: TyId,
    bound: TyId,
    evidence: Chain<Evidence>,
    budget: u32,
)
    requires
        types_wf(types),
        budget > 3,
        ty_data(types, bound) is Builtin,
        ty_data(types, part) matches TyData::Projection { self_ty, concept, associated_type }
            && ty_data(types, self_ty) is Builtin && evident_type(
            evidence,
            self_ty,
            concept,
            associated_type,
        ) == Some(bound),
    ensures
        normalized(types, part, evidence, budget) == (types, bound),
        ({
            let result = normalized(types, ty, evidence, budget);
            match ty_data(types, ty) {
                TyData::List(element) => element == part ==> result == made(
                    types,
                    TyData::List(bound),
                ),
                TyData::TextMap(element) => element == part ==> result == made(
                    types,
                    TyData::TextMap(bound),
                ),
                TyData::Option(element) => element == part ==> result == made(
                    types,
                    TyData::Option(bound),
                ),
                TyData::Task(element) => element == part ==> result == made(
                    types,
                    TyData::Task(bound),
                ),
                TyData::TaskOutcome(element) => element == part ==> result == made(
                    types,
                    TyData::TaskOutcome(bound),
                ),
                TyData::View { mutability, target } => target == part ==> result == made(
                    types,
                    TyData::View { mutability, target: bound },
                ),
                TyData::Result { ok, error } => ok == part && error == part ==> result == made(
                    types,
                    TyData::Result { ok: bound, error: bound },
                ),
                TyData::Tuple(elements) => elements == Chain::Empty.pushed(part) ==> result
                    == made(types, TyData::Tuple(Chain::Empty.pushed(bound))),
                TyData::Nominal { definition, arguments } => arguments == Chain::Empty.pushed(part)
                    ==> result == made(
                    types,
                    TyData::Nominal { definition, arguments: Chain::Empty.pushed(bound) },
                ),
                _ => true,
            }
        }),
{
    reveal_with_fuel(normalized, 4);
    reveal_with_fuel(normalized_list, 3);
    lemma_evident(types, part, bound, evidence, budget);
    lemma_evident(types, part, bound, evidence, (budget - 1) as u32);
}

proof fn lemma_evident(
    types: Seq<TyData>,
    part: TyId,
    bound: TyId,
    evidence: Chain<Evidence>,
    budget: u32,
)
    requires
        budget > 2,
        ty_data(types, bound) is Builtin,
        ty_data(types, part) matches TyData::Projection { self_ty, concept, associated_type }
            && ty_data(types, self_ty) is Builtin && evident_type(
            evidence,
            self_ty,
            concept,
            associated_type,
        ) == Some(bound),
    ensures
        normalized(types, part, evidence, budget) == (types, bound),
{
    reveal_with_fuel(normalized, 3);
}

/// The witness of a bound is evidence for the type that the bound is about,
/// after substitution, and for its concept. A bound without a witness gives
/// none.
pub proof fn law_evidence_of_bounds(
    w: World,
    bounds: Chain<Goal>,
    bound: Goal,
    substitution: Substitution,
    witnesses: Chain<WitnessSelection>,
    witness: WitnessSelection,
)
    requires
        bounds.spec_len() == witnesses.spec_len(),
    ensures
        ({
            let (before, evidence) = w.evidence_for(bounds, substitution, witnesses);
            let (after, more) = w.evidence_for(
                bounds.pushed(bound),
                substitution,
                witnesses.pushed(witness),
            );
            let (put, target) = before.substitute(bound.self_ty, substitution);
            &&& after == put
            &&& more == evidence.pushed(
                (Evidence {
                    target,
                    concept: bound.concept.concept,
                    bindings: witness.associated_types,
                }),
            )
        }),
        w.evidence_for(bounds.pushed(bound), substitution, witnesses) == w.evidence_for(
            bounds,
            substitution,
            witnesses,
        ),
        w.evidence_for(Chain::Empty, substitution, witnesses) == (w, Chain::<Evidence>::Empty),
{
    reveal_with_fuel(World::evidence_for, 2);
    reveal_with_fuel(Chain::<_>::spec_len, 2);
}

/// Closing a resource by hand is always reported, at the receiver: for a scoped
/// one because that is done already, for another because it must be scoped.
pub proof fn law_nothing_is_closed_by_hand(
    w: World,
    e: Expr,
    receiver: Expr,
    type_arguments: Chain<TypeRefId>,
    arguments: Chain<Expr>,
)
    ensures
        ({
            let after = w.reject_close(e, receiver, type_arguments, arguments);
            match after.st.diagnostics {
                Chain::Link(link) => link.item.primary == receiver.span && link.item.code@ == (
                if w.is_scoped_receiver(receiver.id) {
                    "ManualDisposeOfScopedValue"@
                } else {
                    "MustScopeRequiresScoped"@
                }),
                Chain::Empty => false,
            }
        }),
        type_arguments is Empty && arguments is Empty ==> reported(
            w.st.diagnostics,
            w.reject_close(e, receiver, type_arguments, arguments).st.diagnostics,
            if w.is_scoped_receiver(receiver.id) {
                "ManualDisposeOfScopedValue"
            } else {
                "MustScopeRequiresScoped"
            },
            receiver.span,
        ),
{
    reveal(World::reject_close);
    reveal(World::reject_type_arguments);
    reveal(World::check_arity::<(), Expr>);
    reveal(World::report);
    reveal_with_fuel(World::finish_call_arguments, 2);
    reveal_with_fuel(Chain::<_>::spec_len, 2);
}

/// The names of the standard types that every module can use.
pub proof fn law_prelude_types(items: CanonicalStdItems, path: Path)
    ensures
        ({
            let found = prelude_type(items, path);
            match path.single() {
                None => found is None,
                Some(segment) => {
                    let name = segment.name@;
                    &&& name == "File"@ ==> found == items.file
                    &&& name == "IoError"@ ==> found == items.io_error
                    &&& name == "IoErrorKind"@ ==> found == items.io_error_kind
                    &&& name == "Json"@ ==> found == items.json
                    &&& name == "JsonError"@ ==> found == items.json_error
                    &&& name == "Socket"@ ==> found == items.socket
                    &&& name != "File"@ && name != "IoError"@ && name != "IoErrorKind"@ && name
                        != "Json"@ && name != "JsonError"@ && name != "Socket"@ ==> found is None
                },
            }
        }),
{
    reveal_strlit("File");
    reveal_strlit("IoError");
    reveal_strlit("IoErrorKind");
    reveal_strlit("Json");
    reveal_strlit("JsonError");
    reveal_strlit("Socket");
    assert("File"@.len() == 4 && "Json"@.len() == 4 && "File"@[0] == 'F' && "Json"@[0] == 'J');
    assert("IoError"@.len() == 7 && "IoErrorKind"@.len() == 11);
    assert("JsonError"@.len() == 9 && "Socket"@.len() == 6);
}

/// What a declaration is settled by its kind: types with their own parameters,
/// concepts and implementations. What has types in it comes later.
pub proof fn law_settled_signatures(kind: DefinitionKind)
    ensures
        match kind {
            DefinitionKind::Record { generic_params, fields: _, invariant_body: _ } => shape_of(
                kind,
            ) == Some(Signature::Type { generic_params }),
            DefinitionKind::Enum { generic_params, variants: _ } => shape_of(kind) == Some(
                Signature::Type { generic_params },
            ),
            DefinitionKind::RefinedType { base: _, predicate: _ } => shape_of(kind) == Some(
                Signature::Type { generic_params: Chain::Empty },
            ),
            _ => if kind is Concept {
                shape_of(kind) == Some(Signature::Concept)
            } else if kind is InherentImpl || kind is Conformance {
                shape_of(kind) == Some(Signature::Impl)
            } else {
                shape_of(kind) is None
            },
        },
{
}

/// The cleanup of a standard type is the method that its conformance to the
/// cleanup concept, in the type's own module, has for the cleanup.
pub proof fn law_cleanup_methods(
    cx: &Context,
    types: Seq<TyData>,
    target: DefId,
    container: DefId,
)
    requires
        cx.program.kind_of(cx.environment.owner) matches Some(
            DefinitionKind::Method { owner, signature },
        ) && owner == container,
    ensures
        is_the_dispose_method(cx, types, Some(target)) ==> {
            &&& cx.program.module_of(cx.environment.owner) == cx.program.module_of(target)
            &&& cx.conformances.lookup(container.0) matches Some(conformance)
            &&& Some(conformance.concept.concept) == cx.canonical_concepts.dispose
            &&& ty_data(types, conformance.target) == (TyData::Nominal {
                definition: target,
                arguments: Chain::Empty,
            })
        },
        !is_the_dispose_method(cx, types, None),
        cx.canonical_concepts.dispose is None ==> !is_the_dispose_method(cx, types, Some(target)),
{
}

/// A second local of a name in one scope is reported where it is declared.
pub proof fn law_second_locals(w: World, cx: &Context, local: LocalId)
    ensures
        ({
            let after = w.declare_once(cx, local);
            let declared = w.declare(cx, local);
            let again = hidden_by(cx, w.st.scopes, local) is Some && cx.local_of(local) is Some;
            &&& again ==> reported(
                declared.st.diagnostics,
                after.st.diagnostics,
                "DuplicateDeclaration",
                cx.local_span_of(local),
            )
            &&& !again ==> after == declared
            &&& after.st.scopes == declared.st.scopes
        }),
{
    reveal(World::declare_once);
    reveal(World::report);
}

/// An exit contract may not look at what could hold a task.
pub proof fn law_exit_contract_inputs(w: World, cx: &Context, span: Span, ty: TyId)
    ensures
        ({
            let after = w.reject_task_exit_contract_input(cx, span, ty);
            let (asked, may) = w.may_have_task_obligation(cx, ty);
            &&& cx.source.kind != BodyKind::Ensures ==> after == w
            &&& cx.source.kind == BodyKind::Ensures && !may ==> after == asked
            &&& cx.source.kind == BodyKind::Ensures && may ==> reported(
                asked.st.diagnostics,
                after.st.diagnostics,
                "TaskExitContractInputUnsupported",
                span,
            )
        }),
{
    reveal(World::reject_task_exit_contract_input);
    reveal(World::report);
}

/// The cleanups that a jump leaves behind run: nothing proved is kept, and
/// `self` is changed behind them if it was or one of them changes it. Without
/// any the flow is as it was.
pub proof fn law_left_cleanups(w: World, state: FlowState, base: Chain<DeferredFlowEffect>)
    ensures
        ({
            let (after, left) = w.apply_defer_effects(state, base);
            let effects = w.st.active_defer_effects;
            &&& effects.spec_len() <= base.spec_len() ==> after == w && left == state
            &&& effects.spec_len() > base.spec_len() ==> left.self_dirty == (state.self_dirty
                || crate::passages::changes_self(effects, base)) && left.proof_facts.facts is Empty
                && left.task_obligations == state.task_obligations && left.borrows == state.borrows
        }),
{
    reveal(World::apply_defer_effects);
    crate::passages::law_cleanups_run(w, w.st.active_defer_effects, base, state.self_dirty);
}

/// What is passed keeps the way in which interfaces are made of values, and
/// what it has to be is the declared type after substitution.
pub proof fn law_passed_arguments(
    w: World,
    cx: &Context,
    is_async: bool,
    argument: Expr,
    types: Actual,
    substitution: Substitution,
)
    ensures
        ({
            let after = w.pass_argument(cx, is_async, argument, types, substitution);
            let (put, expected) = w.substitute(types.declared, substitution);
            let (asked, must) = put.has_must_scope_obligation(cx, expected);
            exists|told: World|
                {
                    let handed = #[trigger] told.pass_argument_tasks(cx, is_async, argument, types);
                    let mode = if !is_async && handed.is_view(expected) {
                        DynamicCoercionMode::CallBorrow
                    } else {
                        handed.st.dynamic_coercion_mode
                    };
                    &&& must ==> reported(
                        asked.st.diagnostics,
                        told.st.diagnostics,
                        "MustScopeArgumentNotAllowed",
                        argument.span,
                    )
                    &&& !must ==> told == asked
                    &&& after == handed.with_mode(mode).coerce(
                        cx,
                        argument,
                        types.actual,
                        expected,
                    ).0.with_mode(handed.st.dynamic_coercion_mode)
                }
        }),
{
    reveal(World::pass_argument);
    reveal(World::with_mode);
    reveal(World::report);
    let (put, expected) = w.substitute(types.declared, substitution);
    let (asked, must) = put.has_must_scope_obligation(cx, expected);
    let told = if must {
        asked.text_error(
            "MustScopeArgumentNotAllowed",
            "a value containing a MustScope resource cannot be passed as an ordinary argument",
            argument.span,
        )
    } else {
        asked
    };
    let handed = told.pass_argument_tasks(cx, is_async, argument, types);
    assert(handed.with_mode(handed.st.dynamic_coercion_mode) == handed);
}

} // verus!
