//! What a body is checked against, and what a requirement is for a concrete
//! type.

use vstd::prelude::*;

use crate::calls::{
    bindings_instantiated,
    bounds_instantiated,
    params_instantiated,
    signature_instantiated,
};
use crate::chain::Chain;
use crate::coerce::{first_evidence, Evidence};
use crate::conformance::Goal;
use crate::diagnostics::reported;
use crate::flow::{TaskObligationOwner, TaskObligationState};
use crate::growth::grows;
use crate::hir::{Body, BodyKind, ReceiverKind};
use crate::ids::{DefId, ParamId, TyId};
use crate::images::{
    becomes,
    by_instance,
    law_instantiation_replaces,
    lemma_becomes_later,
    lemma_instantiated,
};
use crate::matching::params_below;
use crate::ownership::is_owner;
use crate::resolve::{Sources, TypeContext};
use crate::semantics::{CallableSignature, Signature};
use crate::state::{ContractMode, Context, World};
use crate::survey::Survey;
use crate::tasks::unfinished;
use crate::ty::{
    bindings_below,
    builtin_ty,
    lemma_bindings_below_more,
    types_wf,
    AssociatedTypeBinding,
    BuiltinType,
    ConceptInstance,
    TyData,
};
use crate::unify::instantiated;

verus! {

/// The body of a function or method returns what its signature says, has the
/// receiver that it says, and is no contract. A contract is a truth value;
/// `result` is there, and `old` allowed, only in what is promised of an exit.
pub proof fn law_body_frames(s: Survey, cx: &Sources, source: Body, context: TypeContext)
    ensures
        ({
            let (after, frame) = s.body_frame(cx, source, context);
            let truth = builtin_ty(BuiltinType::Bool);
            let signature = s.signature_of(source.owner);
            match source.kind {
                BodyKind::Function | BodyKind::Method => {
                    &&& after == s
                    &&& frame.contract == ContractMode::Ordinary
                    &&& frame.result_ty is None
                    &&& frame.self_ty == context.self_ty
                    &&& frame.expected_root == frame.return_ty
                    &&& match signature {
                        Some(Signature::Callable(found)) => frame.return_ty == found.return_ty
                            && frame.receiver == found.receiver,
                        _ => frame.return_ty == builtin_ty(BuiltinType::Unit)
                            && frame.receiver is None,
                    }
                },
                BodyKind::Constant => {
                    &&& frame.contract == ContractMode::Ordinary
                    &&& frame.self_ty is None
                    &&& frame.result_ty is None
                    &&& match signature {
                        Some(Signature::Constant { ty }) => frame.expected_root == ty
                            && frame.return_ty == ty,
                        _ => true,
                    }
                },
                BodyKind::Requires => {
                    &&& frame.contract == (ContractMode::Predicate { old_allowed: false })
                    &&& frame.result_ty is None
                    &&& frame.expected_root == truth
                    &&& frame.self_ty == context.self_ty
                },
                BodyKind::Ensures => {
                    &&& frame.contract == (ContractMode::Predicate { old_allowed: true })
                    &&& frame.expected_root == truth
                    &&& frame.self_ty == context.self_ty
                    &&& match signature {
                        Some(Signature::Callable(found)) => frame.result_ty == Some(
                            found.return_ty,
                        ),
                        _ => frame.result_ty is None,
                    }
                },
                BodyKind::RefinementPredicate | BodyKind::RecordInvariant => {
                    &&& frame.contract == (ContractMode::Predicate { old_allowed: false })
                    &&& frame.expected_root == truth
                    &&& frame.result_ty is None
                    &&& frame.self_ty is Some
                    &&& frame.receiver == Some(ReceiverKind::ReadOnly)
                },
            }
        }),
{
    reveal(Survey::body_frame);
}

/// A body sees the parameters and the bounds of its owner's signature, and
/// waits only if its owner is async.
pub proof fn law_body_environments(s: Survey, cx: &Sources, source: Body)
    ensures
        ({
            let (after, environment) = s.body_environment(cx, source);
            &&& environment.owner == source.owner
            &&& match after.signature_of(source.owner) {
                Some(Signature::Callable(found)) => environment.params == found.params
                    && environment.bounds == found.bounds && environment.is_async
                    == found.is_async,
                _ => environment.params is Empty && environment.bounds is Empty
                    && !environment.is_async,
            }
        }),
{
    reveal(Survey::body_environment);
}

/// An async body must not end with a value that carries a task.
pub proof fn law_async_results(w: World, cx: &Context)
    ensures
        ({
            let after = w.reject_async_task_result(cx);
            let (asked, carries) = w.has_task_obligation(cx, cx.environment.return_ty);
            &&& !cx.environment.is_async ==> after == w
            &&& cx.environment.is_async && !carries ==> after == asked
            &&& cx.environment.is_async && carries ==> reported(
                asked.st.diagnostics,
                after.st.diagnostics,
                "TaskAsyncResultUnsupported",
                cx.source.span,
            )
        }),
{
    reveal(World::reject_async_task_result);
    reveal(World::report);
}

/// The owner is among those that are reported: a parameter or the receiver, or,
/// where locals count too, any.
pub open spec fn counts(owner: TaskObligationOwner, with_locals: bool) -> bool {
    with_locals || !(owner is Local)
}

proof fn lemma_reported_tasks(
    w: World,
    cx: &Context,
    owners: Chain<(TaskObligationOwner, TaskObligationState)>,
    with_locals: bool,
    owner: TaskObligationOwner,
)
    ensures
        ({
            let after = w.report_tasks(cx, owners, with_locals);
            &&& after.st.flow == w.st.flow
            &&& after.st.diagnostics.spec_len() >= w.st.diagnostics.spec_len()
            &&& is_owner(owners, owner) && counts(owner, with_locals) && unfinished(
                w.task_state(owner),
            ) ==> after.st.diagnostics.spec_len() > w.st.diagnostics.spec_len()
        }),
    decreases owners,
{
    reveal_with_fuel(World::report_tasks, 2);
    if owners is Link {
        let last = owners->0.item.0;
        lemma_reported_tasks(w, cx, owners.without_last(), with_locals, owner);
        let before = w.report_tasks(cx, owners.without_last(), with_locals);
        reveal(World::report_unconsumed_task_owner);
        reveal(World::report);
    }
}

proof fn lemma_nothing_reported(
    w: World,
    cx: &Context,
    owners: Chain<(TaskObligationOwner, TaskObligationState)>,
    with_locals: bool,
)
    requires
        forall|owner: TaskObligationOwner|
            counts(owner, with_locals) ==> !unfinished(#[trigger] w.task_state(owner)),
    ensures
        w.report_tasks(cx, owners, with_locals) == w,
    decreases owners,
{
    reveal_with_fuel(World::report_tasks, 2);
    if owners is Link {
        lemma_nothing_reported(w, cx, owners.without_last(), with_locals);
        let last = owners->0.item.0;
        assert(counts(last, with_locals) ==> !unfinished(w.task_state(last)));
    }
}

/// Where a body ends, a parameter or receiver whose task is not consumed on
/// every path is reported, and nothing is where there is none.
pub proof fn law_parameters_are_consumed(w: World, cx: &Context, owner: TaskObligationOwner)
    ensures
        ({
            let after = w.check_parameter_task_obligations(cx);
            &&& after.st.flow == w.st.flow
            &&& !(owner is Local) && unfinished(w.task_state(owner))
                ==> after.st.diagnostics.spec_len() > w.st.diagnostics.spec_len()
            &&& (forall|other: TaskObligationOwner|
                !(other is Local) ==> !unfinished(#[trigger] w.task_state(other))) ==> after == w
        }),
        ({
            let after = w.diagnose_task_obligations_at_possible_exit(cx);
            &&& after.st.flow == w.st.flow
            &&& unfinished(w.task_state(owner)) ==> after.st.diagnostics.spec_len()
                > w.st.diagnostics.spec_len()
            &&& (forall|other: TaskObligationOwner| !unfinished(#[trigger] w.task_state(other)))
                ==> after == w
        }),
{
    reveal(World::check_parameter_task_obligations);
    reveal(World::diagnose_task_obligations_at_possible_exit);
    let owners = w.st.flow.task_obligations;
    lemma_reported_tasks(w, cx, owners, false, owner);
    lemma_reported_tasks(w, cx, owners, true, owner);
    if forall|other: TaskObligationOwner|
        !(other is Local) ==> !unfinished(#[trigger] w.task_state(other)) {
        assert forall|other: TaskObligationOwner| counts(other, false) implies !unfinished(
            #[trigger] w.task_state(other),
        ) by {}
        lemma_nothing_reported(w, cx, owners, false);
    }
    if forall|other: TaskObligationOwner| !unfinished(#[trigger] w.task_state(other)) {
        lemma_nothing_reported(w, cx, owners, true);
    }
}

proof fn lemma_params_table(
    types: Seq<TyData>,
    params: Chain<(ParamId, TyId)>,
    self_ty: TyId,
    concept: ConceptInstance,
)
    requires
        types_wf(types),
    ensures
        types_wf(params_instantiated(types, params, self_ty, concept).0),
        grows(types, params_instantiated(types, params, self_ty, concept).0),
    decreases params,
{
    if params is Link {
        let last = params->0.item.1;
        lemma_params_table(types, params.without_last(), self_ty, concept);
        let between = params_instantiated(types, params.without_last(), self_ty, concept).0;
        lemma_instantiated(between, last, self_ty, concept, false);
    }
}

proof fn lemma_bindings_table(
    types: Seq<TyData>,
    bindings: Chain<AssociatedTypeBinding>,
    self_ty: TyId,
    concept: ConceptInstance,
)
    requires
        types_wf(types),
    ensures
        types_wf(bindings_instantiated(types, bindings, self_ty, concept).0),
        grows(types, bindings_instantiated(types, bindings, self_ty, concept).0),
    decreases bindings,
{
    if bindings is Link {
        let last = bindings->0.item.ty;
        lemma_bindings_table(types, bindings.without_last(), self_ty, concept);
        let between = bindings_instantiated(types, bindings.without_last(), self_ty, concept).0;
        lemma_instantiated(between, last, self_ty, concept, false);
    }
}

proof fn lemma_bounds_table(
    types: Seq<TyData>,
    bounds: Chain<Goal>,
    self_ty: TyId,
    concept: ConceptInstance,
)
    requires
        types_wf(types),
    ensures
        types_wf(bounds_instantiated(types, bounds, self_ty, concept).0),
        grows(types, bounds_instantiated(types, bounds, self_ty, concept).0),
    decreases bounds,
{
    if bounds is Link {
        let last = bounds->0.item;
        lemma_bounds_table(types, bounds.without_last(), self_ty, concept);
        let first = bounds_instantiated(types, bounds.without_last(), self_ty, concept).0;
        lemma_instantiated(first, last.self_ty, self_ty, concept, false);
        let second = instantiated(first, last.self_ty, self_ty, concept, false).0;
        lemma_bindings_table(second, last.concept.bindings, self_ty, concept);
    }
}

proof fn lemma_params_replaced(
    types: Seq<TyData>,
    params: Chain<(ParamId, TyId)>,
    self_ty: TyId,
    concept: ConceptInstance,
    more: Seq<TyData>,
)
    requires
        types_wf(types),
        types_wf(more),
        self_ty.0 < types.len(),
        bindings_below(concept.bindings, types.len() as int),
        params_below(params, types.len() as int),
        grows(params_instantiated(types, params, self_ty, concept).0, more),
        more.len() < u32::MAX,
    ensures
        ({
            let given = params_instantiated(types, params, self_ty, concept).1;
            &&& given.seq().len() == params.seq().len()
            &&& forall|i: int|
                0 <= i < params.seq().len() ==> given.seq()[i].0 == (#[trigger] params.seq()[i]).0
                    && becomes(
                    more,
                    params.seq()[i].1,
                    given.seq()[i].1,
                    by_instance(self_ty, concept, false),
                )
        }),
    decreases params,
{
    if params is Link {
        let rest = params.without_last();
        let last = params->0.item;
        let puts = by_instance(self_ty, concept, false);
        let (between, before) = params_instantiated(types, rest, self_ty, concept);
        lemma_params_table(types, rest, self_ty, concept);
        lemma_instantiated(between, last.1, self_ty, concept, false);
        let (after, ty) = instantiated(between, last.1, self_ty, concept, false);
        lemma_params_replaced(types, rest, self_ty, concept, more);
        lemma_bindings_below_more(concept.bindings, types.len() as int, between.len() as int);
        law_instantiation_replaces(between, last.1, self_ty, concept, false);
        lemma_becomes_later(after, more, last.1, ty, puts);
        let given = params_instantiated(types, params, self_ty, concept).1;
        assert(given == before.pushed((last.0, ty)));
        assert(given.seq() == before.seq().push((last.0, ty)));
        assert(params.seq() == rest.seq().push(last));
        assert forall|i: int| 0 <= i < params.seq().len() implies given.seq()[i].0
            == (#[trigger] params.seq()[i]).0 && becomes(
            more,
            params.seq()[i].1,
            given.seq()[i].1,
            puts,
        ) by {
            if i < rest.seq().len() {
                assert(rest.seq()[i] == params.seq()[i]);
            }
        }
    }
}

/// A requirement on a concrete type has the same receiver and parameters, and
/// every type of it is the declared one with the concrete type for `Self` and
/// what the instance binds for the associated types.
pub proof fn law_requirements_of_concrete_types(
    cx: &Context,
    types: Seq<TyData>,
    requirement: DefId,
    self_ty: TyId,
    concept: ConceptInstance,
    declared: CallableSignature,
)
    requires
        types_wf(types),
        cx.signature_of(requirement) == Some(Signature::Callable(declared)),
        self_ty.0 < types.len(),
        bindings_below(concept.bindings, types.len() as int),
        params_below(declared.params, types.len() as int),
        declared.return_ty.0 < types.len(),
        signature_instantiated(cx, types, requirement, self_ty, concept).0.len() < u32::MAX,
    ensures
        ({
            let (after, found) = signature_instantiated(cx, types, requirement, self_ty, concept);
            let puts = by_instance(self_ty, concept, false);
            match found {
                Some(signature) => {
                    &&& signature.is_async == declared.is_async
                    &&& signature.receiver == declared.receiver
                    &&& signature.generic_params == declared.generic_params
                    &&& signature.call_generic_params == declared.call_generic_params
                    &&& becomes(after, declared.return_ty, signature.return_ty, puts)
                    &&& signature.params.seq().len() == declared.params.seq().len()
                    &&& forall|i: int|
                        0 <= i < declared.params.seq().len() ==> signature.params.seq()[i].0 == (
                        #[trigger] declared.params.seq()[i]).0 && becomes(
                            after,
                            declared.params.seq()[i].1,
                            signature.params.seq()[i].1,
                            puts,
                        )
                },
                None => false,
            }
        }),
{
    let puts = by_instance(self_ty, concept, false);
    let (first, params) = params_instantiated(types, declared.params, self_ty, concept);
    lemma_params_table(types, declared.params, self_ty, concept);
    let (second, return_ty) = instantiated(first, declared.return_ty, self_ty, concept, false);
    lemma_instantiated(first, declared.return_ty, self_ty, concept, false);
    let third = bounds_instantiated(second, declared.bounds, self_ty, concept).0;
    lemma_bounds_table(second, declared.bounds, self_ty, concept);
    let after = bounds_instantiated(third, declared.call_bounds, self_ty, concept).0;
    lemma_bounds_table(third, declared.call_bounds, self_ty, concept);
    lemma_bindings_below_more(concept.bindings, types.len() as int, first.len() as int);
    law_instantiation_replaces(first, declared.return_ty, self_ty, concept, false);
    lemma_becomes_later(second, after, declared.return_ty, return_ty, puts);
    lemma_params_replaced(types, declared.params, self_ty, concept, after);
}

/// The evidence for a type and a concept is the first that is for both; there is
/// none only if nothing is.
pub proof fn law_first_evidence(evidence: Chain<Evidence>, target: TyId, concept: DefId)
    ensures
        match first_evidence(evidence, target, concept) {
            Some(bindings) => exists|i: int|
                0 <= i < evidence.seq().len() && (#[trigger] evidence.seq()[i]).target == target
                    && evidence.seq()[i].concept == concept && evidence.seq()[i].bindings
                    == bindings && forall|j: int|
                    0 <= j < i ==> (#[trigger] evidence.seq()[j]).target != target
                        || evidence.seq()[j].concept != concept,
            None => forall|i: int|
                0 <= i < evidence.seq().len() ==> (#[trigger] evidence.seq()[i]).target != target
                    || evidence.seq()[i].concept != concept,
        },
    decreases evidence,
{
    if evidence is Link {
        let rest = evidence.without_last();
        let last = evidence->0.item;
        let count = rest.seq().len() as int;
        law_first_evidence(rest, target, concept);
        assert(evidence.seq() == rest.seq().push(last));
        assert(evidence.seq()[count] == last);
        assert forall|i: int| 0 <= i < count implies rest.seq()[i] == #[trigger] evidence.seq()[i]
            by {}
        match first_evidence(rest, target, concept) {
            Some(bindings) => {
                let i = choose|i: int|
                    0 <= i < rest.seq().len() && (#[trigger] rest.seq()[i]).target == target
                        && rest.seq()[i].concept == concept && rest.seq()[i].bindings == bindings
                        && forall|j: int|
                        0 <= j < i ==> (#[trigger] rest.seq()[j]).target != target
                            || rest.seq()[j].concept != concept;
                assert(evidence.seq()[i] == rest.seq()[i]);
                assert forall|j: int| 0 <= j < i implies (#[trigger] evidence.seq()[j]).target
                    != target || evidence.seq()[j].concept != concept by {
                    assert(rest.seq()[j] == evidence.seq()[j]);
                }
            },
            None => {},
        }
    }
}

} // verus!
