//! What holds where control passes from one part of a body to the next.

use vstd::prelude::*;

use crate::borrows::{crossed_invariant, is_self_place};
use crate::calls::takes_mutable;
use crate::chain::Chain;
use crate::diagnostics::reported;
use crate::flow::{joined, joined_pair, BorrowIdentity, FlowState};
use crate::hir::{Expr, RecordFieldValue};
use crate::ids::{DefId, ExprId, LocalId, Span, TyId};
use crate::judgements::may_stand;
use crate::methods::DotCall;
use crate::operators::Arms;
use crate::records::{declares_field, value_named};
use crate::semantics::{CallTarget, Place};
use crate::state::{Context, DeferredFlowEffect, InvariantMutation, World};
use crate::statements::exits_of;
use crate::steps::unit_ty;
use crate::table::{has_id, law_remove_id};
use crate::ty::{error_ty, never_ty, BuiltinType, ConceptInstance, Mutability, TyData};
use crate::typing::law_builtin_types;

verus! {

/// Behind an `if` without `else` holds what holds on both ways: what held
/// before it, and what holds behind its branch, where that comes to an end. As
/// a value it needs an `else`, and its branch is of no value.
pub proof fn law_one_sided_branches(
    w: World,
    cx: &Context,
    then_branch: Expr,
    then_ty: TyId,
    entry: FlowState,
    required: bool,
)
    requires
        w.wf(),
    ensures
        ({
            let after = w.end_if(cx, then_branch, then_ty, entry, required);
            let diverges = w.expression_diverges(then_branch.id);
            let fits = may_stand(w, cx, then_ty, unit_ty());
            &&& diverges ==> after.st.flow == entry
            &&& !diverges ==> after.st.flow == joined_pair(entry, w.st.flow)
            &&& !required && fits ==> after.st.diagnostics == w.st.diagnostics
            &&& required && fits ==> reported(
                w.st.diagnostics,
                after.st.diagnostics,
                "MissingElse",
                then_branch.span,
            )
            &&& !required && !fits ==> reported(
                w.st.diagnostics,
                after.st.diagnostics,
                "TypeMismatch",
                then_branch.span,
            )
        }),
{
    reveal(World::end_if);
    reveal(World::restored);
    reveal(World::report);
    let back = if w.expression_diverges(then_branch.id) {
        w.restored(entry)
    } else {
        w.restored(joined_pair(entry, w.st.flow))
    };
    let told = back.text_error("MissingElse", "if expression requires else", then_branch.span);
    law_builtin_types(w, BuiltinType::Unit);
    crate::judgements::law_coercion(back, cx, then_branch, then_ty, unit_ty());
    crate::judgements::law_coercion(told, cx, then_branch, then_ty, unit_ty());
}

/// Behind a match holds what holds behind all of its arms that come to an end;
/// its type is the common type of those, and a match whose arms all end nowhere
/// does not go on.
pub proof fn law_matches_end(
    w: World,
    cx: &Context,
    scrutinee: Expr,
    scrutinee_ty: TyId,
    entry: FlowState,
    arms: Arms,
    has_arms: bool,
)
    ensures
        ({
            let (after, ty) = w.end_match(cx, scrutinee, scrutinee_ty, entry, arms, has_arms);
            &&& has_arms && !arms.reachable ==> ty == never_ty()
            &&& has_arms && arms.reachable ==> ty == match arms.result {
                Some(found) => found,
                None => error_ty(),
            }
            &&& after == (if arms.exits is Empty {
                w.restored(entry)
            } else {
                w.restored(joined(arms.exits))
            }).check_exhaustive(cx, scrutinee_ty, arms.rows, scrutinee.span)
        }),
{
    reveal(World::end_match);
}

/// An arm that can be reached and comes to an end is one of the ways out of the
/// match; any other is none.
pub proof fn law_arms_end(
    w: World,
    cx: &Context,
    value: Expr,
    span: Span,
    arm_ty: TyId,
    useful: bool,
    arms: Arms,
)
    ensures
        ({
            let (after, now) = w.end_arm(cx, value, span, arm_ty, useful, arms);
            &&& !useful ==> now == arms
            &&& now.exits == arms.exits || now.exits == arms.exits.pushed(after.st.flow)
                && now.reachable && useful
            &&& now.rows == arms.rows
            &&& arms.reachable ==> now.reachable
        }),
{
    reveal(World::end_arm);
    reveal(World::join_types);
    reveal(World::report);
}

/// How many of the locals hold a resource that nothing took over.
pub open spec fn left_over(w: World, locals: Chain<LocalId>) -> bool
    decreases locals,
{
    match locals {
        Chain::Empty => false,
        Chain::Link(link) => left_over(w, link.rest) || has_id(
            w.st.flow.pending_must_scope_locals,
            link.item.0,
        ),
    }
}

/// Where an arm ends, a resource that its pattern took out and nothing took
/// over is reported; where there is none nothing is.
pub proof fn law_arms_keep_no_resource(
    w: World,
    cx: &Context,
    locals: Chain<LocalId>,
    local: LocalId,
)
    ensures
        ({
            let after = w.end_arm_locals(cx, locals);
            &&& !left_over(w, locals) ==> after == w
            &&& left_over(w, locals) ==> after.st.diagnostics.spec_len()
                > w.st.diagnostics.spec_len()
            &&& after.st.diagnostics.spec_len() >= w.st.diagnostics.spec_len()
            &&& crate::ownership::has_local(locals, local) ==> !has_id(
                after.st.flow.pending_must_scope_locals,
                local.0,
            )
            &&& has_id(after.st.flow.pending_must_scope_locals, local.0) ==> has_id(
                w.st.flow.pending_must_scope_locals,
                local.0,
            )
        }),
    decreases locals,
{
    reveal_with_fuel(World::end_arm_locals, 2);
    reveal(World::drop_pending);
    reveal(World::report);
    if locals is Link {
        let rest = locals.without_last();
        let last = locals->0.item;
        law_arms_keep_no_resource(w, cx, rest, local);
        law_arms_keep_no_resource(w, cx, rest, last);
        let before = w.end_arm_locals(cx, rest);
        law_remove_id(before.st.flow.pending_must_scope_locals, last.0, local.0);
        law_remove_id(before.st.flow.pending_must_scope_locals, last.0, last.0);
    }
}

/// Behind a loop holds what holds on every way out: where its condition fails
/// and at every `break`. Nothing that was proved is kept.
pub proof fn law_loops_end(w: World, header: FlowState, exit: FlowState, body: Expr)
    requires
        w.st.loop_flows is Link,
    ensures
        ({
            let after = w.end_loop(header, exit, body);
            let target = w.st.loop_flows->0.item;
            &&& after.st.loop_flows == w.st.loop_flows.without_last()
            &&& after.st.flow == joined(exits_of(exit, target.breaks)).without_proofs()
        }),
{
    reveal(World::end_loop);
    reveal(World::set_loops);
    reveal(World::restored);
    reveal(World::forget_proofs);
    reveal(World::check_loop_backedge_state);
    reveal(World::report);
    let target = w.st.loop_flows->0.item;
    let inside = w.set_loops(w.st.loop_flows.without_last());
    let looped = if !w.expression_diverges(body.id) {
        inside.check_loop_backedge_state(header, w.st.flow, body.span)
    } else {
        inside
    };
    lemma_backedges_keep(looped, header, target.continues, body.span);
}

proof fn lemma_backedges_keep(
    w: World,
    header: FlowState,
    backedges: Chain<FlowState>,
    span: Span,
)
    ensures
        w.check_backedges(header, backedges, span).st.loop_flows == w.st.loop_flows,
    decreases backedges,
{
    reveal_with_fuel(World::check_backedges, 2);
    reveal(World::check_loop_backedge_state);
    reveal(World::report);
    if backedges is Link {
        lemma_backedges_keep(w, header, backedges.without_last(), span);
    }
}

/// The ways out of a loop are its own end and its breaks.
pub proof fn law_ways_out(exit: FlowState, breaks: Chain<FlowState>, last: FlowState)
    ensures
        exits_of(exit, Chain::Empty).seq() == seq![exit],
        exits_of(exit, breaks.pushed(last)) == exits_of(exit, breaks).pushed(last),
{
    reveal_with_fuel(exits_of, 2);
    reveal_with_fuel(Chain::<_>::seq, 3);
    assert(exits_of(exit, Chain::Empty).seq() =~= seq![exit]);
}

/// What a cleanup does is kept for the end of its scope: whether it changes
/// `self`, and where it uses `self`. The flow goes on as if it had not been
/// checked.
pub proof fn law_cleanups_are_kept(
    w: World,
    flow: FlowState,
    effects: Chain<DeferredFlowEffect>,
    boundaries: Chain<crate::state::Boundary>,
)
    ensures
        ({
            let after = w.end_defer(flow, effects, boundaries);
            &&& after.st.flow == flow
            &&& after.st.active_defer_effects == effects.pushed(
                DeferredFlowEffect {
                    makes_self_dirty: w.st.flow.self_dirty,
                    self_boundaries: w.st.current_defer_self_boundaries,
                },
            )
            &&& after.st.current_defer_self_boundaries == boundaries
            &&& w.st.cleanup_depth > 0 ==> after.st.cleanup_depth == w.st.cleanup_depth - 1
            &&& after.st.diagnostics == w.st.diagnostics
        }),
{
    reveal(World::end_defer);
    reveal(World::set_cleanup_depth);
    reveal(World::set_boundaries);
    reveal(World::restored);
    reveal(World::set_effects);
}

/// A cleanup is checked as something that runs later: nothing is known, `self`
/// is as it should be, and a cleanup within a cleanup is reported.
pub proof fn law_cleanups_begin(w: World, body: Expr)
    ensures
        ({
            let after = w.begin_defer(body);
            &&& !after.st.flow.self_dirty
            &&& after.st.flow.proof_facts.facts is Empty
            &&& after.st.current_defer_self_boundaries is Empty
            &&& w.st.cleanup_depth < u32::MAX ==> after.st.cleanup_depth == w.st.cleanup_depth + 1
            &&& w.st.cleanup_depth == 0 ==> after.st.diagnostics == w.st.diagnostics
            &&& w.st.cleanup_depth > 0 ==> reported(
                w.st.diagnostics,
                after.st.diagnostics,
                "CleanupRegistrationInCleanup",
                body.span,
            )
        }),
{
    reveal(World::begin_defer);
    reveal(World::set_cleanup_depth);
    reveal(World::set_boundaries);
    reveal(World::forget_proofs);
    reveal(World::set_dirty);
    reveal(World::report);
}

/// A write through a place is accepted unless it goes through another's
/// invariant; it leaves `self` changed if it goes through `self`'s own.
pub proof fn law_invariant_writes(
    w: World,
    cx: &Context,
    span: Span,
    place: Place,
    mutation: InvariantMutation,
)
    ensures
        ({
            let (after, dirties) = w.check_invariant_mutation_boundary(cx, span, place, mutation);
            match crossed_invariant(cx, place.projections, w.self_definition(cx, place.root)) {
                Some(crosses) => after == w && dirties == (crosses && place.mutability
                    == Mutability::Mutable),
                None => !dirties && reported(
                    w.st.diagnostics,
                    after.st.diagnostics,
                    "InvariantInteriorMutation",
                    span,
                ),
            }
        }),
{
    reveal(World::check_invariant_mutation_boundary);
    reveal(World::report);
}

/// The receiver of a call that changes it is borrowed while the arguments are
/// checked, unless another borrow is in the way; without a place, or where the
/// call changes nothing, it is not.
pub proof fn law_receivers_are_borrowed(
    w: World,
    cx: &Context,
    receiver: ExprId,
    span: Span,
    enabled: bool,
)
    ensures
        ({
            let (after, scope) = w.begin_inout(cx, receiver, span, enabled);
            &&& scope.dirty_before_arguments == w.st.flow.self_dirty
            &&& scope.receiver_uses_self == is_self_place(w.place_of(receiver))
            &&& !enabled || w.place_of(receiver) is None ==> after == w && scope.scope is None
                && !scope.dirties_self
            &&& match scope.scope {
                Some(id) => match after.st.flow.borrows {
                    Chain::Link(link) => link.rest == w.st.flow.borrows && link.item.identity
                        == BorrowIdentity::InOut(id) && Some(link.item.owner) == w.place_of(
                        receiver,
                    ),
                    Chain::Empty => false,
                },
                None => after.st.flow.borrows == w.st.flow.borrows,
            }
            &&& after.st.flow.task_obligations == w.st.flow.task_obligations
        }),
{
    reveal(World::begin_inout);
    reveal(World::check_invariant_mutation_boundary);
    reveal(World::register_borrow);
    reveal(World::push_borrow_conflict);
    reveal(World::report);
}

/// A receiver with a task in it goes to a method that does not wait and says
/// that it takes tasks, and to no other.
pub proof fn law_receivers_with_tasks(
    w: World,
    cx: &Context,
    receiver: Expr,
    receiver_ty: TyId,
    declared: bool,
    is_async: bool,
)
    ensures
        ({
            let (asked, carries) = w.has_task_obligation(cx, receiver_ty);
            let after = w.transfer_task_receiver(cx, receiver, receiver_ty, declared, is_async);
            &&& !carries ==> after == asked
            &&& carries && !is_async && declared ==> after == asked.consume_task_obligation(
                cx,
                receiver,
            )
            &&& carries && is_async ==> exists|told: World|
                reported(
                    asked.st.diagnostics,
                    told.st.diagnostics,
                    "TaskAsyncTransferUnsupported",
                    receiver.span,
                ) && after == #[trigger] told.consume_task_obligation(cx, receiver)
            &&& carries && !is_async && !declared ==> exists|told: World|
                reported(
                    asked.st.diagnostics,
                    told.st.diagnostics,
                    "TaskGenericTransferUnsupported",
                    receiver.span,
                ) && after == #[trigger] told.consume_task_obligation(cx, receiver)
        }),
{
    reveal(World::transfer_task_receiver);
    reveal(World::report);
    let (asked, carries) = w.has_task_obligation(cx, receiver_ty);
    let after = w.transfer_task_receiver(cx, receiver, receiver_ty, declared, is_async);
    let waiting = asked.text_error(
        "TaskAsyncTransferUnsupported",
        "a Task-carrying receiver cannot cross an async call boundary before runtime reparenting is available",
        receiver.span,
    );
    let open = asked.text_error(
        "TaskGenericTransferUnsupported",
        "a Task-carrying receiver cannot pass through a generic or concept receiver that does not explicitly declare the obligation",
        receiver.span,
    );
    if carries && is_async {
        assert(after == waiting.consume_task_obligation(cx, receiver));
    } else if carries && !declared {
        assert(after == open.consume_task_obligation(cx, receiver));
    }
}

/// A method on an interface is the requirement of that name of its concept. One
/// that changes its receiver needs an interface that can be changed.
pub proof fn law_interface_calls(
    w: World,
    cx: &Context,
    receiver: Expr,
    receiver_ty: TyId,
    mutability: Mutability,
    target: TyId,
    name: Seq<char>,
    instance: ConceptInstance,
)
    requires
        w.data(target) == TyData::DynTarget(instance),
    ensures
        ({
            let (after, dot) = w.view_call(cx, receiver, receiver_ty, mutability, target, name);
            match cx.program.requirement_named(instance.concept, name) {
                None => after == w && dot is Pass,
                Some(requirement) => match dot {
                    DotCall::Found(plan) => {
                        &&& plan.target == (CallTarget::DynamicConcept { requirement })
                        &&& plan.witness is None
                        &&& takes_mutable(plan.signature) && mutability != Mutability::Mutable
                            ==> after.st.diagnostics.spec_len() > w.st.diagnostics.spec_len()
                        &&& !takes_mutable(plan.signature) ==> after.st.diagnostics
                            == w.st.diagnostics
                    },
                    DotCall::Pass => after.st == w.st,
                    DotCall::Failed => false,
                },
            }
        }),
{
    reveal(World::view_call);
    reveal(World::report);
    reveal_with_fuel(Chain::<_>::spec_len, 3);
}

/// A value that is added to a list must not have to be scoped, and its task is
/// consumed by it.
pub proof fn law_added_values(w: World, cx: &Context, argument: Expr, element: TyId)
    ensures
        ({
            let (asked, must) = w.has_must_scope_obligation(cx, element);
            let after = w.end_add_argument(cx, argument, element);
            let told = if must {
                asked.text_error(
                    "MustScopeArgumentNotAllowed",
                    "a value containing a MustScope resource cannot be stored in a List",
                    argument.span,
                )
            } else {
                asked
            };
            let (again, task) = told.has_task_obligation(cx, element);
            &&& task ==> after == again.consume_task_obligation(cx, argument)
            &&& !task ==> after == again
        }),
        ({
            let (asked, must) = w.has_must_scope_obligation(cx, element);
            let after = w.end_fixed_argument(cx, argument, element);
            &&& must ==> reported(
                asked.st.diagnostics,
                after.st.diagnostics,
                "MustScopeArgumentNotAllowed",
                argument.span,
            )
            &&& !must ==> after == asked
        }),
{
    reveal(World::end_add_argument);
    reveal(World::end_fixed_argument);
    reveal(World::report);
}

/// A field that is written twice is reported the second time.
pub proof fn law_repeated_fields(
    w: World,
    values: Chain<RecordFieldValue>,
    last: RecordFieldValue,
)
    ensures
        ({
            let before = w.report_repeated(values);
            let after = w.report_repeated(values.pushed(last));
            let again = value_named(values, last.name@) is Some;
            &&& again ==> reported(
                before.st.diagnostics,
                after.st.diagnostics,
                "DuplicateField",
                last.span,
            )
            &&& !again ==> after == before
        }),
        w.report_repeated(Chain::Empty) == w,
{
    reveal_with_fuel(World::report_repeated, 2);
    reveal(World::report);
}

/// A field that the record does not declare is reported, and one that it
/// declares is not.
pub proof fn law_undeclared_fields(
    w: World,
    cx: &Context,
    declared: Chain<DefId>,
    values: Chain<RecordFieldValue>,
    last: RecordFieldValue,
    all: Chain<RecordFieldValue>,
)
    requires
        value_named(all, last.name@) == Some(last),
    ensures
        ({
            let before = w.report_unknown(cx, declared, values, all);
            let after = w.report_unknown(cx, declared, values.pushed(last), all);
            let known = declares_field(cx.program, declared, last.name@);
            &&& !known ==> reported(
                before.st.diagnostics,
                after.st.diagnostics,
                "UnknownField",
                last.span,
            )
            &&& known ==> after == before
        }),
        w.report_unknown(cx, declared, Chain::Empty, all) == w,
{
    reveal_with_fuel(World::report_unknown, 2);
    reveal(World::report);
}

/// The cleanups of a scope run from the last to the first; one that uses `self`
/// behind one that changed it is reported, and `self` is changed behind them if
/// it was before or one of them changes it.
pub proof fn law_cleanups_run(
    w: World,
    effects: Chain<DeferredFlowEffect>,
    base: Chain<DeferredFlowEffect>,
    self_dirty: bool,
)
    ensures
        ({
            let (after, dirty) = w.run_effects(effects, base, self_dirty);
            &&& self_dirty ==> dirty
            &&& dirty && !self_dirty ==> changes_self(effects, base)
            &&& changes_self(effects, base) ==> dirty
            &&& after.st.flow == w.st.flow
        }),
    decreases effects,
{
    reveal_with_fuel(World::run_effects, 2);
    if effects is Link && effects.spec_len() > base.spec_len() {
        let last = effects->0.item;
        let told = if self_dirty {
            w.report_boundaries(last.self_boundaries)
        } else {
            w
        };
        lemma_boundaries_keep(w, last.self_boundaries);
        law_cleanups_run(
            told,
            effects.without_last(),
            base,
            self_dirty || last.makes_self_dirty,
        );
    }
}

/// One of the cleanups behind `base` changes `self`.
pub open spec fn changes_self(
    effects: Chain<DeferredFlowEffect>,
    base: Chain<DeferredFlowEffect>,
) -> bool
    decreases effects,
{
    match effects {
        Chain::Empty => false,
        Chain::Link(link) => effects.spec_len() > base.spec_len() && (link.item.makes_self_dirty
            || changes_self(link.rest, base)),
    }
}

proof fn lemma_boundaries_keep(w: World, boundaries: Chain<crate::state::Boundary>)
    ensures
        w.report_boundaries(boundaries).st.flow == w.st.flow,
    decreases boundaries,
{
    reveal_with_fuel(World::report_boundaries, 2);
    reveal(World::report);
    if boundaries is Link {
        lemma_boundaries_keep(w, boundaries.without_last());
    }
}

} // verus!
