//! A task is consumed once, and none is left over.

use vstd::prelude::*;

use crate::chain::Chain;
use crate::diagnostics::{
    adds_to, lemma_adds_nothing, lemma_adds_one, lemma_adds_through, reported,
};
use crate::flow::{
    obligation,
    obligation_dropped,
    obligation_put,
    FlowState,
    TaskObligationOwner,
    TaskObligationState,
};
use crate::hir::Expr;
use crate::ids::{LocalId, ParamId, Span, TyId};
use crate::semantics::{Place, PlaceRoot};
use crate::state::{CheckState, Context, World};
use crate::tasks::{owner_of, unfinished};

verus! {

broadcast use {lemma_adds_nothing, lemma_adds_one, lemma_adds_through};

proof fn lemma_put(
    list: Chain<(TaskObligationOwner, TaskObligationState)>,
    owner: TaskObligationOwner,
    state: TaskObligationState,
    other: TaskObligationOwner,
)
    ensures
        obligation(obligation_put(list, owner, state), other) == if other == owner {
            Some(state)
        } else {
            obligation(list, other)
        },
    decreases list,
{
    if list is Link {
        lemma_put(list.without_last(), owner, state, other);
    }
}

proof fn lemma_dropped(
    list: Chain<(TaskObligationOwner, TaskObligationState)>,
    owner: TaskObligationOwner,
    other: TaskObligationOwner,
)
    ensures
        obligation(obligation_dropped(list, owner), other) == if other == owner {
            None
        } else {
            obligation(list, other)
        },
    decreases list,
{
    if list is Link {
        lemma_dropped(list.without_last(), owner, other);
    }
}

/// Everything but the tasks of the flow is as it was.
pub open spec fn only_tasks_differ(before: World, after: World) -> bool {
    &&& after.types == before.types
    &&& after.st == (CheckState {
        flow: FlowState {
            task_obligations: after.st.flow.task_obligations,
            ..before.st.flow
        },
        ..before.st
    })
}

/// The state of a task is the one that was last noted for its owner; noting
/// the state of one owner, or forgetting it, changes no other.
pub proof fn law_tasks_are_noted(
    w: World,
    owner: TaskObligationOwner,
    state: TaskObligationState,
    other: TaskObligationOwner,
)
    ensures
        w.set_task(owner, state).task_state(owner) == Some(state),
        other != owner ==> w.set_task(owner, state).task_state(other) == w.task_state(other),
        w.drop_task(owner).task_state(owner) is None,
        other != owner ==> w.drop_task(owner).task_state(other) == w.task_state(other),
        only_tasks_differ(w, w.set_task(owner, state)),
        only_tasks_differ(w, w.drop_task(owner)),
{
    reveal(World::set_task);
    reveal(World::drop_task);
    lemma_put(w.st.flow.task_obligations, owner, state, owner);
    lemma_put(w.st.flow.task_obligations, owner, state, other);
    lemma_dropped(w.st.flow.task_obligations, owner, owner);
    lemma_dropped(w.st.flow.task_obligations, owner, other);
}

/// A live task is consumed without a word. Consuming one that is consumed
/// already, or consumed on some paths only, is an error at that place. Behind
/// it the task is consumed in any case, and no other task has changed; an
/// owner without a task changes nothing.
pub proof fn law_consuming_a_task(
    w: World,
    owner: TaskObligationOwner,
    span: Span,
    other: TaskObligationOwner,
)
    ensures
        ({
            let after = w.consume_task_owner(owner, span);
            &&& match w.task_state(owner) {
                Some(TaskObligationState::Live) => after.st.diagnostics == w.st.diagnostics,
                Some(TaskObligationState::Consumed) => reported(
                    w.st.diagnostics,
                    after.st.diagnostics,
                    "TaskAlreadyConsumed",
                    span,
                ),
                Some(TaskObligationState::Conditional) => reported(
                    w.st.diagnostics,
                    after.st.diagnostics,
                    "TaskConditionallyConsumed",
                    span,
                ),
                None => after == w,
            }
            &&& w.task_state(owner) is Some ==> after.task_state(owner) == Some(
                TaskObligationState::Consumed,
            )
            &&& other != owner ==> after.task_state(other) == w.task_state(other)
        }),
{
    reveal(World::consume_task_owner);
    reveal(World::report);
    let code = w.error(
        "TaskConditionallyConsumed",
        crate::diagnostics::Message::Subject(
            "Task obligation",
            "was consumed on only some control-flow paths",
        ),
        span,
    );
    law_tasks_are_noted(w, owner, TaskObligationState::Consumed, other);
    law_tasks_are_noted(code, owner, TaskObligationState::Consumed, other);
}

/// The owner is consumed at each of the places, one after the other.
pub open spec fn consumed_at(w: World, owner: TaskObligationOwner, places: Seq<Span>) -> World
    decreases places.len(),
{
    if places.len() == 0 {
        w
    } else {
        consumed_at(w, owner, places.drop_last()).consume_task_owner(owner, places.last())
    }
}

/// However often a task is consumed on a path, each time but the first is
/// reported: where nothing is reported, it was consumed once at most.
pub proof fn law_a_task_is_consumed_once(w: World, owner: TaskObligationOwner, places: Seq<Span>)
    requires
        w.task_state(owner) is Some,
    ensures
        ({
            let after = consumed_at(w, owner, places);
            &&& adds_to(w.st.diagnostics, after.st.diagnostics)
            &&& places.len() >= 1 ==> after.task_state(owner) == Some(TaskObligationState::Consumed)
            &&& after.st.diagnostics.spec_len() + 1 >= w.st.diagnostics.spec_len() + places.len()
            &&& after.st.diagnostics == w.st.diagnostics ==> places.len() <= 1
            &&& after.st.diagnostics == w.st.diagnostics && places.len() == 1 ==> w.task_state(owner)
                == Some(TaskObligationState::Live)
        }),
    decreases places.len(),
{
    if places.len() > 0 {
        let before = consumed_at(w, owner, places.drop_last());
        law_a_task_is_consumed_once(w, owner, places.drop_last());
        law_consuming_a_task(before, owner, places.last(), owner);
        let after = consumed_at(w, owner, places);
        assert(after == before.consume_task_owner(owner, places.last()));
        if after.st.diagnostics != before.st.diagnostics {
            let added = after.st.diagnostics->0.item;
            assert(after.st.diagnostics == before.st.diagnostics.pushed(added));
            lemma_adds_one(before.st.diagnostics, added);
        }
        if places.len() == 1 {
            assert(before == w);
        } else {
            assert(before.task_state(owner) == Some(TaskObligationState::Consumed));
        }
    }
}

/// Handing on the value of a whole variable that carries a task consumes the
/// variable's task, at that place; a field that carries one cannot be handed
/// on alone, and a value that carries none consumes nothing.
pub proof fn law_handing_on_a_task(w: World, cx: &Context, e: Expr, ty: TyId, place: Place)
    requires
        w.type_of(e.id) == Some(ty),
    ensures
        ({
            let (asked, carries) = w.has_task_obligation(cx, ty);
            let after = w.consume_task_obligation(cx, e);
            &&& !carries ==> after == asked
            &&& carries && asked.place_of(e.id) == Some(place) && place.projections is Link
                ==> reported(
                asked.st.diagnostics,
                after.st.diagnostics,
                "TaskPartialExtractionUnsupported",
                e.span,
            )
            &&& carries && asked.place_of(e.id) == Some(place) && place.projections is Empty
                && asked.task_state(owner_of(place.root)) == Some(TaskObligationState::Consumed)
                ==> reported(
                asked.st.diagnostics,
                after.st.diagnostics,
                "TaskAlreadyConsumed",
                e.span,
            )
            &&& carries && asked.place_of(e.id) == Some(place) && place.projections is Empty
                && asked.task_state(owner_of(place.root)) == Some(TaskObligationState::Live) ==> {
                &&& after.st.diagnostics == asked.st.diagnostics
                &&& after.task_state(owner_of(place.root)) == Some(TaskObligationState::Consumed)
            }
        }),
{
    reveal(World::report);
    reveal_with_fuel(World::consume_task_obligation, 2);
    reveal_with_fuel(World::consume_task_obligation_with_type, 2);
    let asked = w.has_task_obligation(cx, ty).0;
    let owner = owner_of(place.root);
    law_consuming_a_task(asked, owner, e.span, owner);
}

/// Each root has an owner of its own.
pub proof fn law_owners_are_their_own(left: PlaceRoot, right: PlaceRoot)
    ensures
        owner_of(left) == owner_of(right) ==> left == right,
{
}

/// A value is used: that is an error exactly where its task is gone, on every
/// path or on some.
pub proof fn law_using_a_task(w: World, owner: TaskObligationOwner, span: Span)
    ensures
        ({
            let after = w.report_used_task(owner, span);
            match w.task_state(owner) {
                Some(TaskObligationState::Consumed) => reported(
                    w.st.diagnostics,
                    after.st.diagnostics,
                    "TaskAlreadyConsumed",
                    span,
                ),
                Some(TaskObligationState::Conditional) => reported(
                    w.st.diagnostics,
                    after.st.diagnostics,
                    "TaskConditionallyConsumed",
                    span,
                ),
                _ => after == w,
            }
        }),
        w.report_used_task(owner, span).st.flow == w.st.flow,
{
    reveal(World::report_used_task);
    reveal(World::report);
}

/// What is given to a body with a task in it is live until it is consumed.
pub proof fn law_seeded_tasks_are_live(w: World, cx: &Context, owner: TaskObligationOwner, ty: TyId)
    ensures
        ({
            let (asked, carries) = w.has_task_obligation(cx, ty);
            let after = w.seed_task(cx, owner, ty);
            &&& carries ==> after.task_state(owner) == Some(TaskObligationState::Live)
            &&& !carries ==> after == asked
            &&& after.st.diagnostics == asked.st.diagnostics
        }),
{
    reveal(World::seed_task);
    law_tasks_are_noted(
        w.has_task_obligation(cx, ty).0,
        owner,
        TaskObligationState::Live,
        owner,
    );
}

proof fn lemma_unconsumed(w: World, cx: &Context, owner: TaskObligationOwner)
    ensures
        ({
            let after = w.report_unconsumed_task_owner(cx, owner);
            &&& after.st.diagnostics is Link
            &&& after.st.diagnostics->0.rest == w.st.diagnostics
            &&& after.st.diagnostics->0.item.code == "UnawaitedAsyncCall"
            &&& after.st.flow == w.st.flow
        }),
{
    reveal(World::report_unconsumed_task_owner);
    reveal(World::report);
}

/// An owner is among those that have a state.
pub open spec fn is_owner(
    list: Chain<(TaskObligationOwner, TaskObligationState)>,
    owner: TaskObligationOwner,
) -> bool {
    obligation(list, owner) is Some
}

proof fn lemma_audited(
    w: World,
    cx: &Context,
    owners: Chain<(TaskObligationOwner, TaskObligationState)>,
    owner: TaskObligationOwner,
)
    ensures
        ({
            let after = w.audit_owners(cx, owners);
            &&& adds_to(w.st.diagnostics, after.st.diagnostics)
            &&& after.st.diagnostics.spec_len() >= w.st.diagnostics.spec_len()
            &&& is_owner(owners, owner) ==> !unfinished(after.task_state(owner))
            &&& !unfinished(w.task_state(owner)) ==> after.task_state(owner) == w.task_state(owner)
            &&& is_owner(owners, owner) && unfinished(w.task_state(owner))
                ==> after.st.diagnostics.spec_len() > w.st.diagnostics.spec_len()
            &&& after.st.diagnostics.spec_len() == w.st.diagnostics.spec_len()
                ==> after.st.diagnostics == w.st.diagnostics && after.task_state(owner)
                == w.task_state(owner)
            &&& !is_owner(owners, owner) ==> after.task_state(owner) == w.task_state(owner)
        }),
    decreases owners,
{
    if owners is Link {
        let last = owners->0.item.0;
        lemma_audited(w, cx, owners.without_last(), owner);
        lemma_audited(w, cx, owners.without_last(), last);
        let before = w.audit_owners(cx, owners.without_last());
        if unfinished(before.task_state(last)) {
            lemma_unconsumed(before, cx, last);
            let reporting = before.report_unconsumed_task_owner(cx, last);
            assert(reporting.st.diagnostics == before.st.diagnostics.pushed(
                reporting.st.diagnostics->0.item,
            ));
            let added = reporting.st.diagnostics->0.item;
            lemma_adds_one(before.st.diagnostics, added);
            law_tasks_are_noted(reporting, last, TaskObligationState::Consumed, owner);
        }
    }
}

/// Where control leaves a body, every task that is not consumed on every path
/// is reported: where nothing is reported, none was. Behind it none is left.
pub proof fn law_nothing_is_left_at_exit(w: World, cx: &Context, owner: TaskObligationOwner)
    ensures
        ({
            let after = w.audit_task_obligations_at_exit(cx);
            &&& adds_to(w.st.diagnostics, after.st.diagnostics)
            &&& !unfinished(after.task_state(owner))
            &&& unfinished(w.task_state(owner)) ==> after.st.diagnostics.spec_len()
                > w.st.diagnostics.spec_len()
        }),
        w.task_state(owner) == Some(TaskObligationState::Live) ==> unfinished(w.task_state(owner)),
        w.task_state(owner) == Some(TaskObligationState::Conditional) ==> unfinished(
            w.task_state(owner),
        ),
        w.task_state(owner) == Some(TaskObligationState::Consumed) ==> !unfinished(
            w.task_state(owner),
        ),
{
    reveal(World::audit_task_obligations_at_exit);
    lemma_audited(w, cx, w.st.flow.task_obligations, owner);
}

/// A local is among those of a scope.
pub open spec fn has_local(locals: Chain<LocalId>, local: LocalId) -> bool
    decreases locals,
{
    match locals {
        Chain::Empty => false,
        Chain::Link(link) => link.item == local || has_local(link.rest, local),
    }
}

/// Where a scope ends, the tasks of its locals end with it, and each that is
/// not consumed is reported; other owners keep theirs.
pub proof fn law_scopes_end_their_tasks(
    w: World,
    cx: &Context,
    locals: Chain<LocalId>,
    local: LocalId,
    parameter: ParamId,
)
    ensures
        ({
            let after = w.end_local_tasks(cx, locals);
            let owner = TaskObligationOwner::Local(local);
            &&& adds_to(w.st.diagnostics, after.st.diagnostics)
            &&& after.st.diagnostics.spec_len() >= w.st.diagnostics.spec_len()
            &&& has_local(locals, local) ==> after.task_state(owner) is None
            &&& !has_local(locals, local) ==> after.task_state(owner) == w.task_state(owner)
            &&& has_local(locals, local) && unfinished(w.task_state(owner))
                ==> after.st.diagnostics.spec_len() > w.st.diagnostics.spec_len()
            &&& after.task_state(TaskObligationOwner::Param(parameter)) == w.task_state(
                TaskObligationOwner::Param(parameter),
            )
            &&& after.task_state(TaskObligationOwner::SelfValue) == w.task_state(
                TaskObligationOwner::SelfValue,
            )
        }),
    decreases locals,
{
    if locals is Link {
        let last = locals->0.item;
        let rest = locals.without_last();
        law_scopes_end_their_tasks(w, cx, rest, local, parameter);
        law_scopes_end_their_tasks(w, cx, rest, last, parameter);
        let before = w.end_local_tasks(cx, rest);
        let owner = TaskObligationOwner::Local(last);
        lemma_unconsumed(before, cx, owner);
        let told = before.report_unconsumed_task_owner(cx, owner);
        assert(told.st.diagnostics == before.st.diagnostics.pushed(told.st.diagnostics->0.item));
        let added = told.st.diagnostics->0.item;
        lemma_adds_one(before.st.diagnostics, added);
        let mine = TaskObligationOwner::Local(local);
        let given = TaskObligationOwner::Param(parameter);
        let state = TaskObligationState::Live;
        law_tasks_are_noted(before, owner, state, mine);
        law_tasks_are_noted(told, owner, state, mine);
        law_tasks_are_noted(before, owner, state, given);
        law_tasks_are_noted(told, owner, state, given);
        law_tasks_are_noted(before, owner, state, TaskObligationOwner::SelfValue);
        law_tasks_are_noted(told, owner, state, TaskObligationOwner::SelfValue);
    }
}

} // verus!
