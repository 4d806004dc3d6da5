//! What holds where several paths of the control flow meet.

use vstd::prelude::*;

#[allow(unused_imports)]
use crate::chain::Chain;
#[allow(unused_imports)]
use crate::flow::{
    borrow_kept, borrows_added, borrows_joined, facts_joined, joined, obligation,
    obligation_agreed, obligation_put, obligations_added, obligations_joined, pending_joined,
    suspend_kept, suspends_added, suspends_joined, transferred_joined, ActiveBorrow,
    BorrowIdentity, FlowState, NoSuspend, TaskObligationOwner, TaskObligationState,
};
#[allow(unused_imports)]
use crate::ids::{LocalId, RegionId};
#[allow(unused_imports)]
use crate::meaning::{facts_hold, law_shared_facts_hold, Meaning};
#[allow(unused_imports)]
use crate::symbolic::ProofTerm;
#[allow(unused_imports)]
use crate::table::{has_id, law_unite_ids};

verus! {

/// Some element of the list passes the test.
pub open spec fn some<T>(list: Chain<T>, test: spec_fn(T) -> bool) -> bool {
    exists|i: int| 0 <= i < list.seq().len() && test(#[trigger] list.seq()[i])
}

proof fn lemma_some_pushed<T>(rest: Chain<T>, last: T, test: spec_fn(T) -> bool)
    ensures
        some(rest.pushed(last), test) <==> some(rest, test) || test(last),
{
    let longer = rest.pushed(last);
    assert(longer.seq() == rest.seq().push(last));
    if some(rest, test) {
        let i = choose|i: int| 0 <= i < rest.seq().len() && test(#[trigger] rest.seq()[i]);
        assert(longer.seq()[i] == rest.seq()[i]);
    }
    if test(last) {
        assert(longer.seq()[longer.seq().len() - 1] == last);
    }
    if some(longer, test) && !test(last) {
        let i = choose|i: int| 0 <= i < longer.seq().len() && test(#[trigger] longer.seq()[i]);
        assert(rest.seq()[i] == longer.seq()[i]);
    }
}

/// Where paths meet, the receiver is dirty if it is on any of them, and a local
/// that still has to be consumed, or was handed over, on any of them counts as
/// such.
pub proof fn law_join_takes_the_worst(states: Chain<FlowState>, id: u32)
    ensures
        joined(states).self_dirty <==> some(states, |state: FlowState| state.self_dirty),
        has_id(joined(states).pending_must_scope_locals, id) <==> some(
            states,
            |state: FlowState| has_id(state.pending_must_scope_locals, id),
        ),
        has_id(joined(states).transferred_must_scope_locals, id) <==> some(
            states,
            |state: FlowState| has_id(state.transferred_must_scope_locals, id),
        ),
    decreases states,
{
    reveal(joined);
    if states is Link {
        let rest = states.without_last();
        let last = states->0.item;
        law_join_takes_the_worst(rest, id);
        assert(states == rest.pushed(last));
        lemma_some_pushed(rest, last, |state: FlowState| state.self_dirty);
        lemma_some_pushed(
            rest,
            last,
            |state: FlowState| has_id(state.pending_must_scope_locals, id),
        );
        lemma_some_pushed(
            rest,
            last,
            |state: FlowState| has_id(state.transferred_must_scope_locals, id),
        );
        law_unite_ids(pending_joined(rest), last.pending_must_scope_locals, id);
        law_unite_ids(transferred_joined(rest), last.transferred_must_scope_locals, id);
    }
}

/// A borrow with the identity.
pub open spec fn has_borrow(borrows: Chain<ActiveBorrow>, identity: BorrowIdentity) -> bool {
    some(borrows, |borrow: ActiveBorrow| borrow.identity == identity)
}

proof fn lemma_borrow_kept(
    borrows: Chain<ActiveBorrow>,
    borrow: ActiveBorrow,
    identity: BorrowIdentity,
)
    ensures
        has_borrow(borrow_kept(borrows, borrow), identity) <==> has_borrow(borrows, identity)
            || borrow.identity == identity,
    decreases borrows,
{
    let test = |borrow: ActiveBorrow| borrow.identity == identity;
    lemma_some_pushed(borrows, borrow, test);
    if borrows is Link {
        let rest = borrows.without_last();
        let last = borrows->0.item;
        lemma_borrow_kept(rest, borrow, identity);
        assert(borrows == rest.pushed(last));
        lemma_some_pushed(rest, last, test);
        lemma_some_pushed(borrow_kept(rest, borrow), last, test);
    }
}

proof fn lemma_borrows_added(
    kept: Chain<ActiveBorrow>,
    borrows: Chain<ActiveBorrow>,
    identity: BorrowIdentity,
)
    ensures
        has_borrow(borrows_added(kept, borrows), identity) <==> has_borrow(kept, identity)
            || has_borrow(borrows, identity),
    decreases borrows,
{
    if borrows is Link {
        let rest = borrows.without_last();
        let last = borrows->0.item;
        lemma_borrows_added(kept, rest, identity);
        assert(borrows == rest.pushed(last));
        lemma_some_pushed(rest, last, |borrow: ActiveBorrow| borrow.identity == identity);
        lemma_borrow_kept(borrows_added(kept, rest), last, identity);
    }
}

/// Where paths meet, exactly the borrows are active that are active on any of
/// them.
pub proof fn law_join_keeps_borrows(states: Chain<FlowState>, identity: BorrowIdentity)
    ensures
        has_borrow(joined(states).borrows, identity) <==> some(
            states,
            |state: FlowState| has_borrow(state.borrows, identity),
        ),
    decreases states,
{
    reveal(joined);
    if states is Link {
        let rest = states.without_last();
        let last = states->0.item;
        law_join_keeps_borrows(rest, identity);
        assert(states == rest.pushed(last));
        lemma_some_pushed(rest, last, |state: FlowState| has_borrow(state.borrows, identity));
        lemma_borrows_added(borrows_joined(rest), last.borrows, identity);
    }
}

/// A resource of the local and the region.
pub open spec fn has_suspend(items: Chain<NoSuspend>, local: LocalId, region: RegionId) -> bool {
    some(items, |item: NoSuspend| item.local == local && item.region == region)
}

proof fn lemma_suspend_kept(
    kept: Chain<NoSuspend>,
    item: NoSuspend,
    local: LocalId,
    region: RegionId,
)
    ensures
        has_suspend(suspend_kept(kept, item), local, region) <==> has_suspend(kept, local, region)
            || (item.local == local && item.region == region),
    decreases kept,
{
    let test = |item: NoSuspend| item.local == local && item.region == region;
    lemma_some_pushed(kept, item, test);
    if kept is Link {
        let rest = kept.without_last();
        let last = kept->0.item;
        lemma_suspend_kept(rest, item, local, region);
        assert(kept == rest.pushed(last));
        lemma_some_pushed(rest, last, test);
        lemma_some_pushed(suspend_kept(rest, item), last, test);
    }
}

proof fn lemma_suspends_added(
    kept: Chain<NoSuspend>,
    items: Chain<NoSuspend>,
    local: LocalId,
    region: RegionId,
)
    ensures
        has_suspend(suspends_added(kept, items), local, region) <==> has_suspend(
            kept,
            local,
            region,
        ) || has_suspend(items, local, region),
    decreases items,
{
    if items is Link {
        let rest = items.without_last();
        let last = items->0.item;
        lemma_suspends_added(kept, rest, local, region);
        assert(items == rest.pushed(last));
        lemma_some_pushed(
            rest,
            last,
            |item: NoSuspend| item.local == local && item.region == region,
        );
        lemma_suspend_kept(suspends_added(kept, rest), last, local, region);
    }
}

/// Where paths meet, exactly the resources are alive that are alive on any of
/// them.
pub proof fn law_join_keeps_resources(states: Chain<FlowState>, local: LocalId, region: RegionId)
    ensures
        has_suspend(joined(states).active_no_suspend, local, region) <==> some(
            states,
            |state: FlowState| has_suspend(state.active_no_suspend, local, region),
        ),
    decreases states,
{
    reveal(joined);
    if states is Link {
        let rest = states.without_last();
        let last = states->0.item;
        law_join_keeps_resources(rest, local, region);
        assert(states == rest.pushed(last));
        lemma_some_pushed(
            rest,
            last,
            |state: FlowState| has_suspend(state.active_no_suspend, local, region),
        );
        lemma_suspends_added(suspends_joined(rest), last.active_no_suspend, local, region);
    }
}

/// Where paths meet, what is known is so whichever path was taken.
pub proof fn law_join_keeps_common_facts(
    state: spec_fn(ProofTerm) -> Meaning,
    states: Chain<FlowState>,
)
    requires
        some(states, |path: FlowState| facts_hold(state, path.proof_facts.facts)),
    ensures
        facts_hold(state, joined(states).proof_facts.facts),
    decreases states,
{
    reveal(joined);
    if states is Link {
        let rest = states.without_last();
        let last = states->0.item;
        let test = |path: FlowState| facts_hold(state, path.proof_facts.facts);
        assert(states == rest.pushed(last));
        lemma_some_pushed(rest, last, test);
        if some(rest, test) {
            law_join_keeps_common_facts(state, rest);
        }
        law_shared_facts_hold(state, facts_joined(rest).facts, last.proof_facts.facts);
        if rest is Empty {
            assert(!some(rest, test));
        }
    }
}

proof fn lemma_obligation_put(
    list: Chain<(TaskObligationOwner, TaskObligationState)>,
    owner: TaskObligationOwner,
    value: TaskObligationState,
    other: TaskObligationOwner,
)
    ensures
        obligation(obligation_put(list, owner, value), other) == (if other == owner {
            Some(value)
        } else {
            obligation(list, other)
        }),
    decreases list,
{
    if list is Link {
        lemma_obligation_put(list.without_last(), owner, value, other);
    }
}

/// What the join makes of an owner's obligation: what all paths agree on, or
/// that it depends on the path.
pub open spec fn agreed_or_conditional(
    states: Chain<FlowState>,
    owner: TaskObligationOwner,
) -> TaskObligationState {
    match obligation_agreed(states, owner) {
        Some(value) => value,
        None => TaskObligationState::Conditional,
    }
}

proof fn lemma_obligations_added(
    states: Chain<FlowState>,
    before: Chain<(TaskObligationOwner, TaskObligationState)>,
    obligations: Chain<(TaskObligationOwner, TaskObligationState)>,
    owner: TaskObligationOwner,
)
    ensures
        obligation(obligations_added(states, before, obligations), owner) == (if obligation(
            obligations,
            owner,
        ) is Some {
            Some(agreed_or_conditional(states, owner))
        } else {
            obligation(before, owner)
        }),
    decreases obligations,
{
    if obligations is Link {
        let rest = obligations.without_last();
        let last = obligations->0.item;
        lemma_obligations_added(states, before, rest, owner);
        lemma_obligation_put(
            obligations_added(states, before, rest),
            last.0,
            agreed_or_conditional(states, last.0),
            owner,
        );
    }
}

proof fn lemma_obligations_joined(
    states: Chain<FlowState>,
    rest: Chain<FlowState>,
    owner: TaskObligationOwner,
)
    ensures
        obligation(obligations_joined(states, rest), owner) == (if some(
            rest,
            |state: FlowState| obligation(state.task_obligations, owner) is Some,
        ) {
            Some(agreed_or_conditional(states, owner))
        } else {
            None
        }),
    decreases rest,
{
    if rest is Link {
        let before = rest.without_last();
        let last = rest->0.item;
        lemma_obligations_joined(states, before, owner);
        assert(rest == before.pushed(last));
        lemma_some_pushed(
            before,
            last,
            |state: FlowState| obligation(state.task_obligations, owner) is Some,
        );
        lemma_obligations_added(
            states,
            obligations_joined(states, before),
            last.task_obligations,
            owner,
        );
    }
}

proof fn lemma_agreed(
    states: Chain<FlowState>,
    owner: TaskObligationOwner,
    value: TaskObligationState,
)
    ensures
        obligation_agreed(states, owner) == Some(value) <==> states is Link && !some(
            states,
            |state: FlowState| obligation(state.task_obligations, owner) != Some(value),
        ),
    decreases states,
{
    if states is Link {
        let rest = states.without_last();
        let last = states->0.item;
        lemma_agreed(rest, owner, value);
        assert(states == rest.pushed(last));
        let differs = |state: FlowState| obligation(state.task_obligations, owner) != Some(value);
        lemma_some_pushed(rest, last, differs);
        if rest is Empty {
            assert(!some(rest, differs));
        }
    }
}

/// Where paths meet, a task is live or consumed only if it is so on each of
/// them; a task that any of them knows is not forgotten.
pub proof fn law_join_agrees_on_tasks(
    states: Chain<FlowState>,
    owner: TaskObligationOwner,
    value: TaskObligationState,
)
    requires
        value != TaskObligationState::Conditional,
    ensures
        obligation(joined(states).task_obligations, owner) == Some(value) <==> states is Link
            && !some(
            states,
            |state: FlowState| obligation(state.task_obligations, owner) != Some(value),
        ),
        obligation(joined(states).task_obligations, owner) is None <==> !some(
            states,
            |state: FlowState| obligation(state.task_obligations, owner) is Some,
        ),
{
    reveal(joined);
    lemma_obligations_joined(states, states, owner);
    lemma_agreed(states, owner, value);
    let has = |state: FlowState| obligation(state.task_obligations, owner) is Some;
    let differs = |state: FlowState| obligation(state.task_obligations, owner) != Some(value);
    if states is Link && !some(states, differs) {
        let rest = states.without_last();
        let last = states->0.item;
        assert(states == rest.pushed(last));
        lemma_some_pushed(rest, last, differs);
        lemma_some_pushed(rest, last, has);
    }
}

} // verus!
