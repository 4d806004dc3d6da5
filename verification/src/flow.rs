//! The state that control flow splits and joins.

use std::rc::Rc;
use vstd::prelude::*;

use crate::chain::{Chain, Duplicate, Same};
use crate::ids::{LocalId, ParamId, RegionId, Span};
use crate::semantics::Place;
use crate::symbolic::{share_facts, ProofFacts, ProofPlace, ProofTerm};
#[allow(unused_imports)]
use crate::symbolic::facts_shared;
use crate::table::unite_ids;
#[allow(unused_imports)]
use crate::table::ids_united;

verus! {

/// What a borrow stands for.
#[derive(Clone, Copy, Debug, PartialEq, Eq, Structural)]
pub enum BorrowIdentity {
    Interface(u32),
    InOut(u32),
}

/// A borrow that is active.
pub struct ActiveBorrow {
    pub owner: Place,
    pub mutable: bool,
    pub region: RegionId,
    pub identity: BorrowIdentity,
    pub span: Span,
}

impl Clone for ActiveBorrow {
    fn clone(&self) -> (copy: Self)
        ensures
            copy == *self,
    {
        ActiveBorrow {
            owner: self.owner.clone(),
            mutable: self.mutable,
            region: self.region,
            identity: self.identity,
            span: self.span,
        }
    }
}

impl Same for ActiveBorrow {
    fn same(&self, other: &Self) -> (equal: bool) {
        self.owner.same(&other.owner) && self.mutable == other.mutable && self.region
            == other.region && self.identity == other.identity && self.span == other.span
    }
}

/// The owner of a task that has to be consumed.
#[derive(Clone, Copy, Debug, PartialEq, Eq, Structural)]
pub enum TaskObligationOwner {
    Local(LocalId),
    Param(ParamId),
    SelfValue,
}

#[derive(Clone, Copy, Debug, PartialEq, Eq, Structural)]
pub enum TaskObligationState {
    Live,
    Consumed,
    Conditional,
}

impl Same for (TaskObligationOwner, TaskObligationState) {
    fn same(&self, other: &Self) -> (equal: bool) {
        self.0 == other.0 && self.1 == other.1
    }
}

/// A resource that must not be alive across an await.
#[derive(Clone, Copy, Debug, PartialEq, Eq, Structural)]
pub struct NoSuspend {
    pub local: LocalId,
    pub region: RegionId,
    pub span: Span,
}

impl Same for NoSuspend {
    fn same(&self, other: &Self) -> (equal: bool) {
        *self == *other
    }
}

/// What is true at one point of the control flow.
pub struct FlowState {
    /// The receiver was written and its invariant not yet restored.
    pub self_dirty: bool,
    pub borrows: Chain<ActiveBorrow>,
    pub pending_must_scope_locals: Chain<u32>,
    pub transferred_must_scope_locals: Chain<u32>,
    pub active_no_suspend: Chain<NoSuspend>,
    pub proof_facts: ProofFacts,
    pub local_terms: Chain<(u32, Rc<ProofTerm>)>,
    pub task_obligations: Chain<(TaskObligationOwner, TaskObligationState)>,
}

impl Clone for FlowState {
    fn clone(&self) -> (copy: Self)
        ensures
            copy == *self,
    {
        FlowState {
            self_dirty: self.self_dirty,
            borrows: self.borrows.clone(),
            pending_must_scope_locals: self.pending_must_scope_locals.clone(),
            transferred_must_scope_locals: self.transferred_must_scope_locals.clone(),
            active_no_suspend: self.active_no_suspend.clone(),
            proof_facts: self.proof_facts.clone(),
            local_terms: self.local_terms.clone(),
            task_obligations: self.task_obligations.clone(),
        }
    }
}

impl FlowState {
    pub open spec fn start() -> FlowState {
        FlowState {
            self_dirty: false,
            borrows: Chain::Empty,
            pending_must_scope_locals: Chain::Empty,
            transferred_must_scope_locals: Chain::Empty,
            active_no_suspend: Chain::Empty,
            proof_facts: ProofFacts::none(),
            local_terms: Chain::Empty,
            task_obligations: Chain::Empty,
        }
    }

    pub fn new() -> (state: Self)
        ensures
            state == FlowState::start(),
    {
        FlowState {
            self_dirty: false,
            borrows: Chain::new(),
            pending_must_scope_locals: Chain::new(),
            transferred_must_scope_locals: Chain::new(),
            active_no_suspend: Chain::new(),
            proof_facts: ProofFacts::new(),
            local_terms: Chain::new(),
            task_obligations: Chain::new(),
        }
    }

    /// The state without what was proved of values.
    pub open spec fn without_proofs(self) -> FlowState {
        FlowState { proof_facts: ProofFacts::none(), local_terms: Chain::Empty, ..self }
    }
}

// Symbolic values of locals, ordered by local.

/// The symbolic value of a local.
pub open spec fn term_of(terms: Chain<(u32, Rc<ProofTerm>)>, local: u32) -> Option<ProofTerm>
    decreases terms,
{
    match terms {
        Chain::Empty => None,
        Chain::Link(link) => if link.item.0 == local {
            Some(*link.item.1)
        } else {
            term_of(link.rest, local)
        },
    }
}

pub fn find_term(terms: &Chain<(u32, Rc<ProofTerm>)>, local: u32) -> (term: Option<&ProofTerm>)
    ensures
        match term {
            Some(found) => term_of(*terms, local) == Some(*found),
            None => term_of(*terms, local) is None,
        },
    decreases terms,
{
    match terms {
        Chain::Empty => None,
        Chain::Link(link) => if link.item.0 == local {
            Some(&*link.item.1)
        } else {
            find_term(&link.rest, local)
        },
    }
}

/// The values after a local was given one.
pub open spec fn term_put(
    terms: Chain<(u32, Rc<ProofTerm>)>,
    local: u32,
    term: ProofTerm,
) -> Chain<(u32, Rc<ProofTerm>)>
    decreases terms,
{
    match terms {
        Chain::Empty => terms.pushed((local, Rc::new(term))),
        Chain::Link(link) => if link.item.0 < local {
            terms.pushed((local, Rc::new(term)))
        } else if link.item.0 == local {
            link.rest.pushed((local, Rc::new(term)))
        } else {
            term_put(link.rest, local, term).pushed(link.item)
        },
    }
}

pub fn put_term(terms: &Chain<(u32, Rc<ProofTerm>)>, local: u32, term: ProofTerm) -> (result: Chain<
    (u32, Rc<ProofTerm>),
>)
    ensures
        result == term_put(*terms, local, term),
    decreases terms,
{
    match terms {
        Chain::Empty => terms.clone().with((local, Rc::new(term))),
        Chain::Link(link) => if link.item.0 < local {
            terms.clone().with((local, Rc::new(term)))
        } else if link.item.0 == local {
            link.rest.clone().with((local, Rc::new(term)))
        } else {
            put_term(&link.rest, local, term).with((link.item.0, link.item.1.clone()))
        },
    }
}

/// The values without that of a local.
pub open spec fn term_dropped(
    terms: Chain<(u32, Rc<ProofTerm>)>,
    local: u32,
) -> Chain<(u32, Rc<ProofTerm>)>
    decreases terms,
{
    match terms {
        Chain::Empty => terms,
        Chain::Link(link) => if link.item.0 == local {
            term_dropped(link.rest, local)
        } else {
            term_dropped(link.rest, local).pushed(link.item)
        },
    }
}

pub fn drop_term(terms: &Chain<(u32, Rc<ProofTerm>)>, local: u32) -> (result: Chain<
    (u32, Rc<ProofTerm>),
>)
    ensures
        result == term_dropped(*terms, local),
    decreases terms,
{
    match terms {
        Chain::Empty => Chain::new(),
        Chain::Link(link) => if link.item.0 == local {
            drop_term(&link.rest, local)
        } else {
            drop_term(&link.rest, local).with((link.item.0, link.item.1.clone()))
        },
    }
}

/// The values that do not read a place overlapping `place`, and that of `kept`.
pub open spec fn terms_without(
    terms: Chain<(u32, Rc<ProofTerm>)>,
    place: ProofPlace,
    kept: Option<u32>,
) -> Chain<(u32, Rc<ProofTerm>)>
    decreases terms,
{
    match terms {
        Chain::Empty => terms,
        Chain::Link(link) => if kept == Some(link.item.0) || !link.item.1.mentions(place) {
            terms_without(link.rest, place, kept).pushed(link.item)
        } else {
            terms_without(link.rest, place, kept)
        },
    }
}

pub fn remove_terms(
    terms: &Chain<(u32, Rc<ProofTerm>)>,
    place: &ProofPlace,
    kept: Option<u32>,
) -> (result: Chain<(u32, Rc<ProofTerm>)>)
    ensures
        result == terms_without(*terms, *place, kept),
    decreases terms,
{
    match terms {
        Chain::Empty => Chain::new(),
        Chain::Link(link) => {
            let keep = match kept {
                Some(local) => local == link.item.0,
                None => false,
            };
            if keep || !link.item.1.contains_place(place) {
                remove_terms(&link.rest, place, kept).with((link.item.0, link.item.1.clone()))
            } else {
                remove_terms(&link.rest, place, kept)
            }
        },
    }
}

/// The values that `others` has too.
pub open spec fn terms_shared(
    terms: Chain<(u32, Rc<ProofTerm>)>,
    others: Chain<(u32, Rc<ProofTerm>)>,
) -> Chain<(u32, Rc<ProofTerm>)>
    decreases terms,
{
    match terms {
        Chain::Empty => terms,
        Chain::Link(link) => if term_of(others, link.item.0) == Some(*link.item.1) {
            terms_shared(link.rest, others).pushed(link.item)
        } else {
            terms_shared(link.rest, others)
        },
    }
}

fn share_terms(
    terms: &Chain<(u32, Rc<ProofTerm>)>,
    others: &Chain<(u32, Rc<ProofTerm>)>,
) -> (result: Chain<(u32, Rc<ProofTerm>)>)
    ensures
        result == terms_shared(*terms, *others),
    decreases terms,
{
    match terms {
        Chain::Empty => Chain::new(),
        Chain::Link(link) => {
            let shared = match find_term(others, link.item.0) {
                Some(term) => term.same(&link.item.1),
                None => false,
            };
            if shared {
                share_terms(&link.rest, others).with((link.item.0, link.item.1.clone()))
            } else {
                share_terms(&link.rest, others)
            }
        },
    }
}

// Task obligations, ordered by owner.

/// Whether `left` comes before `right`: locals, then parameters, then `self`.
pub open spec fn owner_before(left: TaskObligationOwner, right: TaskObligationOwner) -> bool {
    match (left, right) {
        (TaskObligationOwner::Local(a), TaskObligationOwner::Local(b)) => a.0 < b.0,
        (TaskObligationOwner::Param(a), TaskObligationOwner::Param(b)) => a.0 < b.0,
        (TaskObligationOwner::Local(_), TaskObligationOwner::Param(_)) => true,
        (TaskObligationOwner::Local(_), TaskObligationOwner::SelfValue) => true,
        (TaskObligationOwner::Param(_), TaskObligationOwner::SelfValue) => true,
        _ => false,
    }
}

fn is_owner_before(left: TaskObligationOwner, right: TaskObligationOwner) -> (before: bool)
    ensures
        before == owner_before(left, right),
{
    match (left, right) {
        (TaskObligationOwner::Local(a), TaskObligationOwner::Local(b)) => a.0 < b.0,
        (TaskObligationOwner::Param(a), TaskObligationOwner::Param(b)) => a.0 < b.0,
        (TaskObligationOwner::Local(_), TaskObligationOwner::Param(_)) => true,
        (TaskObligationOwner::Local(_), TaskObligationOwner::SelfValue) => true,
        (TaskObligationOwner::Param(_), TaskObligationOwner::SelfValue) => true,
        _ => false,
    }
}

/// The state of an obligation.
pub open spec fn obligation(
    obligations: Chain<(TaskObligationOwner, TaskObligationState)>,
    owner: TaskObligationOwner,
) -> Option<TaskObligationState>
    decreases obligations,
{
    match obligations {
        Chain::Empty => None,
        Chain::Link(link) => if link.item.0 == owner {
            Some(link.item.1)
        } else {
            obligation(link.rest, owner)
        },
    }
}

pub fn find_obligation(
    obligations: &Chain<(TaskObligationOwner, TaskObligationState)>,
    owner: TaskObligationOwner,
) -> (state: Option<TaskObligationState>)
    ensures
        state == obligation(*obligations, owner),
    decreases obligations,
{
    match obligations {
        Chain::Empty => None,
        Chain::Link(link) => if link.item.0 == owner {
            Some(link.item.1)
        } else {
            find_obligation(&link.rest, owner)
        },
    }
}

/// The obligations after one was given a state.
pub open spec fn obligation_put(
    obligations: Chain<(TaskObligationOwner, TaskObligationState)>,
    owner: TaskObligationOwner,
    state: TaskObligationState,
) -> Chain<(TaskObligationOwner, TaskObligationState)>
    decreases obligations,
{
    match obligations {
        Chain::Empty => obligations.pushed((owner, state)),
        Chain::Link(link) => if link.item.0 == owner {
            link.rest.pushed((owner, state))
        } else if owner_before(link.item.0, owner) {
            obligations.pushed((owner, state))
        } else {
            obligation_put(link.rest, owner, state).pushed(link.item)
        },
    }
}

pub fn put_obligation(
    obligations: &Chain<(TaskObligationOwner, TaskObligationState)>,
    owner: TaskObligationOwner,
    state: TaskObligationState,
) -> (result: Chain<(TaskObligationOwner, TaskObligationState)>)
    ensures
        result == obligation_put(*obligations, owner, state),
    decreases obligations,
{
    match obligations {
        Chain::Empty => obligations.clone().with((owner, state)),
        Chain::Link(link) => if link.item.0 == owner {
            link.rest.clone().with((owner, state))
        } else if is_owner_before(link.item.0, owner) {
            obligations.clone().with((owner, state))
        } else {
            put_obligation(&link.rest, owner, state).with((link.item.0, link.item.1))
        },
    }
}

/// The obligations without that of an owner.
pub open spec fn obligation_dropped(
    obligations: Chain<(TaskObligationOwner, TaskObligationState)>,
    owner: TaskObligationOwner,
) -> Chain<(TaskObligationOwner, TaskObligationState)>
    decreases obligations,
{
    match obligations {
        Chain::Empty => obligations,
        Chain::Link(link) => if link.item.0 == owner {
            obligation_dropped(link.rest, owner)
        } else {
            obligation_dropped(link.rest, owner).pushed(link.item)
        },
    }
}

pub fn drop_obligation(
    obligations: &Chain<(TaskObligationOwner, TaskObligationState)>,
    owner: TaskObligationOwner,
) -> (result: Chain<(TaskObligationOwner, TaskObligationState)>)
    ensures
        result == obligation_dropped(*obligations, owner),
    decreases obligations,
{
    match obligations {
        Chain::Empty => Chain::new(),
        Chain::Link(link) => if link.item.0 == owner {
            drop_obligation(&link.rest, owner)
        } else {
            drop_obligation(&link.rest, owner).with((link.item.0, link.item.1))
        },
    }
}

// Joining states.

pub open spec fn any_dirty(states: Chain<FlowState>) -> bool
    decreases states,
{
    match states {
        Chain::Empty => false,
        Chain::Link(link) => any_dirty(link.rest) || link.item.self_dirty,
    }
}

fn check_any_dirty(states: &Chain<FlowState>) -> (dirty: bool)
    ensures
        dirty == any_dirty(*states),
    decreases states,
{
    match states {
        Chain::Empty => false,
        Chain::Link(link) => check_any_dirty(&link.rest) || link.item.self_dirty,
    }
}

/// Whether one borrow identity comes before another.
pub open spec fn identity_before(left: BorrowIdentity, right: BorrowIdentity) -> bool {
    match (left, right) {
        (BorrowIdentity::Interface(a), BorrowIdentity::Interface(b)) => a < b,
        (BorrowIdentity::InOut(a), BorrowIdentity::InOut(b)) => a < b,
        (BorrowIdentity::Interface(_), BorrowIdentity::InOut(_)) => true,
        (BorrowIdentity::InOut(_), BorrowIdentity::Interface(_)) => false,
    }
}

fn is_identity_before(left: BorrowIdentity, right: BorrowIdentity) -> (before: bool)
    ensures
        before == identity_before(left, right),
{
    match (left, right) {
        (BorrowIdentity::Interface(a), BorrowIdentity::Interface(b)) => a < b,
        (BorrowIdentity::InOut(a), BorrowIdentity::InOut(b)) => a < b,
        (BorrowIdentity::Interface(_), BorrowIdentity::InOut(_)) => true,
        (BorrowIdentity::InOut(_), BorrowIdentity::Interface(_)) => false,
    }
}

/// The borrows with one more in its place, unless its identity is there.
pub open spec fn borrow_kept(borrows: Chain<ActiveBorrow>, borrow: ActiveBorrow) -> Chain<
    ActiveBorrow,
>
    decreases borrows,
{
    match borrows {
        Chain::Empty => borrows.pushed(borrow),
        Chain::Link(link) => if link.item.identity == borrow.identity {
            borrows
        } else if identity_before(link.item.identity, borrow.identity) {
            borrows.pushed(borrow)
        } else {
            borrow_kept(link.rest, borrow).pushed(link.item)
        },
    }
}

fn keep_borrow(borrows: &Chain<ActiveBorrow>, borrow: &ActiveBorrow) -> (result: Chain<
    ActiveBorrow,
>)
    ensures
        result == borrow_kept(*borrows, *borrow),
    decreases borrows,
{
    match borrows {
        Chain::Empty => borrows.clone().with(borrow.clone()),
        Chain::Link(link) => if link.item.identity == borrow.identity {
            borrows.clone()
        } else if is_identity_before(link.item.identity, borrow.identity) {
            borrows.clone().with(borrow.clone())
        } else {
            keep_borrow(&link.rest, borrow).with(link.item.clone())
        },
    }
}

pub open spec fn borrows_added(kept: Chain<ActiveBorrow>, borrows: Chain<ActiveBorrow>) -> Chain<
    ActiveBorrow,
>
    decreases borrows,
{
    match borrows {
        Chain::Empty => kept,
        Chain::Link(link) => borrow_kept(borrows_added(kept, link.rest), link.item),
    }
}

fn add_borrows(kept: &Chain<ActiveBorrow>, borrows: &Chain<ActiveBorrow>) -> (result: Chain<
    ActiveBorrow,
>)
    ensures
        result == borrows_added(*kept, *borrows),
    decreases borrows,
{
    match borrows {
        Chain::Empty => kept.clone(),
        Chain::Link(link) => keep_borrow(&add_borrows(kept, &link.rest), &link.item),
    }
}

/// The borrows of all states by identity; the first of an identity counts.
pub open spec fn borrows_joined(states: Chain<FlowState>) -> Chain<ActiveBorrow>
    decreases states,
{
    match states {
        Chain::Empty => Chain::Empty,
        Chain::Link(link) => borrows_added(borrows_joined(link.rest), link.item.borrows),
    }
}

fn join_borrows(states: &Chain<FlowState>) -> (result: Chain<ActiveBorrow>)
    ensures
        result == borrows_joined(*states),
    decreases states,
{
    match states {
        Chain::Empty => Chain::new(),
        Chain::Link(link) => add_borrows(&join_borrows(&link.rest), &link.item.borrows),
    }
}

pub open spec fn pending_joined(states: Chain<FlowState>) -> Chain<u32>
    decreases states,
{
    match states {
        Chain::Empty => Chain::Empty,
        Chain::Link(link) => ids_united(
            pending_joined(link.rest),
            link.item.pending_must_scope_locals,
        ),
    }
}

fn join_pending(states: &Chain<FlowState>) -> (result: Chain<u32>)
    ensures
        result == pending_joined(*states),
    decreases states,
{
    match states {
        Chain::Empty => Chain::new(),
        Chain::Link(link) => unite_ids(
            &join_pending(&link.rest),
            &link.item.pending_must_scope_locals,
        ),
    }
}

pub open spec fn transferred_joined(states: Chain<FlowState>) -> Chain<u32>
    decreases states,
{
    match states {
        Chain::Empty => Chain::Empty,
        Chain::Link(link) => ids_united(
            transferred_joined(link.rest),
            link.item.transferred_must_scope_locals,
        ),
    }
}

fn join_transferred(states: &Chain<FlowState>) -> (result: Chain<u32>)
    ensures
        result == transferred_joined(*states),
    decreases states,
{
    match states {
        Chain::Empty => Chain::new(),
        Chain::Link(link) => unite_ids(
            &join_transferred(&link.rest),
            &link.item.transferred_must_scope_locals,
        ),
    }
}

/// The resources with one more in its place, unless it is there.
pub open spec fn suspend_kept(kept: Chain<NoSuspend>, item: NoSuspend) -> Chain<NoSuspend>
    decreases kept,
{
    match kept {
        Chain::Empty => kept.pushed(item),
        Chain::Link(link) => if link.item.local == item.local && link.item.region == item.region {
            kept
        } else if link.item.local.0 < item.local.0 || (link.item.local == item.local
            && link.item.region.0 < item.region.0) {
            kept.pushed(item)
        } else {
            suspend_kept(link.rest, item).pushed(link.item)
        },
    }
}

fn keep_suspend(kept: &Chain<NoSuspend>, item: NoSuspend) -> (result: Chain<NoSuspend>)
    ensures
        result == suspend_kept(*kept, item),
    decreases kept,
{
    match kept {
        Chain::Empty => kept.clone().with(item),
        Chain::Link(link) => if link.item.local == item.local && link.item.region == item.region {
            kept.clone()
        } else if link.item.local.0 < item.local.0 || (link.item.local == item.local
            && link.item.region.0 < item.region.0) {
            kept.clone().with(item)
        } else {
            keep_suspend(&link.rest, item).with(link.item)
        },
    }
}

pub open spec fn suspends_added(kept: Chain<NoSuspend>, items: Chain<NoSuspend>) -> Chain<NoSuspend>
    decreases items,
{
    match items {
        Chain::Empty => kept,
        Chain::Link(link) => suspend_kept(suspends_added(kept, link.rest), link.item),
    }
}

fn add_suspends(kept: &Chain<NoSuspend>, items: &Chain<NoSuspend>) -> (result: Chain<NoSuspend>)
    ensures
        result == suspends_added(*kept, *items),
    decreases items,
{
    match items {
        Chain::Empty => kept.clone(),
        Chain::Link(link) => keep_suspend(&add_suspends(kept, &link.rest), link.item),
    }
}

pub open spec fn suspends_joined(states: Chain<FlowState>) -> Chain<NoSuspend>
    decreases states,
{
    match states {
        Chain::Empty => Chain::Empty,
        Chain::Link(link) => suspends_added(
            suspends_joined(link.rest),
            link.item.active_no_suspend,
        ),
    }
}

fn join_suspends(states: &Chain<FlowState>) -> (result: Chain<NoSuspend>)
    ensures
        result == suspends_joined(*states),
    decreases states,
{
    match states {
        Chain::Empty => Chain::new(),
        Chain::Link(link) => add_suspends(
            &join_suspends(&link.rest),
            &link.item.active_no_suspend,
        ),
    }
}

/// The facts that hold in every state.
pub open spec fn facts_joined(states: Chain<FlowState>) -> ProofFacts
    decreases states,
{
    match states {
        Chain::Empty => ProofFacts::none(),
        Chain::Link(link) => match link.rest {
            Chain::Empty => link.item.proof_facts,
            Chain::Link(_) => ProofFacts {
                facts: facts_shared(facts_joined(link.rest).facts, link.item.proof_facts.facts),
            },
        },
    }
}

fn join_facts(states: &Chain<FlowState>) -> (result: ProofFacts)
    ensures
        result == facts_joined(*states),
    decreases states,
{
    match states {
        Chain::Empty => ProofFacts::new(),
        Chain::Link(link) => match &link.rest {
            Chain::Empty => link.item.proof_facts.clone(),
            Chain::Link(_) => ProofFacts {
                facts: share_facts(&join_facts(&link.rest).facts, &link.item.proof_facts.facts),
            },
        },
    }
}

/// The values that every state has.
pub open spec fn terms_joined(states: Chain<FlowState>) -> Chain<(u32, Rc<ProofTerm>)>
    decreases states,
{
    match states {
        Chain::Empty => Chain::Empty,
        Chain::Link(link) => match link.rest {
            Chain::Empty => link.item.local_terms,
            Chain::Link(_) => terms_shared(terms_joined(link.rest), link.item.local_terms),
        },
    }
}

fn join_terms(states: &Chain<FlowState>) -> (result: Chain<(u32, Rc<ProofTerm>)>)
    ensures
        result == terms_joined(*states),
    decreases states,
{
    match states {
        Chain::Empty => Chain::new(),
        Chain::Link(link) => match &link.rest {
            Chain::Empty => link.item.local_terms.clone(),
            Chain::Link(_) => share_terms(&join_terms(&link.rest), &link.item.local_terms),
        },
    }
}

/// The state of an obligation that all states agree on.
pub open spec fn obligation_agreed(
    states: Chain<FlowState>,
    owner: TaskObligationOwner,
) -> Option<TaskObligationState>
    decreases states,
{
    match states {
        Chain::Empty => None,
        Chain::Link(link) => match link.rest {
            Chain::Empty => obligation(link.item.task_obligations, owner),
            Chain::Link(_) => if obligation_agreed(link.rest, owner) == obligation(
                link.item.task_obligations,
                owner,
            ) {
                obligation_agreed(link.rest, owner)
            } else {
                None
            },
        },
    }
}

fn find_agreed(states: &Chain<FlowState>, owner: TaskObligationOwner) -> (state: Option<
    TaskObligationState,
>)
    ensures
        state == obligation_agreed(*states, owner),
    decreases states,
{
    match states {
        Chain::Empty => None,
        Chain::Link(link) => match &link.rest {
            Chain::Empty => find_obligation(&link.item.task_obligations, owner),
            Chain::Link(_) => {
                let before = find_agreed(&link.rest, owner);
                let here = find_obligation(&link.item.task_obligations, owner);
                match (before, here) {
                    (Some(a), Some(b)) => if a == b {
                        Some(a)
                    } else {
                        None
                    },
                    _ => None,
                }
            },
        },
    }
}

/// `joined`, with each obligation of `obligations` as all states agree on it,
/// or conditional.
pub open spec fn obligations_added(
    states: Chain<FlowState>,
    joined: Chain<(TaskObligationOwner, TaskObligationState)>,
    obligations: Chain<(TaskObligationOwner, TaskObligationState)>,
) -> Chain<(TaskObligationOwner, TaskObligationState)>
    decreases obligations,
{
    match obligations {
        Chain::Empty => joined,
        Chain::Link(link) => obligation_put(
            obligations_added(states, joined, link.rest),
            link.item.0,
            match obligation_agreed(states, link.item.0) {
                Some(state) => state,
                None => TaskObligationState::Conditional,
            },
        ),
    }
}

fn add_obligations(
    states: &Chain<FlowState>,
    joined: &Chain<(TaskObligationOwner, TaskObligationState)>,
    obligations: &Chain<(TaskObligationOwner, TaskObligationState)>,
) -> (result: Chain<(TaskObligationOwner, TaskObligationState)>)
    ensures
        result == obligations_added(*states, *joined, *obligations),
    decreases obligations,
{
    match obligations {
        Chain::Empty => joined.clone(),
        Chain::Link(link) => {
            let state = match find_agreed(states, link.item.0) {
                Some(state) => state,
                None => TaskObligationState::Conditional,
            };
            put_obligation(&add_obligations(states, joined, &link.rest), link.item.0, state)
        },
    }
}

/// The obligations of those of `rest`, as all of `states` agree on them.
pub open spec fn obligations_joined(
    states: Chain<FlowState>,
    rest: Chain<FlowState>,
) -> Chain<(TaskObligationOwner, TaskObligationState)>
    decreases rest,
{
    match rest {
        Chain::Empty => Chain::Empty,
        Chain::Link(link) => obligations_added(
            states,
            obligations_joined(states, link.rest),
            link.item.task_obligations,
        ),
    }
}

fn join_obligations(states: &Chain<FlowState>, rest: &Chain<FlowState>) -> (result: Chain<
    (TaskObligationOwner, TaskObligationState),
>)
    ensures
        result == obligations_joined(*states, *rest),
    decreases rest,
{
    match rest {
        Chain::Empty => Chain::new(),
        Chain::Link(link) => add_obligations(
            states,
            &join_obligations(states, &link.rest),
            &link.item.task_obligations,
        ),
    }
}

/// What is true where several paths meet.
#[verifier::opaque]
pub open spec fn joined(states: Chain<FlowState>) -> FlowState {
    FlowState {
        self_dirty: any_dirty(states),
        borrows: borrows_joined(states),
        pending_must_scope_locals: pending_joined(states),
        transferred_must_scope_locals: transferred_joined(states),
        active_no_suspend: suspends_joined(states),
        proof_facts: facts_joined(states),
        local_terms: terms_joined(states),
        task_obligations: obligations_joined(states, states),
    }
}

/// Joins the states of several paths.
pub fn join_flow_states(states: &Chain<FlowState>) -> (result: FlowState)
    ensures
        result == joined(*states),
{
    proof {
        reveal(joined);
    }
    FlowState {
        self_dirty: check_any_dirty(states),
        borrows: join_borrows(states),
        pending_must_scope_locals: join_pending(states),
        transferred_must_scope_locals: join_transferred(states),
        active_no_suspend: join_suspends(states),
        proof_facts: join_facts(states),
        local_terms: join_terms(states),
        task_obligations: join_obligations(states, states),
    }
}

/// Two states joined.
pub open spec fn joined_pair(left: FlowState, right: FlowState) -> FlowState {
    joined(Chain::Empty.pushed(left).pushed(right))
}

pub fn join_pair(left: FlowState, right: FlowState) -> (result: FlowState)
    ensures
        result == joined_pair(left, right),
{
    join_flow_states(&Chain::new().with(left).with(right))
}

} // verus!
