//! Borrows that are active while a call is checked, and what deferred
//! cleanups and loops do to the control flow.

use vstd::prelude::*;

use crate::chain::{Chain, Same};
#[allow(unused_imports)]
use crate::diagnostics::{adds_to, lemma_adds_nothing, lemma_adds_one, lemma_adds_through};
use crate::diagnostics::Diagnostic;
#[allow(unused_imports)]
use crate::diagnostics::labelled;
use crate::diagnostics::Message;
use crate::flow::{ActiveBorrow, BorrowIdentity, FlowState};
#[allow(unused_imports)]
use crate::growth::{later, lemma_later_itself, lemma_later_through};
use crate::hir::{DefinitionKind, Expr};
use crate::ids::{DefId, ExprId, RegionId, Span};
#[allow(unused_imports)]
use crate::semantics::overlapping;
use crate::semantics::{places_overlap, Coercion, Place, PlaceRoot};
#[allow(unused_imports)]
use crate::state::World;
use crate::state::{
    BodyChecker, Boundary, CheckState, Context, DeferredFlowEffect, InvariantMutation, PlaceAccess,
};
use crate::symbolic::ProofFacts;
use crate::table::{contains_id, insert_id};
#[allow(unused_imports)]
use crate::table::{has_id, id_inserted};
use crate::ty::{Mutability, TyData};
use crate::unify::longer;

verus! {

broadcast use {
    lemma_adds_nothing,
    lemma_adds_one,
    lemma_adds_through,
    lemma_later_itself,
    lemma_later_through,
};

/// The first borrow in the way of one that is about to start.
pub open spec fn borrow_in_the_way(
    borrows: Chain<ActiveBorrow>,
    owner: Place,
    exclusive: bool,
) -> Option<ActiveBorrow>
    decreases borrows,
{
    match borrows {
        Chain::Empty => None,
        Chain::Link(link) => match borrow_in_the_way(link.rest, owner, exclusive) {
            Some(found) => Some(found),
            None => if overlapping(link.item.owner, owner) && (exclusive || link.item.mutable) {
                Some(link.item)
            } else {
                None
            },
        },
    }
}

fn find_borrow_in_the_way(borrows: &Chain<ActiveBorrow>, owner: &Place, exclusive: bool) -> (result:
    Option<ActiveBorrow>)
    ensures
        result == borrow_in_the_way(*borrows, *owner, exclusive),
    decreases borrows,
{
    match borrows {
        Chain::Empty => None,
        Chain::Link(link) => match find_borrow_in_the_way(&link.rest, owner, exclusive) {
            Some(found) => Some(found),
            None => if places_overlap(&link.item.owner, owner) && (exclusive || link.item.mutable) {
                Some(link.item.clone())
            } else {
                None
            },
        },
    }
}

/// The borrows with another identity.
pub open spec fn borrows_without(
    borrows: Chain<ActiveBorrow>,
    identity: BorrowIdentity,
) -> Chain<ActiveBorrow>
    decreases borrows,
{
    match borrows {
        Chain::Empty => borrows,
        Chain::Link(link) => if link.item.identity != identity {
            borrows_without(link.rest, identity).pushed(link.item)
        } else {
            borrows_without(link.rest, identity)
        },
    }
}

fn remove_borrows(borrows: &Chain<ActiveBorrow>, identity: BorrowIdentity) -> (result: Chain<
    ActiveBorrow,
>)
    ensures
        result == borrows_without(*borrows, identity),
    decreases borrows,
{
    match borrows {
        Chain::Empty => Chain::new(),
        Chain::Link(link) => if link.item.identity != identity {
            remove_borrows(&link.rest, identity).with(link.item.clone())
        } else {
            remove_borrows(&link.rest, identity)
        },
    }
}

/// Expressions by id, with one more.
pub open spec fn boundary_inserted(boundaries: Chain<Boundary>, boundary: Boundary) -> Chain<
    Boundary,
>
    decreases boundaries,
{
    match boundaries {
        Chain::Empty => boundaries.pushed(boundary),
        Chain::Link(link) => if link.item.expression == boundary.expression {
            boundaries
        } else if link.item.expression < boundary.expression {
            boundaries.pushed(boundary)
        } else {
            boundary_inserted(link.rest, boundary).pushed(link.item)
        },
    }
}

fn insert_boundary(boundaries: &Chain<Boundary>, boundary: Boundary) -> (result: Chain<Boundary>)
    ensures
        result == boundary_inserted(*boundaries, boundary),
    decreases boundaries,
{
    match boundaries {
        Chain::Empty => boundaries.clone().with(boundary),
        Chain::Link(link) => if link.item.expression == boundary.expression {
            boundaries.clone()
        } else if link.item.expression < boundary.expression {
            boundaries.clone().with(boundary)
        } else {
            insert_boundary(&link.rest, boundary).with(link.item)
        },
    }
}

/// What is remembered of a receiver while the arguments of its call are
/// checked.
#[derive(Clone, Copy, Debug, PartialEq, Eq, Structural)]
pub struct InoutScope {
    pub scope: Option<u32>,
    pub receiver_uses_self: bool,
    pub dirty_before_arguments: bool,
    pub dirties_self: bool,
}

/// The place starts from the receiver of the method.
pub open spec fn is_self_place(place: Option<Place>) -> bool {
    match place {
        Some(place) => place.root == PlaceRoot::SelfValue,
        None => false,
    }
}

fn uses_self(place: &Option<Place>) -> (uses: bool)
    ensures
        uses == is_self_place(*place),
{
    match place {
        Some(place) => place.root == PlaceRoot::SelfValue,
        None => false,
    }
}

/// The record with an invariant that a field belongs to.
pub open spec fn guarded_owner(cx: &Context, field: DefId) -> Option<DefId> {
    match cx.program.kind_of(field) {
        Some(DefinitionKind::Field { owner, ty: _ }) => match cx.program.kind_of(owner) {
            Some(
                DefinitionKind::Record {
                    generic_params: _,
                    fields: _,
                    invariant_body: Some(_),
                },
            ) => Some(owner),
            _ => None,
        },
        _ => None,
    }
}

fn find_guarded_owner(cx: &Context, field: DefId) -> (owner: Option<DefId>)
    ensures
        owner == guarded_owner(cx, field),
{
    match cx.program.kind(field) {
        Some(DefinitionKind::Field { owner, ty: _ }) => match cx.program.kind(*owner) {
            Some(
                DefinitionKind::Record {
                    generic_params: _,
                    fields: _,
                    invariant_body: Some(_),
                },
            ) => Some(*owner),
            _ => None,
        },
        _ => None,
    }
}

/// Whether the fields lead through the invariant of `self_definition`, which
/// its own method restores; nothing if they lead through another invariant.
pub open spec fn crossed_invariant(
    cx: &Context,
    projections: Chain<DefId>,
    self_definition: Option<DefId>,
) -> Option<bool>
    decreases projections,
{
    match projections {
        Chain::Empty => Some(false),
        Chain::Link(link) => match crossed_invariant(cx, link.rest, self_definition) {
            None => None,
            Some(crosses) => match guarded_owner(cx, link.item) {
                None => Some(crosses),
                Some(owner) => if link.rest is Empty && self_definition == Some(owner) {
                    Some(true)
                } else {
                    None
                },
            },
        },
    }
}

fn find_crossed_invariant(
    cx: &Context,
    projections: &Chain<DefId>,
    self_definition: Option<DefId>,
) -> (crosses: Option<bool>)
    ensures
        crosses == crossed_invariant(cx, *projections, self_definition),
    decreases projections,
{
    match projections {
        Chain::Empty => Some(false),
        Chain::Link(link) => match find_crossed_invariant(cx, &link.rest, self_definition) {
            None => None,
            Some(crosses) => match find_guarded_owner(cx, link.item) {
                None => Some(crosses),
                Some(owner) => if link.rest.is_empty() && self_definition == Some(owner) {
                    Some(true)
                } else {
                    None
                },
            },
        },
    }
}

impl World {
    #[verifier::opaque]
    pub open spec fn push_borrow_conflict(self, conflict: ActiveBorrow, span: Span) -> World {
        match conflict.identity {
            BorrowIdentity::InOut(_) => self.report(
                labelled(
                    "InoutAliasConflict",
                    Message::Text("argument expression aliases an active mutable receiver"),
                    span,
                    conflict.span,
                    "exclusive mutable receiver access begins here",
                ),
            ),
            BorrowIdentity::Interface(_) => self.report(
                labelled(
                    if conflict.mutable {
                        "BorrowConflict"
                    } else {
                        "ReadonlyBorrowConflict"
                    },
                    Message::Text("argument use conflicts with an active interface call"),
                    span,
                    conflict.span,
                    "active interface access begins here",
                ),
            ),
        }
    }

    pub open spec fn with_borrows(self, borrows: Chain<ActiveBorrow>) -> World {
        self.with_flow(FlowState { borrows, ..self.st.flow })
    }

    #[verifier::opaque]
    pub open spec fn register_borrow(self, borrow: ActiveBorrow, span: Span) -> (World, bool) {
        let exclusive = borrow.mutable || match borrow.identity {
            BorrowIdentity::InOut(_) => true,
            BorrowIdentity::Interface(_) => false,
        };
        match borrow_in_the_way(self.st.flow.borrows, borrow.owner, exclusive) {
            Some(conflict) => (self.push_borrow_conflict(conflict, span), false),
            None => (self.with_borrows(self.st.flow.borrows.pushed(borrow)), true),
        }
    }

    #[verifier::opaque]
    pub open spec fn check_borrowed_place_use(
        self,
        place: Place,
        access: PlaceAccess,
        span: Span,
    ) -> World {
        match borrow_in_the_way(self.st.flow.borrows, place, access == PlaceAccess::Write) {
            Some(conflict) => self.push_borrow_conflict(conflict, span),
            None => self,
        }
    }

    /// The innermost lexical region.
    pub open spec fn region(self) -> RegionId {
        match self.st.regions {
            Chain::Empty => RegionId(0),
            Chain::Link(link) => link.item,
        }
    }

    pub open spec fn self_definition(self, cx: &Context, root: PlaceRoot) -> Option<DefId> {
        match root {
            PlaceRoot::SelfValue => match cx.environment.self_ty {
                Some(ty) => match self.data(ty) {
                    TyData::Nominal { definition, arguments: _ } => Some(definition),
                    _ => None,
                },
                None => None,
            },
            _ => None,
        }
    }

    /// Rejects a write through a record whose invariant is not rechecked by
    /// the current method. The result says that the write makes `self` dirty.
    #[verifier::opaque]
    pub open spec fn check_invariant_mutation_boundary(
        self,
        cx: &Context,
        span: Span,
        place: Place,
        mutation: InvariantMutation,
    ) -> (World, bool) {
        match crossed_invariant(cx, place.projections, self.self_definition(cx, place.root)) {
            Some(crosses) => (self, crosses && place.mutability == Mutability::Mutable),
            None => (
                self.text_error(
                    "InvariantInteriorMutation",
                    match mutation {
                        InvariantMutation::Assignment =>
                            "assignment cannot cross an invariant-bearing record boundary; replace the complete record or call its `mut self` method",
                        InvariantMutation::ReceiverCall =>
                            "a mutable receiver call cannot cross an invariant-bearing record boundary; call a `mut self` method on that record so its invariant is rechecked",
                    },
                    span,
                ),
                false,
            ),
        }
    }

    /// A receiver is borrowed while the arguments of its call are checked.
    #[verifier::opaque]
    pub open spec fn begin_inout(
        self,
        cx: &Context,
        receiver: ExprId,
        span: Span,
        enabled: bool,
    ) -> (
        World,
        InoutScope,
    ) {
        let place = self.place_of(receiver);
        let receiver_uses_self = is_self_place(place);
        let dirty_before_arguments = self.st.flow.self_dirty;
        match place {
            Some(owner) => if enabled {
                let (w, dirties_self) = self.check_invariant_mutation_boundary(
                    cx,
                    span,
                    owner,
                    InvariantMutation::ReceiverCall,
                );
                let scope = w.st.next_inout_scope;
                let next = World {
                    st: CheckState {
                        next_inout_scope: if scope < u32::MAX {
                            (scope + 1) as u32
                        } else {
                            scope
                        },
                        ..w.st
                    },
                    ..w
                };
                let (next, registered) = next.register_borrow(
                    ActiveBorrow {
                        owner,
                        mutable: false,
                        region: next.region(),
                        identity: BorrowIdentity::InOut(scope),
                        span,
                    },
                    span,
                );
                (
                    next,
                    InoutScope {
                        scope: if registered {
                            Some(scope)
                        } else {
                            None
                        },
                        receiver_uses_self,
                        dirty_before_arguments,
                        dirties_self,
                    },
                )
            } else {
                (
                    self,
                    InoutScope {
                        scope: None,
                        receiver_uses_self,
                        dirty_before_arguments,
                        dirties_self: false,
                    },
                )
            },
            None => (
                self,
                InoutScope {
                    scope: None,
                    receiver_uses_self,
                    dirty_before_arguments,
                    dirties_self: false,
                },
            ),
        }
    }

    pub open spec fn with_dirty(self, self_dirty: bool) -> World {
        self.with_flow(FlowState { self_dirty, ..self.st.flow })
    }

    /// The arguments of the call are checked.
    #[verifier::opaque]
    pub open spec fn end_inout(self, scope: InoutScope, span: Span) -> World {
        let w = match scope.scope {
            Some(id) => self.with_borrows(
                borrows_without(self.st.flow.borrows, BorrowIdentity::InOut(id)),
            ),
            None => self,
        };
        let w = if scope.receiver_uses_self && !scope.dirty_before_arguments
            && w.st.flow.self_dirty {
            w.text_error(
                "InvariantIsolationViolation",
                "a call argument mutated `self` before this receiver call could begin",
                span,
            )
        } else {
            w
        };
        if scope.dirties_self {
            w.with_dirty(true)
        } else {
            w
        }
    }

    #[verifier::opaque]
    pub open spec fn add_boundary(self, expression: ExprId, span: Span) -> World {
        World {
            st: CheckState {
                current_defer_self_boundaries: boundary_inserted(
                    self.st.current_defer_self_boundaries,
                    Boundary { expression: expression.0, span },
                ),
                ..self.st
            },
            ..self
        }
    }

    #[verifier::opaque]
    pub open spec fn check_receiver_isolation(self, receiver: ExprId, span: Span) -> World {
        let receiver_is_self = is_self_place(self.place_of(receiver));
        let w = if self.st.cleanup_depth > 0 && receiver_is_self {
            self.add_boundary(receiver, span)
        } else {
            self
        };
        if w.st.flow.self_dirty && receiver_is_self {
            w.text_error(
                "InvariantIsolationViolation",
                "a mutated receiver cannot be used for a nested method call",
                span,
            )
        } else {
            w
        }
    }

    /// The borrows of interface arguments end with the call. The first argument
    /// is left out where it is the receiver.
    #[verifier::opaque]
    pub open spec fn finish_call_arguments(self, arguments: Chain<Expr>, skip_first: bool) -> World
        decreases arguments,
    {
        match arguments {
            Chain::Empty => self,
            Chain::Link(link) => if skip_first && link.rest is Empty {
                self
            } else {
                let w = self.finish_call_arguments(link.rest, skip_first);
                match w.st.semantics.views.lookup(link.item.id.0) {
                    Some(view) => w.with_borrows(
                        borrows_without(w.st.flow.borrows, BorrowIdentity::Interface(view.token)),
                    ),
                    None => w,
                }
            },
        }
    }

    #[verifier::opaque]
    pub open spec fn report_boundaries(self, boundaries: Chain<Boundary>) -> World
        decreases boundaries,
    {
        match boundaries {
            Chain::Empty => self,
            Chain::Link(link) => {
                let w = self.report_boundaries(link.rest);
                if has_id(w.st.reported_defer_self_boundaries, link.item.expression) {
                    w
                } else {
                    World {
                        st: CheckState {
                            reported_defer_self_boundaries: id_inserted(
                                w.st.reported_defer_self_boundaries,
                                link.item.expression,
                            ),
                            ..w.st
                        },
                        ..w
                    }.text_error(
                        "InvariantIsolationViolation",
                        "a defer cleanup cannot use `self` after an earlier cleanup or scope exit has invalidated its invariant",
                        link.item.span,
                    )
                }
            },
        }
    }

    /// The cleanups that were deferred after `base` run, the last one first.
    #[verifier::opaque]
    pub open spec fn run_effects(
        self,
        effects: Chain<DeferredFlowEffect>,
        base: Chain<DeferredFlowEffect>,
        self_dirty: bool,
    ) -> (World, bool)
        decreases effects,
    {
        match effects {
            Chain::Empty => (self, self_dirty),
            Chain::Link(link) => if effects.spec_len() <= base.spec_len() {
                (self, self_dirty)
            } else {
                let w = if self_dirty {
                    self.report_boundaries(link.item.self_boundaries)
                } else {
                    self
                };
                w.run_effects(link.rest, base, self_dirty || link.item.makes_self_dirty)
            },
        }
    }

    /// The state of the flow after the cleanups deferred after `base`.
    #[verifier::opaque]
    pub open spec fn apply_defer_effects(
        self,
        state: FlowState,
        base: Chain<DeferredFlowEffect>,
    ) -> (World, FlowState) {
        if self.st.active_defer_effects.spec_len() <= base.spec_len() {
            (self, state)
        } else {
            let (w, self_dirty) = self.run_effects(
                self.st.active_defer_effects,
                base,
                state.self_dirty,
            );
            (w, FlowState { self_dirty, ..state.without_proofs() })
        }
    }

    #[verifier::opaque]
    pub open spec fn check_loop_backedge_state(
        self,
        header: FlowState,
        backedge: FlowState,
        span: Span,
    ) -> World {
        let w = if header.self_dirty != backedge.self_dirty {
            self.text_error(
                "LoopReceiverInvariantNotRestored",
                "every continuing loop path must restore the receiver invariant state before the next iteration",
                span,
            )
        } else {
            self
        };
        let w = if header.borrows != backedge.borrows || header.active_no_suspend
            != backedge.active_no_suspend {
            w.text_error(
                "LoopBorrowStateNotRestored",
                "every continuing loop path must restore its borrow and NoSuspend state before the next iteration",
                span,
            )
        } else {
            w
        };
        if header.task_obligations != backedge.task_obligations || header.pending_must_scope_locals
            != backedge.pending_must_scope_locals || header.transferred_must_scope_locals
            != backedge.transferred_must_scope_locals {
            w.text_error(
                "LoopObligationStateNotRestored",
                "every continuing loop path must restore its Task and MustScope obligations before the next iteration",
                span,
            )
        } else {
            w
        }
    }

    /// Control does not come back from the expression.
    #[verifier::opaque]
    pub open spec fn expression_diverges(self, expression: ExprId) -> bool {
        (match self.type_of(expression) {
            Some(ty) => self.data(ty) is Never,
            None => false,
        }) || self.st.semantics.expression_coercions.lookup(expression.0) == Some(
            Coercion::NeverToAny,
        )
    }
}

impl BodyChecker {
    fn push_borrow_conflict(&mut self, conflict: &ActiveBorrow, span: Span)
        ensures
            adds_to(old(self)@.st.diagnostics, final(self)@.st.diagnostics),
            final(self)@.types == old(self)@.types,
            final(self)@ == old(self)@.push_borrow_conflict(*conflict, span),
    {
        proof {
            reveal(World::push_borrow_conflict);
        }
        match conflict.identity {
            BorrowIdentity::InOut(_) => self.report(
                Diagnostic::error(
                    "InoutAliasConflict",
                    Message::Text("argument expression aliases an active mutable receiver"),
                    span,
                ).with_label(conflict.span, "exclusive mutable receiver access begins here"),
            ),
            BorrowIdentity::Interface(_) => self.report(
                Diagnostic::error(
                    if conflict.mutable {
                        "BorrowConflict"
                    } else {
                        "ReadonlyBorrowConflict"
                    },
                    Message::Text("argument use conflicts with an active interface call"),
                    span,
                ).with_label(conflict.span, "active interface access begins here"),
            ),
        }
    }

    pub fn register_borrow(&mut self, borrow: ActiveBorrow, span: Span) -> (registered: bool)
        ensures
            adds_to(old(self)@.st.diagnostics, final(self)@.st.diagnostics),
            final(self)@.types == old(self)@.types,
            (final(self)@, registered) == old(self)@.register_borrow(borrow, span),
    {
        proof {
            reveal(World::register_borrow);
        }
        let exclusive = borrow.mutable || match borrow.identity {
            BorrowIdentity::InOut(_) => true,
            BorrowIdentity::Interface(_) => false,
        };
        match find_borrow_in_the_way(&self.st.flow.borrows, &borrow.owner, exclusive) {
            Some(conflict) => {
                self.push_borrow_conflict(&conflict, span);
                false
            },
            None => {
                self.st.flow.borrows.push(borrow);
                true
            },
        }
    }

    pub fn check_borrowed_place_use(&mut self, place: &Place, access: PlaceAccess, span: Span)
        ensures
            adds_to(old(self)@.st.diagnostics, final(self)@.st.diagnostics),
            final(self)@.types == old(self)@.types,
            final(self)@ == old(self)@.check_borrowed_place_use(*place, access, span),
    {
        proof {
            reveal(World::check_borrowed_place_use);
        }
        match find_borrow_in_the_way(
            &self.st.flow.borrows,
            place,
            access == PlaceAccess::Write,
        ) {
            Some(conflict) => self.push_borrow_conflict(&conflict, span),
            None => {},
        }
    }

    pub fn region(&self) -> (region: RegionId)
        ensures
            region == self@.region(),
    {
        match &self.st.regions {
            Chain::Empty => RegionId(0),
            Chain::Link(link) => link.item,
        }
    }

    fn self_definition(&self, cx: &Context, root: PlaceRoot) -> (definition: Option<DefId>)
        requires
            self.wf(),
        ensures
            definition == self@.self_definition(cx, root),
    {
        match root {
            PlaceRoot::SelfValue => match cx.environment.self_ty {
                Some(ty) => match self.data(ty) {
                    TyData::Nominal { definition, arguments: _ } => Some(definition),
                    _ => None,
                },
                None => None,
            },
            _ => None,
        }
    }

    pub fn check_invariant_mutation_boundary(
        &mut self,
        cx: &Context,
        span: Span,
        place: &Place,
        mutation: InvariantMutation,
    ) -> (dirties: bool)
        requires
            old(self).wf(),
        ensures
            adds_to(old(self)@.st.diagnostics, final(self)@.st.diagnostics),
            final(self).wf(),
            later(old(self)@.types, final(self)@.types),
            (final(self)@, dirties) == old(self)@.check_invariant_mutation_boundary(
                cx,
                span,
                *place,
                mutation,
            ),
    {
        proof {
            reveal(World::check_invariant_mutation_boundary);
        }
        let self_definition = self.self_definition(cx, place.root);
        match find_crossed_invariant(cx, &place.projections, self_definition) {
            Some(crosses) => crosses && place.mutability == Mutability::Mutable,
            None => {
                self.text_error(
                    "InvariantInteriorMutation",
                    match mutation {
                        InvariantMutation::Assignment =>
                            "assignment cannot cross an invariant-bearing record boundary; replace the complete record or call its `mut self` method",
                        InvariantMutation::ReceiverCall =>
                            "a mutable receiver call cannot cross an invariant-bearing record boundary; call a `mut self` method on that record so its invariant is rechecked",
                    },
                    span,
                );
                false
            },
        }
    }

    pub fn begin_inout(
        &mut self,
        cx: &Context,
        receiver: ExprId,
        span: Span,
        enabled: bool,
    ) -> (scope:
        InoutScope)
        requires
            old(self).wf(),
        ensures
            adds_to(old(self)@.st.diagnostics, final(self)@.st.diagnostics),
            final(self).wf(),
            later(old(self)@.types, final(self)@.types),
            (final(self)@, scope) == old(self)@.begin_inout(cx, receiver, span, enabled),
    {
        proof {
            reveal(World::begin_inout);
        }
        let place = self.place(receiver);
        let receiver_uses_self = uses_self(&place);
        let dirty_before_arguments = self.st.flow.self_dirty;
        if enabled {
            match place {
                Some(owner) => {
                    let dirties_self = self.check_invariant_mutation_boundary(
                        cx,
                        span,
                        &owner,
                        InvariantMutation::ReceiverCall,
                    );
                    let scope: u32 = self.st.next_inout_scope;
                    if scope < u32::MAX {
                        self.st.next_inout_scope = scope + 1;
                    }
                    let region = self.region();
                    let registered = self.register_borrow(
                        ActiveBorrow {
                            owner,
                            mutable: false,
                            region,
                            identity: BorrowIdentity::InOut(scope),
                            span,
                        },
                        span,
                    );
                    return InoutScope {
                        scope: if registered {
                            Some(scope)
                        } else {
                            None
                        },
                        receiver_uses_self,
                        dirty_before_arguments,
                        dirties_self,
                    };
                },
                None => {},
            }
        }
        InoutScope { scope: None, receiver_uses_self, dirty_before_arguments, dirties_self: false }
    }

    pub fn end_inout(&mut self, scope: InoutScope, span: Span)
        ensures
            adds_to(old(self)@.st.diagnostics, final(self)@.st.diagnostics),
            final(self)@.types == old(self)@.types,
            final(self)@ == old(self)@.end_inout(scope, span),
    {
        proof {
            reveal(World::end_inout);
        }
        match scope.scope {
            Some(id) => {
                self.st.flow.borrows = remove_borrows(
                    &self.st.flow.borrows,
                    BorrowIdentity::InOut(id),
                );
            },
            None => {},
        }
        if scope.receiver_uses_self && !scope.dirty_before_arguments && self.st.flow.self_dirty {
            self.text_error(
                "InvariantIsolationViolation",
                "a call argument mutated `self` before this receiver call could begin",
                span,
            );
        }
        if scope.dirties_self {
            self.st.flow.self_dirty = true;
        }
    }

    pub fn add_boundary(&mut self, expression: ExprId, span: Span)
        ensures
            adds_to(old(self)@.st.diagnostics, final(self)@.st.diagnostics),
            final(self)@.types == old(self)@.types,
            final(self)@ == old(self)@.add_boundary(expression, span),
    {
        proof {
            reveal(World::add_boundary);
        }
        self.st.current_defer_self_boundaries = insert_boundary(
            &self.st.current_defer_self_boundaries,
            Boundary { expression: expression.0, span },
        );
    }

    pub fn check_receiver_isolation(&mut self, receiver: ExprId, span: Span)
        ensures
            adds_to(old(self)@.st.diagnostics, final(self)@.st.diagnostics),
            final(self)@.types == old(self)@.types,
            final(self)@ == old(self)@.check_receiver_isolation(receiver, span),
    {
        proof {
            reveal(World::check_receiver_isolation);
        }
        let place = self.place(receiver);
        let receiver_is_self = uses_self(&place);
        if self.st.cleanup_depth > 0 && receiver_is_self {
            self.add_boundary(receiver, span);
        }
        if self.st.flow.self_dirty && receiver_is_self {
            self.text_error(
                "InvariantIsolationViolation",
                "a mutated receiver cannot be used for a nested method call",
                span,
            );
        }
    }

    pub fn finish_call_arguments(&mut self, arguments: &Chain<Expr>, skip_first: bool)
        ensures
            adds_to(old(self)@.st.diagnostics, final(self)@.st.diagnostics),
            final(self)@.types == old(self)@.types,
            final(self)@ == old(self)@.finish_call_arguments(*arguments, skip_first),
        decreases arguments,
    {
        proof {
            reveal(World::finish_call_arguments);
        }
        match arguments {
            Chain::Empty => {},
            Chain::Link(link) => {
                if skip_first && link.rest.is_empty() {
                    return;
                }
                self.finish_call_arguments(&link.rest, skip_first);
                match self.st.semantics.views.get(link.item.id.0) {
                    Some(view) => {
                        let token: u32 = view.token;
                        self.st.flow.borrows = remove_borrows(
                            &self.st.flow.borrows,
                            BorrowIdentity::Interface(token),
                        );
                    },
                    None => {},
                }
            },
        }
    }

    fn report_boundaries(&mut self, boundaries: &Chain<Boundary>)
        ensures
            adds_to(old(self)@.st.diagnostics, final(self)@.st.diagnostics),
            final(self)@.types == old(self)@.types,
            final(self)@ == old(self)@.report_boundaries(*boundaries),
        decreases boundaries,
    {
        proof {
            reveal(World::report_boundaries);
        }
        match boundaries {
            Chain::Empty => {},
            Chain::Link(link) => {
                self.report_boundaries(&link.rest);
                if !contains_id(&self.st.reported_defer_self_boundaries, link.item.expression) {
                    self.st.reported_defer_self_boundaries = insert_id(
                        &self.st.reported_defer_self_boundaries,
                        link.item.expression,
                    );
                    self.text_error(
                        "InvariantIsolationViolation",
                        "a defer cleanup cannot use `self` after an earlier cleanup or scope exit has invalidated its invariant",
                        link.item.span,
                    );
                }
            },
        }
    }

    fn run_effects(
        &mut self,
        effects: &Chain<DeferredFlowEffect>,
        base: &Chain<DeferredFlowEffect>,
        self_dirty: bool,
    ) -> (dirty: bool)
        ensures
            adds_to(old(self)@.st.diagnostics, final(self)@.st.diagnostics),
            final(self)@.types == old(self)@.types,
            (final(self)@, dirty) == old(self)@.run_effects(*effects, *base, self_dirty),
        decreases effects,
    {
        proof {
            reveal(World::run_effects);
        }
        match effects {
            Chain::Empty => self_dirty,
            Chain::Link(link) => if !longer(effects, base) {
                self_dirty
            } else {
                if self_dirty {
                    self.report_boundaries(&link.item.self_boundaries);
                }
                self.run_effects(&link.rest, base, self_dirty || link.item.makes_self_dirty)
            },
        }
    }

    pub fn apply_defer_effects(
        &mut self,
        state: FlowState,
        base: &Chain<DeferredFlowEffect>,
    ) -> (result:
        FlowState)
        ensures
            adds_to(old(self)@.st.diagnostics, final(self)@.st.diagnostics),
            final(self)@.types == old(self)@.types,
            (final(self)@, result) == old(self)@.apply_defer_effects(state, *base),
    {
        proof {
            reveal(World::apply_defer_effects);
        }
        if !longer(&self.st.active_defer_effects, base) {
            return state;
        }
        let effects = self.st.active_defer_effects.clone();
        let self_dirty = self.run_effects(&effects, base, state.self_dirty);
        FlowState { self_dirty, proof_facts: ProofFacts::new(), local_terms: Chain::new(), ..state }
    }

    pub fn check_loop_backedge_state(
        &mut self,
        header: &FlowState,
        backedge: &FlowState,
        span: Span,
    )
        ensures
            adds_to(old(self)@.st.diagnostics, final(self)@.st.diagnostics),
            final(self)@.types == old(self)@.types,
            final(self)@ == old(self)@.check_loop_backedge_state(*header, *backedge, span),
    {
        proof {
            reveal(World::check_loop_backedge_state);
        }
        if header.self_dirty != backedge.self_dirty {
            self.text_error(
                "LoopReceiverInvariantNotRestored",
                "every continuing loop path must restore the receiver invariant state before the next iteration",
                span,
            );
        }
        if !header.borrows.same(&backedge.borrows) || !header.active_no_suspend.same(
            &backedge.active_no_suspend,
        ) {
            self.text_error(
                "LoopBorrowStateNotRestored",
                "every continuing loop path must restore its borrow and NoSuspend state before the next iteration",
                span,
            );
        }
        if !header.task_obligations.same(&backedge.task_obligations)
            || !header.pending_must_scope_locals.same(&backedge.pending_must_scope_locals)
            || !header.transferred_must_scope_locals.same(&backedge.transferred_must_scope_locals) {
            self.text_error(
                "LoopObligationStateNotRestored",
                "every continuing loop path must restore its Task and MustScope obligations before the next iteration",
                span,
            );
        }
    }

    pub fn expression_diverges(&self, expression: ExprId) -> (diverges: bool)
        requires
            self.wf(),
        ensures
            diverges == self@.expression_diverges(expression),
    {
        proof {
            reveal(World::expression_diverges);
        }
        let never = match self.type_of(expression) {
            Some(ty) => match self.data(ty) {
                TyData::Never => true,
                _ => false,
            },
            None => false,
        };
        never || match self.st.semantics.expression_coercions.get(expression.0) {
            Some(Coercion::NeverToAny) => true,
            _ => false,
        }
    }
}

} // verus!
