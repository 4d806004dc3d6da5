//! Borrows keep each other out, resources are scoped, and statements lose
//! nothing that must be cared for.

use vstd::prelude::*;

use crate::borrows::{borrow_in_the_way, borrows_without, InoutScope};
use crate::chain::Chain;
use crate::diagnostics::{reported, Diagnostic};
use crate::flow::{ActiveBorrow, BorrowIdentity, FlowState, NoSuspend};
use crate::hir::Expr;
use crate::ids::{ExprId, LocalId, RegionId, Span, TyId};
use crate::semantics::{overlapping, Place, PlaceRoot};
use crate::state::{Context, PlaceAccess, World};
use crate::statements::{borrows_outside, outside_region};
use crate::table::{has_id, law_insert_id, law_remove_id};
use crate::ty::{BuiltinType, TyData};

verus! {

/// A borrow among those that are active keeps others from a place: it is of an
/// overlapping place, and it or the other is exclusive.
pub open spec fn kept_out(borrows: Chain<ActiveBorrow>, place: Place, exclusive: bool) -> bool
    decreases borrows,
{
    match borrows {
        Chain::Empty => false,
        Chain::Link(link) => kept_out(link.rest, place, exclusive) || overlapping(
            link.item.owner,
            place,
        ) && (exclusive || link.item.mutable),
    }
}

proof fn lemma_in_the_way(borrows: Chain<ActiveBorrow>, place: Place, exclusive: bool)
    ensures
        borrow_in_the_way(borrows, place, exclusive) is Some <==> kept_out(
            borrows,
            place,
            exclusive,
        ),
        match borrow_in_the_way(borrows, place, exclusive) {
            Some(found) => overlapping(found.owner, place) && (exclusive || found.mutable)
                && borrows.seq().contains(found),
            None => true,
        },
    decreases borrows,
{
    if borrows is Link {
        let last = borrows->0.item;
        let rest = borrows.without_last();
        lemma_in_the_way(rest, place, exclusive);
        assert(borrows.seq() == rest.seq().push(last));
        assert(borrows.seq()[rest.seq().len() as int] == last);
        match borrow_in_the_way(rest, place, exclusive) {
            Some(found) => {
                let i = choose|i: int| 0 <= i < rest.seq().len() && rest.seq()[i] == found;
                assert(borrows.seq()[i] == found);
            },
            None => {},
        }
    }
}

/// One error was reported at `span`, with a label at the borrow in the way.
pub open spec fn conflict_reported(
    before: Chain<Diagnostic>,
    after: Chain<Diagnostic>,
    span: Span,
) -> bool {
    match after {
        Chain::Empty => false,
        Chain::Link(link) => {
            &&& link.rest == before
            &&& link.item.primary == span
            &&& link.item.code == "InoutAliasConflict" || link.item.code == "BorrowConflict"
                || link.item.code == "ReadonlyBorrowConflict"
            &&& link.item.labels is Link
        },
    }
}

/// A place is used: that is an error exactly if an active borrow keeps others
/// from it, of any kind if it is written and an exclusive one if it is read.
pub proof fn law_borrowed_places(w: World, place: Place, access: PlaceAccess, span: Span)
    ensures
        ({
            let after = w.check_borrowed_place_use(place, access, span);
            let out = kept_out(w.st.flow.borrows, place, access == PlaceAccess::Write);
            &&& !out ==> after == w
            &&& out ==> conflict_reported(w.st.diagnostics, after.st.diagnostics, span)
            &&& after.st.flow == w.st.flow
        }),
{
    reveal(World::check_borrowed_place_use);
    reveal(World::push_borrow_conflict);
    reveal(World::report);
    lemma_in_the_way(w.st.flow.borrows, place, access == PlaceAccess::Write);
}

/// A borrow starts unless another keeps it out, which is reported. The receiver
/// of a call that changes it is borrowed exclusively.
pub proof fn law_borrows_start(w: World, borrow: ActiveBorrow, span: Span)
    ensures
        ({
            let (after, started) = w.register_borrow(borrow, span);
            let exclusive = borrow.mutable || borrow.identity is InOut;
            &&& started <==> !kept_out(w.st.flow.borrows, borrow.owner, exclusive)
            &&& started ==> after.st.diagnostics == w.st.diagnostics && after.st.flow
                == (FlowState { borrows: w.st.flow.borrows.pushed(borrow), ..w.st.flow })
            &&& !started ==> conflict_reported(w.st.diagnostics, after.st.diagnostics, span)
                && after.st.flow == w.st.flow
        }),
{
    reveal(World::register_borrow);
    reveal(World::push_borrow_conflict);
    reveal(World::report);
    let exclusive = borrow.mutable || borrow.identity is InOut;
    lemma_in_the_way(w.st.flow.borrows, borrow.owner, exclusive);
}

/// While an exclusive borrow of a place is active, every use of an overlapping
/// place is an error; while any borrow is, every write to one is.
pub proof fn law_borrows_keep_others_out(
    w: World,
    borrow: ActiveBorrow,
    span: Span,
    place: Place,
    access: PlaceAccess,
    at: Span,
)
    requires
        w.register_borrow(borrow, span).1,
        overlapping(borrow.owner, place),
        borrow.mutable || access == PlaceAccess::Write,
    ensures
        ({
            let held = w.register_borrow(borrow, span).0;
            conflict_reported(
                held.st.diagnostics,
                held.check_borrowed_place_use(place, access, at).st.diagnostics,
                at,
            )
        }),
{
    let held = w.register_borrow(borrow, span).0;
    law_borrows_start(w, borrow, span);
    law_borrowed_places(held, place, access, at);
}

proof fn lemma_without(borrows: Chain<ActiveBorrow>, identity: BorrowIdentity, borrow: ActiveBorrow)
    ensures
        borrows_without(borrows, identity).seq().contains(borrow) <==> borrows.seq().contains(
            borrow,
        ) && borrow.identity != identity,
    decreases borrows,
{
    if borrows is Link {
        let last = borrows->0.item;
        let rest = borrows.without_last();
        lemma_without(rest, identity, borrow);
        lemma_pushed(rest, last, borrow);
        lemma_pushed(borrows_without(rest, identity), last, borrow);
    }
}

proof fn lemma_pushed<T>(list: Chain<T>, last: T, item: T)
    ensures
        list.pushed(last).seq().contains(item) <==> list.seq().contains(item) || item == last,
{
    let longer = list.pushed(last).seq();
    assert(longer == list.seq().push(last));
    assert(longer[list.seq().len() as int] == last);
    if list.seq().contains(item) {
        let i = choose|i: int| 0 <= i < list.seq().len() && list.seq()[i] == item;
        assert(longer[i] == item);
    }
}

/// A borrow that ends is active no more, and every other stays.
pub proof fn law_borrows_end(
    borrows: Chain<ActiveBorrow>,
    identity: BorrowIdentity,
    borrow: ActiveBorrow,
)
    ensures
        borrows_without(borrows, identity).seq().contains(borrow) <==> borrows.seq().contains(
            borrow,
        ) && borrow.identity != identity,
{
    lemma_without(borrows, identity, borrow);
}

proof fn lemma_outside(borrows: Chain<ActiveBorrow>, region: RegionId, borrow: ActiveBorrow)
    ensures
        borrows_outside(borrows, region).seq().contains(borrow) <==> borrows.seq().contains(borrow)
            && borrow.region != region,
    decreases borrows,
{
    if borrows is Link {
        let last = borrows->0.item;
        let rest = borrows.without_last();
        lemma_outside(rest, region, borrow);
        lemma_pushed(rest, last, borrow);
        lemma_pushed(borrows_outside(rest, region), last, borrow);
    }
}

proof fn lemma_awake_outside(active: Chain<NoSuspend>, region: RegionId, resource: NoSuspend)
    ensures
        outside_region(active, region).seq().contains(resource) <==> active.seq().contains(resource)
            && resource.region != region,
    decreases active,
{
    if active is Link {
        let last = active->0.item;
        let rest = active.without_last();
        lemma_awake_outside(rest, region, resource);
        lemma_pushed(rest, last, resource);
        lemma_pushed(outside_region(rest, region), last, resource);
    }
}

/// Where a region is left, exactly its borrows and its resources end.
pub proof fn law_regions_end(w: World, region: RegionId, borrow: ActiveBorrow, resource: NoSuspend)
    ensures
        ({
            let after = w.leave_region(region);
            &&& after.st.flow.borrows.seq().contains(borrow) <==> w.st.flow.borrows.seq().contains(
                borrow,
            ) && borrow.region != region
            &&& after.st.flow.active_no_suspend.seq().contains(resource)
                <==> w.st.flow.active_no_suspend.seq().contains(resource) && resource.region
                != region
            &&& after.st.flow.task_obligations == w.st.flow.task_obligations
            &&& after.st.flow.self_dirty == w.st.flow.self_dirty
            &&& after.st.diagnostics == w.st.diagnostics
        }),
{
    reveal(World::leave_region);
    lemma_outside(w.st.flow.borrows, region, borrow);
    lemma_awake_outside(w.st.flow.active_no_suspend, region, resource);
}

/// A receiver that was changed without its invariant being restored cannot be
/// the receiver of another call; any other may.
pub proof fn law_dirty_receivers(w: World, receiver: ExprId, span: Span)
    ensures
        ({
            let after = w.check_receiver_isolation(receiver, span);
            let of_self = match w.place_of(receiver) {
                Some(place) => place.root == PlaceRoot::SelfValue,
                None => false,
            };
            &&& of_self && w.st.flow.self_dirty ==> reported(
                w.st.diagnostics,
                after.st.diagnostics,
                "InvariantIsolationViolation",
                span,
            )
            &&& !(of_self && w.st.flow.self_dirty) ==> after.st.diagnostics == w.st.diagnostics
            &&& after.st.flow == w.st.flow
        }),
{
    reveal(World::check_receiver_isolation);
    reveal(World::add_boundary);
    reveal(World::report);
}

/// The arguments of a call on `self` must not change `self` before the call
/// begins; a call that changes `self` leaves it changed, and its borrow ends.
pub proof fn law_calls_on_self(w: World, scope: InoutScope, span: Span, borrow: ActiveBorrow)
    ensures
        ({
            let after = w.end_inout(scope, span);
            let spoilt = scope.receiver_uses_self && !scope.dirty_before_arguments
                && w.st.flow.self_dirty;
            &&& spoilt ==> reported(
                w.st.diagnostics,
                after.st.diagnostics,
                "InvariantIsolationViolation",
                span,
            )
            &&& !spoilt ==> after.st.diagnostics == w.st.diagnostics
            &&& after.st.flow.self_dirty == (w.st.flow.self_dirty || scope.dirties_self)
            &&& match scope.scope {
                Some(id) => after.st.flow.borrows.seq().contains(borrow)
                    <==> w.st.flow.borrows.seq().contains(borrow) && borrow.identity
                    != BorrowIdentity::InOut(id),
                None => after.st.flow.borrows == w.st.flow.borrows,
            }
            &&& after.st.flow.task_obligations == w.st.flow.task_obligations
        }),
{
    reveal(World::end_inout);
    reveal(World::report);
    match scope.scope {
        Some(id) => lemma_without(w.st.flow.borrows, BorrowIdentity::InOut(id), borrow),
        None => {},
    }
}

/// A way back to the start of a loop is accepted exactly if it restores what
/// the loop was entered with: the receiver, the borrows, the resources that
/// must not sleep, the tasks, and what must be scoped.
pub proof fn law_loops_restore(w: World, header: FlowState, backedge: FlowState, span: Span)
    ensures
        ({
            let after = w.check_loop_backedge_state(header, backedge, span);
            let receiver = header.self_dirty == backedge.self_dirty;
            let borrows = header.borrows == backedge.borrows && header.active_no_suspend
                == backedge.active_no_suspend;
            let duties = header.task_obligations == backedge.task_obligations
                && header.pending_must_scope_locals == backedge.pending_must_scope_locals
                && header.transferred_must_scope_locals == backedge.transferred_must_scope_locals;
            &&& receiver && borrows && duties <==> after == w
            &&& receiver && borrows && !duties ==> reported(
                w.st.diagnostics,
                after.st.diagnostics,
                "LoopObligationStateNotRestored",
                span,
            )
            &&& receiver && !borrows && duties ==> reported(
                w.st.diagnostics,
                after.st.diagnostics,
                "LoopBorrowStateNotRestored",
                span,
            )
            &&& !receiver && borrows && duties ==> reported(
                w.st.diagnostics,
                after.st.diagnostics,
                "LoopReceiverInvariantNotRestored",
                span,
            )
            &&& after.st.diagnostics.spec_len() == w.st.diagnostics.spec_len() + (if receiver {
                0int
            } else {
                1
            }) + (if borrows {
                0int
            } else {
                1
            }) + (if duties {
                0int
            } else {
                1
            })
        }),
{
    reveal(World::check_loop_backedge_state);
    reveal(World::report);
    reveal_with_fuel(Chain::<_>::spec_len, 5);
}

/// A resource that waits for its `scoped` is moved by it, once: using it
/// anywhere else is an error, and so is using it again.
pub proof fn law_resources_move_once(w: World, e: Expr, local: LocalId, other: LocalId)
    requires
        !w.st.checking_discard_operand,
        !has_id(w.st.scoped_locals, local.0),
    ensures
        ({
            let after = w.use_must_scope_local(e, local);
            let waits = has_id(w.st.flow.pending_must_scope_locals, local.0);
            let moved = has_id(w.st.flow.transferred_must_scope_locals, local.0);
            let moving = w.st.scoped_initializer == Some(e.id);
            &&& !waits && !moved ==> after == w
            &&& waits && moving && !moved ==> {
                &&& after.st.diagnostics == w.st.diagnostics
                &&& !has_id(after.st.flow.pending_must_scope_locals, local.0)
                &&& has_id(after.st.flow.transferred_must_scope_locals, local.0)
                &&& other != local ==> has_id(after.st.flow.pending_must_scope_locals, other.0)
                    == has_id(w.st.flow.pending_must_scope_locals, other.0)
                &&& other != local ==> has_id(after.st.flow.transferred_must_scope_locals, other.0)
                    == has_id(w.st.flow.transferred_must_scope_locals, other.0)
            }
            &&& waits && !moving && !moved ==> reported(
                w.st.diagnostics,
                after.st.diagnostics,
                "MustScopeRequiresScoped",
                e.span,
            ) && after.st.flow == w.st.flow
            &&& !waits && moved ==> reported(
                w.st.diagnostics,
                after.st.diagnostics,
                "MustScopeAlreadyTransferred",
                e.span,
            ) && after.st.flow == w.st.flow
        }),
{
    reveal(World::use_must_scope_local);
    reveal(World::report);
    law_remove_id(w.st.flow.pending_must_scope_locals, local.0, local.0);
    law_remove_id(w.st.flow.pending_must_scope_locals, local.0, other.0);
    law_insert_id(w.st.flow.transferred_must_scope_locals, local.0, local.0);
    law_insert_id(w.st.flow.transferred_must_scope_locals, local.0, other.0);
}

/// A scoped resource is used only as a receiver, or where it is assigned to or
/// discarded: anywhere else it would be copied, which is an error.
pub proof fn law_scoped_values_stay(w: World, e: Expr, local: LocalId)
    requires
        !has_id(w.st.flow.pending_must_scope_locals, local.0),
        !has_id(w.st.flow.transferred_must_scope_locals, local.0),
    ensures
        ({
            let after = w.use_must_scope_local(e, local);
            let copied = has_id(w.st.scoped_locals, local.0) && !w.st.checking_assignment_target
                && !w.st.checking_scoped_receiver && !w.st.checking_discard_operand;
            &&& copied ==> reported(
                w.st.diagnostics,
                after.st.diagnostics,
                "ScopedValueCopy",
                e.span,
            )
            &&& !copied ==> after == w
        }),
{
    reveal(World::use_must_scope_local);
    reveal(World::report);
}

/// An ordinary binding of a value that must be scoped is an error, and of any
/// other is none.
pub proof fn law_unscoped_bindings(
    w: World,
    cx: &Context,
    local: LocalId,
    ty: TyId,
    text: &'static str,
)
    ensures
        ({
            let (asked, must) = w.has_must_scope_obligation(cx, ty);
            let after = w.reject_unscoped(cx, local, ty, text);
            &&& must ==> reported(
                asked.st.diagnostics,
                after.st.diagnostics,
                "MustScopeRequiresScoped",
                cx.local_span_of(local),
            )
            &&& !must ==> after == asked
        }),
{
    reveal(World::reject_unscoped);
    reveal(World::report);
}

/// A value that stands as a statement must be the unit value: any other is
/// reported, by what is lost with it.
pub proof fn law_unused_values(w: World, cx: &Context, e: Expr, ty: TyId)
    ensures
        ({
            let after = w.end_expr_statement(cx, e, ty);
            let (asked, must) = w.has_must_scope_obligation(cx, ty);
            let (again, task) = asked.has_task_obligation(cx, ty);
            let harmless = w.data(ty) == TyData::Never || w.data(ty) == TyData::Error || w.data(ty)
                == TyData::Builtin(BuiltinType::Unit);
            &&& harmless ==> after == w
            &&& !harmless && must ==> reported(
                w.st.diagnostics,
                after.st.diagnostics,
                "MustScopeRequiresScoped",
                e.span,
            )
            &&& !harmless && !must && task ==> reported(
                w.st.diagnostics,
                after.st.diagnostics,
                "UnawaitedAsyncCall",
                e.span,
            )
            &&& !harmless && !must && !task ==> reported(
                w.st.diagnostics,
                after.st.diagnostics,
                "UnusedValue",
                e.span,
            )
        }),
{
    reveal(World::end_expr_statement);
    reveal(World::carries);
    reveal(World::report);
}

/// Discarding a value is accepted without a word exactly if it is known to hold
/// no task and nothing that must be scoped.
pub proof fn law_discarded_values(w: World, cx: &Context, e: Expr, ty: TyId)
    ensures
        ({
            let after = w.end_discard(cx, e, ty);
            let (asked, must) = w.has_must_scope_obligation(cx, ty);
            let (again, task) = asked.has_task_obligation(cx, ty);
            let (last, unknown) = again.has_unknown_discard_obligation(cx, ty);
            let harmless = w.data(ty) == TyData::Never || w.data(ty) == TyData::Error;
            &&& harmless ==> after == w
            &&& !harmless && !must && !task && !unknown ==> after == last && after.st == w.st
            &&& !harmless && must ==> exists|told: World|
                reported(
                    w.st.diagnostics,
                    told.st.diagnostics,
                    "MustScopeRequiresScoped",
                    e.span,
                ) && after == #[trigger] told.consume_task_obligation(cx, e)
            &&& !harmless && !must && task ==> exists|told: World|
                reported(
                    w.st.diagnostics,
                    told.st.diagnostics,
                    "UnawaitedAsyncCall",
                    e.span,
                ) && after == #[trigger] told.consume_task_obligation(cx, e)
            &&& !harmless && !must && !task && unknown ==> exists|told: World|
                reported(
                    w.st.diagnostics,
                    told.st.diagnostics,
                    "CannotDiscardUnknownType",
                    e.span,
                ) && after == #[trigger] told.consume_task_obligation(cx, e)
        }),
{
    reveal(World::end_discard);
    reveal(World::carries);
    reveal(World::report);
    let (asked, must) = w.has_must_scope_obligation(cx, ty);
    let (again, task) = asked.has_task_obligation(cx, ty);
    let (last, unknown) = again.has_unknown_discard_obligation(cx, ty);
    let after = w.end_discard(cx, e, ty);
    let scoped = asked.text_error(
        "MustScopeRequiresScoped",
        "a value with a MustScope obligation cannot be discarded",
        e.span,
    );
    let waiting = again.text_error(
        "UnawaitedAsyncCall",
        "a Task cannot be discarded; it must be awaited, joined, or returned",
        e.span,
    );
    let open = last.text_error(
        "CannotDiscardUnknownType",
        "this type is not statically known to be free of Task or MustScope obligations",
        e.span,
    );
    if w.data(ty) != TyData::Never && w.data(ty) != TyData::Error {
        if must {
            assert(after == scoped.consume_task_obligation(cx, e));
        } else if task {
            assert(after == waiting.consume_task_obligation(cx, e));
        } else if unknown {
            assert(after == open.consume_task_obligation(cx, e));
        }
    }
}

/// `break` and `continue` outside a loop, or out of a cleanup, are errors; from
/// a place that is reached, the state goes to the end or the start of the
/// innermost loop.
pub proof fn law_jumps(w: World, span: Span, is_break: bool, reachable: bool)
    ensures
        ({
            let after = w.jump(span, is_break, reachable);
            match w.st.loop_flows {
                Chain::Empty => reported(
                    w.st.diagnostics,
                    after.st.diagnostics,
                    "LoopControlOutsideLoop",
                    span,
                ),
                Chain::Link(link) => if link.item.cleanup_depth != w.st.cleanup_depth {
                    reported(
                        w.st.diagnostics,
                        after.st.diagnostics,
                        "LoopControlFromCleanup",
                        span,
                    )
                } else if !reachable {
                    after == w
                } else {
                    match after.st.loop_flows {
                        Chain::Empty => false,
                        Chain::Link(now) => {
                            &&& now.rest == link.rest
                            &&& is_break ==> now.item.breaks is Link
                                && now.item.breaks.without_last() == link.item.breaks
                                && now.item.continues == link.item.continues
                            &&& !is_break ==> now.item.continues is Link
                                && now.item.continues.without_last() == link.item.continues
                                && now.item.breaks == link.item.breaks
                        },
                    }
                },
            }
        }),
{
    reveal(World::jump);
    reveal(World::report);
    reveal(World::set_loops);
}

} // verus!
