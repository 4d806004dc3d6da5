//! The steps of checking statements and blocks that look at no further
//! expression.

use vstd::prelude::*;

use crate::chain::{same_length, Chain};
use crate::coerce::count;
#[allow(unused_imports)]
use crate::coerce::counted;
#[allow(unused_imports)]
use crate::diagnostics::{adds_to, lemma_adds_nothing, lemma_adds_one, lemma_adds_through};
use crate::diagnostics::{Diagnostic, Message};
#[allow(unused_imports)]
use crate::diagnostics::labelled;
use crate::flow::{
    drop_term, join_flow_states, put_term, ActiveBorrow, FlowState, NoSuspend,
};
#[allow(unused_imports)]
use crate::flow::{joined, term_dropped, term_put};
#[allow(unused_imports)]
use crate::growth::{later, lemma_later_itself, lemma_later_through};
use crate::hir::{Expr, Local};
use crate::ids::{LocalId, RegionId, Span, TyId};
use crate::lookup::find_in_scope;
#[allow(unused_imports)]
use crate::lookup::local_in_scope;
use crate::proofs::proof_term;
#[allow(unused_imports)]
use crate::proofs::expr_term;
#[allow(unused_imports)]
use crate::semantics::BodySemantics;
use crate::semantics::{RuntimeCheck, ScopedDisposal};
use crate::state::{
    BodyChecker, Boundary, CheckState, Context, DeferredFlowEffect, LoopFlowTarget,
};
#[allow(unused_imports)]
use crate::state::World;
#[allow(unused_imports)]
use crate::steps::int_ty;
#[allow(unused_imports)]
use crate::symbolic::root_term;
use crate::symbolic::{make_root_term, ProofResult, ProofRoot, ProofTerm};
use crate::table::insert_id;
#[allow(unused_imports)]
use crate::table::id_inserted;
use crate::ty::{BuiltinType, TyData};
#[allow(unused_imports)]
use crate::ty::error_ty;
use crate::unify::longer;

verus! {

broadcast use {
    lemma_adds_nothing,
    lemma_adds_one,
    lemma_adds_through,
    lemma_later_itself,
    lemma_later_through,
};

/// A list of error types of the same length.
pub open spec fn errors_for<T>(list: Chain<T>) -> Chain<TyId>
    decreases list,
{
    match list {
        Chain::Empty => Chain::Empty,
        Chain::Link(link) => errors_for(link.rest).pushed(error_ty()),
    }
}

fn make_errors<T>(list: &Chain<T>) -> (result: Chain<TyId>)
    ensures
        result == errors_for(*list),
    decreases list,
{
    match list {
        Chain::Empty => Chain::new(),
        Chain::Link(link) => make_errors(&link.rest).with(TyId(0)),
    }
}

pub open spec fn unknowns_for<T>(list: Chain<T>) -> Chain<ProofTerm>
    decreases list,
{
    match list {
        Chain::Empty => Chain::Empty,
        Chain::Link(link) => unknowns_for(link.rest).pushed(ProofTerm::Unknown),
    }
}

fn make_unknowns<T>(list: &Chain<T>) -> (result: Chain<ProofTerm>)
    ensures
        result == unknowns_for(*list),
    decreases list,
{
    match list {
        Chain::Empty => Chain::new(),
        Chain::Link(link) => make_unknowns(&link.rest).with(ProofTerm::Unknown),
    }
}

/// The resources that are alive in another region.
pub open spec fn outside_region(active: Chain<NoSuspend>, region: RegionId) -> Chain<NoSuspend>
    decreases active,
{
    match active {
        Chain::Empty => active,
        Chain::Link(link) => if link.item.region != region {
            outside_region(link.rest, region).pushed(link.item)
        } else {
            outside_region(link.rest, region)
        },
    }
}

fn keep_outside_region(active: &Chain<NoSuspend>, region: RegionId) -> (result: Chain<NoSuspend>)
    ensures
        result == outside_region(*active, region),
    decreases active,
{
    match active {
        Chain::Empty => Chain::new(),
        Chain::Link(link) => if link.item.region != region {
            keep_outside_region(&link.rest, region).with(link.item)
        } else {
            keep_outside_region(&link.rest, region)
        },
    }
}

pub open spec fn borrows_outside(borrows: Chain<ActiveBorrow>, region: RegionId) -> Chain<
    ActiveBorrow,
>
    decreases borrows,
{
    match borrows {
        Chain::Empty => borrows,
        Chain::Link(link) => if link.item.region != region {
            borrows_outside(link.rest, region).pushed(link.item)
        } else {
            borrows_outside(link.rest, region)
        },
    }
}

fn keep_borrows_outside(borrows: &Chain<ActiveBorrow>, region: RegionId) -> (result: Chain<
    ActiveBorrow,
>)
    ensures
        result == borrows_outside(*borrows, region),
    decreases borrows,
{
    match borrows {
        Chain::Empty => Chain::new(),
        Chain::Link(link) => if link.item.region != region {
            keep_borrows_outside(&link.rest, region).with(link.item.clone())
        } else {
            keep_borrows_outside(&link.rest, region)
        },
    }
}

/// The local of the innermost scope that a local would hide.
pub open spec fn hidden_by(cx: &Context, scopes: Chain<Chain<LocalId>>, local: LocalId) -> Option<
    LocalId,
> {
    match (scopes, cx.local_of(local)) {
        (Chain::Link(link), Some(found)) => local_in_scope(cx, link.item, found.name@),
        _ => None,
    }
}

impl World {
    #[verifier::opaque]
    pub open spec fn set_local_term(
        self,
        local: LocalId,
        term: ProofTerm,
        drop_unknown: bool,
    ) -> World {
        if term.known() {
            self.with_flow(
                FlowState {
                    local_terms: term_put(self.st.flow.local_terms, local.0, term),
                    ..self.st.flow
                },
            )
        } else if drop_unknown {
            self.with_flow(
                FlowState {
                    local_terms: term_dropped(self.st.flow.local_terms, local.0),
                    ..self.st.flow
                },
            )
        } else {
            self
        }
    }

    /// Declares a local; an older one of the same name and scope is reported.
    #[verifier::opaque]
    pub open spec fn declare_once(self, cx: &Context, local: LocalId) -> World {
        let w = self.declare(cx, local);
        match (hidden_by(cx, self.st.scopes, local), cx.local_of(local)) {
            (Some(previous), Some(found)) => w.report(
                labelled(
                    "DuplicateDeclaration",
                    Message::Name("local `", found.name, "` is declared more than once"),
                    cx.local_span_of(local),
                    cx.local_span_of(previous),
                    "first declaration",
                ),
            ),
            _ => w,
        }
    }

    #[verifier::opaque]
    pub open spec fn note_scoped(self, local: LocalId) -> World {
        World {
            st: CheckState {
                scoped_locals: id_inserted(self.st.scoped_locals, local.0),
                ..self.st
            },
            ..self
        }
    }

    #[verifier::opaque]
    pub open spec fn note_no_suspend(self, active: NoSuspend) -> World {
        self.with_flow(
            FlowState {
                active_no_suspend: self.st.flow.active_no_suspend.pushed(active),
                ..self.st.flow
            },
        )
    }

    /// A local that is disposed of at the end of its scope.
    #[verifier::opaque]
    pub open spec fn check_scoped_binding(
        self,
        cx: &Context,
        local: LocalId,
        span: Span,
        ty: TyId,
        region: RegionId,
    ) -> World {
        match (cx.canonical_concepts.dispose, cx.canonical_concepts.dispose_requirement) {
            (None, _) => self.text_error(
                "MissingDisposeConcept",
                "`scoped` requires the canonical std.resource.Dispose concept",
                cx.local_span_of(local),
            ),
            (Some(_), None) => self.text_error(
                "InvalidDisposeConcept",
                "std.resource.Dispose must declare `method dispose(mut self)`",
                cx.local_span_of(local),
            ),
            (Some(dispose), Some(requirement)) => {
                let (w, witness) = self.resource_witness(cx, ty, Some(dispose));
                match witness {
                    None => w.error(
                        "ScopedRequiresDispose",
                        Message::Type("", ty, " does not conform to std.resource.Dispose"),
                        span,
                    ),
                    Some(witness) => {
                        let w = w.set_disposal(
                            local,
                            ScopedDisposal { requirement, witness },
                        ).note_scoped(local);
                        let (w, no_suspend) = w.resource_witness(
                            cx,
                            ty,
                            cx.canonical_concepts.no_suspend,
                        );
                        if no_suspend is Some {
                            w.note_no_suspend(
                                NoSuspend { local, region, span: cx.local_span_of(local) },
                            )
                        } else {
                            w
                        }
                    },
                }
            },
        }
    }

    #[verifier::opaque]
    pub open spec fn begin_let(self, cx: &Context, local: LocalId, scoped: bool) -> World {
        if scoped && self.st.cleanup_depth > 0 {
            self.text_error(
                "CleanupRegistrationInCleanup",
                "a defer cleanup cannot register a scoped resource",
                cx.local_span_of(local),
            )
        } else {
            self
        }
    }

    /// The local is bound to the checked value.
    #[verifier::opaque]
    pub open spec fn end_let(
        self,
        cx: &Context,
        local: LocalId,
        value: Expr,
        ty: TyId,
        scoped: bool,
        region: RegionId,
    ) -> World {
        let w = self.consume_task_obligation(cx, value).set_local_type(
            local,
            ty,
        ).register_task_local(cx, local, ty);
        let w = w.set_local_term(local, expr_term(cx, w.st, value, 0), true);
        let w = w.assume_established_type(cx, ty, root_term(ProofRoot::Local(local.0)));
        let w = if scoped {
            w.check_scoped_binding(cx, local, value.span, ty, region)
        } else {
            w.reject_unscoped(
                cx,
                local,
                ty,
                "this value has a MustScope obligation and must be bound with `scoped`",
            )
        };
        w.declare_once(cx, local)
    }

    #[verifier::opaque]
    pub open spec fn reject_unscoped(
        self,
        cx: &Context,
        local: LocalId,
        ty: TyId,
        text: &'static str,
    ) -> World {
        let (w, must_scope) = self.has_must_scope_obligation(cx, ty);
        if must_scope {
            w.text_error("MustScopeRequiresScoped", text, cx.local_span_of(local))
        } else {
            w
        }
    }

    /// The types of the elements that a tuple binding takes apart.
    #[verifier::opaque]
    pub open spec fn element_types(self, locals: Chain<LocalId>, span: Span, ty: TyId) -> (
        World,
        Chain<TyId>,
    ) {
        match self.data(ty) {
            TyData::Tuple(elements) => if elements.spec_len() == locals.spec_len() {
                (self, elements)
            } else {
                (
                    self.error(
                        "TupleArityMismatch",
                        Message::Counts(
                            "tuple binding declares ",
                            locals.count(),
                            " names, but the value has ",
                            elements.count(),
                            " elements",
                        ),
                        span,
                    ),
                    errors_for(locals),
                )
            },
            TyData::Error => (self, errors_for(locals)),
            TyData::Never => (self, errors_for(locals)),
            _ => (
                self.text_error(
                    "TupleBindingRequiresTuple",
                    "multiple local names require a tuple value",
                    span,
                ),
                errors_for(locals),
            ),
        }
    }

    #[verifier::opaque]
    pub open spec fn bind_element(
        self,
        cx: &Context,
        local: LocalId,
        ty: TyId,
        term: ProofTerm,
    ) -> World {
        self.set_local_type(local, ty).register_task_local(cx, local, ty).set_local_term(
            local,
            term,
            false,
        ).assume_established_type(cx, ty, root_term(ProofRoot::Local(local.0))).reject_unscoped(
            cx,
            local,
            ty,
            "a tuple element with a MustScope obligation cannot be bound by ordinary `let`",
        ).declare_once(cx, local)
    }

    /// The locals are bound to the elements, in order.
    #[verifier::opaque]
    pub open spec fn bind_elements(
        self,
        cx: &Context,
        locals: Chain<LocalId>,
        types: Chain<TyId>,
        terms: Chain<ProofTerm>,
    ) -> World
        decreases locals,
    {
        match (locals, types, terms) {
            (Chain::Link(local), Chain::Link(ty), Chain::Link(term)) => self.bind_elements(
                cx,
                local.rest,
                ty.rest,
                term.rest,
            ).bind_element(cx, local.item, ty.item, term.item),
            _ => self,
        }
    }

    #[verifier::opaque]
    pub open spec fn end_let_tuple(
        self,
        cx: &Context,
        locals: Chain<LocalId>,
        value: Expr,
        ty: TyId,
    ) -> World {
        let w = self.consume_task_obligation(cx, value);
        let (w, types) = w.element_types(locals, value.span, ty);
        let terms = match expr_term(cx, w.st, value, 0) {
            ProofTerm::Tuple(elements) => if elements.spec_len() == locals.spec_len() {
                elements
            } else {
                unknowns_for(locals)
            },
            _ => unknowns_for(locals),
        };
        w.bind_elements(cx, locals, types, terms)
    }

    /// A loop starts; breaks and continues are collected until it ends.
    #[verifier::opaque]
    pub open spec fn begin_loop(self) -> World {
        self.set_loops(
            self.st.loop_flows.pushed(
                LoopFlowTarget {
                    cleanup_depth: self.st.cleanup_depth,
                    defer_base: self.st.active_defer_effects,
                    breaks: Chain::Empty,
                    continues: Chain::Empty,
                },
            ),
        )
    }

    #[verifier::opaque]
    pub open spec fn check_backedges(
        self,
        header: FlowState,
        backedges: Chain<FlowState>,
        span: Span,
    ) -> World
        decreases backedges,
    {
        match backedges {
            Chain::Empty => self,
            Chain::Link(link) => self.check_backedges(
                header,
                link.rest,
                span,
            ).check_loop_backedge_state(header, link.item, span),
        }
    }

    /// The innermost loop ends: every way back restores the state of `header`,
    /// and the ways out are `exit` and the breaks.
    #[verifier::opaque]
    pub open spec fn end_loop(self, header: FlowState, exit: FlowState, body: Expr) -> World {
        let iteration = self.st.flow;
        let diverges = self.expression_diverges(body.id);
        match self.st.loop_flows {
            Chain::Empty => self,
            Chain::Link(link) => {
                let w = self.set_loops(link.rest);
                let w = if !diverges {
                    w.check_loop_backedge_state(header, iteration, body.span)
                } else {
                    w
                };
                w.check_backedges(header, link.item.continues, body.span).restored(
                    joined(exits_of(exit, link.item.breaks)),
                ).forget_proofs()
            },
        }
    }

    #[verifier::opaque]
    pub open spec fn drop_loop(self) -> World {
        match self.st.loop_flows {
            Chain::Empty => self,
            Chain::Link(link) => self.set_loops(link.rest),
        }
    }

    /// The bounds of a range are checked and the loop variable is visible.
    #[verifier::opaque]
    pub open spec fn begin_range(self, cx: &Context, local: LocalId) -> World {
        self.set_local_type(local, int_ty()).forget_proofs().declare(cx, local).begin_loop()
    }

    /// Control jumps to the end or to the start of the innermost loop.
    #[verifier::opaque]
    pub open spec fn jump(self, span: Span, is_break: bool, reachable: bool) -> World {
        match self.st.loop_flows {
            Chain::Empty => self.text_error(
                "LoopControlOutsideLoop",
                if is_break {
                    "`break` is only valid inside a loop"
                } else {
                    "`continue` is only valid inside a loop"
                },
                span,
            ),
            Chain::Link(link) => if link.item.cleanup_depth != self.st.cleanup_depth {
                self.text_error(
                    "LoopControlFromCleanup",
                    if is_break {
                        "a defer cleanup cannot `break` an enclosing loop"
                    } else {
                        "a defer cleanup cannot `continue` an enclosing loop"
                    },
                    span,
                )
            } else if !reachable {
                self
            } else {
                let (w, state) = self.apply_defer_effects(self.st.flow, link.item.defer_base);
                w.set_loops(
                    link.rest.pushed(
                        if is_break {
                            LoopFlowTarget { breaks: link.item.breaks.pushed(state), ..link.item }
                        } else {
                            LoopFlowTarget {
                                continues: link.item.continues.pushed(state),
                                ..link.item
                            }
                        },
                    ),
                )
            },
        }
    }

    /// A cleanup is checked as something that runs later: without what is
    /// known now.
    #[verifier::opaque]
    pub open spec fn begin_defer(self, body: Expr) -> World {
        let w = if self.st.cleanup_depth > 0 {
            self.text_error(
                "CleanupRegistrationInCleanup",
                "a defer cleanup cannot register another cleanup",
                body.span,
            )
        } else {
            self
        };
        w.set_boundaries(Chain::Empty).forget_proofs().set_dirty(false).set_cleanup_depth(
            counted(w.st.cleanup_depth),
        )
    }

    #[verifier::opaque]
    pub open spec fn set_boundaries(self, current_defer_self_boundaries: Chain<Boundary>) -> World {
        World { st: CheckState { current_defer_self_boundaries, ..self.st }, ..self }
    }

    #[verifier::opaque]
    pub open spec fn set_cleanup_depth(self, cleanup_depth: u32) -> World {
        World { st: CheckState { cleanup_depth, ..self.st }, ..self }
    }

    /// The cleanup is registered; the flow is what it was.
    #[verifier::opaque]
    pub open spec fn end_defer(
        self,
        flow: FlowState,
        effects: Chain<DeferredFlowEffect>,
        boundaries: Chain<Boundary>,
    ) -> World {
        let depth = self.st.cleanup_depth;
        let effect = DeferredFlowEffect {
            makes_self_dirty: self.st.flow.self_dirty,
            self_boundaries: self.st.current_defer_self_boundaries,
        };
        self.set_cleanup_depth(
            if depth > 0 {
                (depth - 1) as u32
            } else {
                0
            },
        ).set_boundaries(boundaries).restored(flow).set_effects(effects.pushed(effect))
    }

    /// A value is discarded. The result says whether control goes on.
    #[verifier::opaque]
    pub open spec fn end_discard(self, cx: &Context, e: Expr, ty: TyId) -> World {
        if self.data(ty) is Never || self.is_error(ty) {
            self
        } else {
            let (w, must_scope) = self.has_must_scope_obligation(cx, ty);
            if must_scope {
                w.text_error(
                    "MustScopeRequiresScoped",
                    "a value with a MustScope obligation cannot be discarded",
                    e.span,
                ).consume_task_obligation(cx, e)
            } else {
                let (w, task) = w.has_task_obligation(cx, ty);
                if task {
                    w.text_error(
                        "UnawaitedAsyncCall",
                        "a Task cannot be discarded; it must be awaited, joined, or returned",
                        e.span,
                    ).consume_task_obligation(cx, e)
                } else {
                    let (w, unknown) = w.has_unknown_discard_obligation(cx, ty);
                    if unknown {
                        w.text_error(
                            "CannotDiscardUnknownType",
                            "this type is not statically known to be free of Task or MustScope obligations",
                            e.span,
                        ).consume_task_obligation(cx, e)
                    } else {
                        w
                    }
                }
            }
        }
    }

    /// An expression stands as a statement: its value must be unit.
    #[verifier::opaque]
    pub open spec fn end_expr_statement(self, cx: &Context, e: Expr, ty: TyId) -> World {
        if self.data(ty) is Never || self.is_error(ty) || self.data(ty) == TyData::Builtin(
            BuiltinType::Unit,
        ) {
            self
        } else {
            let (w, must_scope) = self.has_must_scope_obligation(cx, ty);
            if must_scope {
                w.text_error(
                    "MustScopeRequiresScoped",
                    "discarding a MustScope value would lose its cleanup obligation",
                    e.span,
                )
            } else {
                let (w, task) = w.has_task_obligation(cx, ty);
                if task {
                    w.text_error(
                        "UnawaitedAsyncCall",
                        "a Task must be awaited, joined, returned, or explicitly stored for later consumption",
                        e.span,
                    )
                } else {
                    w.text_error(
                        "UnusedValue",
                        "this value is unused; use it or write `discard` to ignore it explicitly",
                        e.span,
                    )
                }
            }
        }
    }

    #[verifier::opaque]
    pub open spec fn note_recovery(self, e: Expr) -> World {
        self.with_semantics(
            BodySemantics {
                receiver_invariant_recoveries: id_inserted(
                    self.st.semantics.receiver_invariant_recoveries,
                    e.id.0,
                ),
                ..self.st.semantics
            },
        )
    }

    /// An assertion is proved or checked at run time, and holds from here on.
    #[verifier::opaque]
    pub open spec fn end_assert(self, cx: &Context, e: Expr) -> World {
        let term = expr_term(cx, self.st, e, 0);
        let check = if self.st.flow.proof_facts.verdict(term) == ProofResult::Proven {
            RuntimeCheck::Proven
        } else {
            RuntimeCheck::Runtime
        };
        let w = self.ask(term).set_assertion(e.id, check).assume_fact(term, true);
        let (w, recovered) = w.recover_receiver_invariant(cx);
        if recovered {
            w.note_recovery(e)
        } else {
            w
        }
    }

    /// A block opens a scope and a region.
    #[verifier::opaque]
    pub open spec fn open_block(self) -> World {
        let region = RegionId(self.st.next_region);
        World {
            st: CheckState {
                scopes: self.st.scopes.pushed(Chain::Empty),
                next_region: counted(self.st.next_region),
                regions: self.st.regions.pushed(region),
                ..self.st
            },
            ..self
        }
    }

    /// The value of the block is handed out with its tasks.
    #[verifier::opaque]
    pub open spec fn yield_tail(self, cx: &Context, tail: Expr, ty: TyId) -> World {
        let (w, may) = self.may_have_task_obligation(cx, ty);
        if may {
            w.consume_task_obligation(cx, tail)
        } else {
            w
        }
    }

    #[verifier::opaque]
    pub open spec fn leave_region(self, region: RegionId) -> World {
        self.with_flow(
            FlowState {
                borrows: borrows_outside(self.st.flow.borrows, region),
                active_no_suspend: outside_region(self.st.flow.active_no_suspend, region),
                ..self.st.flow
            },
        )
    }

    #[verifier::opaque]
    pub open spec fn pop_block(self) -> World {
        World {
            st: CheckState {
                scopes: self.st.scopes.without_last(),
                regions: self.st.regions.without_last(),
                ..self.st
            },
            ..self
        }
    }

    /// The block ends: its cleanups run, its borrows end and its locals go out
    /// of scope.
    #[verifier::opaque]
    pub open spec fn close_block(
        self,
        cx: &Context,
        region: RegionId,
        effects: Chain<DeferredFlowEffect>,
    ) -> World {
        let w = if self.st.active_defer_effects.spec_len() > effects.spec_len() {
            let (w, state) = self.apply_defer_effects(self.st.flow, effects);
            w.restored(state)
        } else {
            self
        };
        w.set_effects(effects).leave_region(region).check_current_scope_task_obligations(
            cx,
        ).pop_block()
    }
}

/// The ways out of a loop.
pub open spec fn exits_of(exit: FlowState, breaks: Chain<FlowState>) -> Chain<FlowState>
    decreases breaks,
{
    match breaks {
        Chain::Empty => Chain::Empty.pushed(exit),
        Chain::Link(link) => exits_of(exit, link.rest).pushed(link.item),
    }
}

fn collect_exits(exit: FlowState, breaks: &Chain<FlowState>) -> (result: Chain<FlowState>)
    ensures
        result == exits_of(exit, *breaks),
    decreases breaks,
{
    match breaks {
        Chain::Empty => Chain::new().with(exit),
        Chain::Link(link) => collect_exits(exit, &link.rest).with(link.item.clone()),
    }
}

impl BodyChecker {
    fn set_local_term(&mut self, local: LocalId, term: ProofTerm, drop_unknown: bool)
        ensures
            adds_to(old(self)@.st.diagnostics, final(self)@.st.diagnostics),
            final(self)@.types == old(self)@.types,
            final(self)@ == old(self)@.set_local_term(local, term, drop_unknown),
    {
        proof {
            reveal(World::set_local_term);
        }
        if term.is_known() {
            self.st.flow.local_terms = put_term(&self.st.flow.local_terms, local.0, term);
        } else if drop_unknown {
            self.st.flow.local_terms = drop_term(&self.st.flow.local_terms, local.0);
        }
    }

    fn declare_once(&mut self, cx: &Context, local: LocalId)
        ensures
            adds_to(old(self)@.st.diagnostics, final(self)@.st.diagnostics),
            final(self)@.types == old(self)@.types,
            final(self)@ == old(self)@.declare_once(cx, local),
    {
        proof {
            reveal(World::declare_once);
        }
        let previous = match (&self.st.scopes, cx.local(local)) {
            (Chain::Link(link), Some(found)) => find_in_scope(cx, &link.item, &found.name),
            _ => None,
        };
        self.declare(cx, local);
        match (previous, cx.local(local)) {
            (Some(previous), Some(found)) => self.report(
                Diagnostic::error(
                    "DuplicateDeclaration",
                    Message::Name("local `", found.name.clone(), "` is declared more than once"),
                    cx.local_span(local),
                ).with_label(cx.local_span(previous), "first declaration"),
            ),
            _ => {},
        }
    }

    fn note_scoped(&mut self, local: LocalId)
        ensures
            adds_to(old(self)@.st.diagnostics, final(self)@.st.diagnostics),
            final(self)@.types == old(self)@.types,
            final(self)@ == old(self)@.note_scoped(local),
    {
        proof {
            reveal(World::note_scoped);
        }
        self.st.scoped_locals = insert_id(&self.st.scoped_locals, local.0);
    }

    fn note_no_suspend(&mut self, active: NoSuspend)
        ensures
            adds_to(old(self)@.st.diagnostics, final(self)@.st.diagnostics),
            final(self)@.types == old(self)@.types,
            final(self)@ == old(self)@.note_no_suspend(active),
    {
        proof {
            reveal(World::note_no_suspend);
        }
        self.st.flow.active_no_suspend.push(active);
    }

    fn check_scoped_binding(
        &mut self,
        cx: &Context,
        local: LocalId,
        span: Span,
        ty: TyId,
        region: RegionId,
    )
        requires
            old(self).wf(),
        ensures
            adds_to(old(self)@.st.diagnostics, final(self)@.st.diagnostics),
            final(self).wf(),
            later(old(self)@.types, final(self)@.types),
            final(self)@ == old(self)@.check_scoped_binding(cx, local, span, ty, region),
    {
        proof {
            reveal(World::check_scoped_binding);
        }
        match (cx.canonical_concepts.dispose, cx.canonical_concepts.dispose_requirement) {
            (None, _) => self.text_error(
                "MissingDisposeConcept",
                "`scoped` requires the canonical std.resource.Dispose concept",
                cx.local_span(local),
            ),
            (Some(_), None) => self.text_error(
                "InvalidDisposeConcept",
                "std.resource.Dispose must declare `method dispose(mut self)`",
                cx.local_span(local),
            ),
            (Some(dispose), Some(requirement)) => match self.resource_witness(
                cx,
                ty,
                Some(dispose),
            ) {
                None => self.error(
                    "ScopedRequiresDispose",
                    Message::Type("", ty, " does not conform to std.resource.Dispose"),
                    span,
                ),
                Some(witness) => {
                    self.set_disposal(local, ScopedDisposal { requirement, witness });
                    self.note_scoped(local);
                    if self.resource_witness(cx, ty, cx.canonical_concepts.no_suspend).is_some() {
                        self.note_no_suspend(
                            NoSuspend { local, region, span: cx.local_span(local) },
                        );
                    }
                },
            },
        }
    }

    pub fn begin_let(&mut self, cx: &Context, local: LocalId, scoped: bool)
        ensures
            adds_to(old(self)@.st.diagnostics, final(self)@.st.diagnostics),
            final(self)@.types == old(self)@.types,
            final(self)@ == old(self)@.begin_let(cx, local, scoped),
    {
        proof {
            reveal(World::begin_let);
        }
        if scoped && self.st.cleanup_depth > 0 {
            self.text_error(
                "CleanupRegistrationInCleanup",
                "a defer cleanup cannot register a scoped resource",
                cx.local_span(local),
            );
        }
    }

    pub fn end_let(
        &mut self,
        cx: &Context,
        local: LocalId,
        value: &Expr,
        ty: TyId,
        scoped: bool,
        region: RegionId,
    )
        requires
            old(self).wf(),
        ensures
            adds_to(old(self)@.st.diagnostics, final(self)@.st.diagnostics),
            final(self).wf(),
            later(old(self)@.types, final(self)@.types),
            final(self)@ == old(self)@.end_let(cx, local, *value, ty, scoped, region),
    {
        proof {
            reveal(World::end_let);
        }
        self.consume_task_obligation(cx, value);
        self.set_local_type(local, ty);
        self.register_task_local(cx, local, ty);
        let term = proof_term(cx, &self.st, value);
        self.set_local_term(local, term, true);
        let place = make_root_term(ProofRoot::Local(local.0));
        self.assume_established_type(cx, ty, &place);
        if scoped {
            self.check_scoped_binding(cx, local, value.span, ty, region);
        } else {
            self.reject_unscoped(
                cx,
                local,
                ty,
                "this value has a MustScope obligation and must be bound with `scoped`",
            );
        }
        self.declare_once(cx, local);
    }

    fn reject_unscoped(&mut self, cx: &Context, local: LocalId, ty: TyId, text: &'static str)
        requires
            old(self).wf(),
        ensures
            adds_to(old(self)@.st.diagnostics, final(self)@.st.diagnostics),
            final(self).wf(),
            later(old(self)@.types, final(self)@.types),
            final(self)@ == old(self)@.reject_unscoped(cx, local, ty, text),
    {
        proof {
            reveal(World::reject_unscoped);
        }
        if self.has_must_scope_obligation(cx, ty) {
            self.text_error("MustScopeRequiresScoped", text, cx.local_span(local));
        }
    }

    fn element_types(&mut self, locals: &Chain<LocalId>, span: Span, ty: TyId) -> (types: Chain<
        TyId,
    >)
        requires
            old(self).wf(),
        ensures
            adds_to(old(self)@.st.diagnostics, final(self)@.st.diagnostics),
            final(self).wf(),
            later(old(self)@.types, final(self)@.types),
            (final(self)@, types) == old(self)@.element_types(*locals, span, ty),
    {
        proof {
            reveal(World::element_types);
        }
        match self.data(ty) {
            TyData::Tuple(elements) => if same_length(&elements, locals) {
                elements
            } else {
                let names: usize = locals.len();
                let values: usize = elements.len();
                self.error(
                    "TupleArityMismatch",
                    Message::Counts(
                        "tuple binding declares ",
                        names,
                        " names, but the value has ",
                        values,
                        " elements",
                    ),
                    span,
                );
                make_errors(locals)
            },
            TyData::Error | TyData::Never => make_errors(locals),
            _ => {
                self.text_error(
                    "TupleBindingRequiresTuple",
                    "multiple local names require a tuple value",
                    span,
                );
                make_errors(locals)
            },
        }
    }

    fn bind_element(&mut self, cx: &Context, local: LocalId, ty: TyId, term: ProofTerm)
        requires
            old(self).wf(),
        ensures
            adds_to(old(self)@.st.diagnostics, final(self)@.st.diagnostics),
            final(self).wf(),
            later(old(self)@.types, final(self)@.types),
            final(self)@ == old(self)@.bind_element(cx, local, ty, term),
    {
        proof {
            reveal(World::bind_element);
        }
        self.set_local_type(local, ty);
        self.register_task_local(cx, local, ty);
        self.set_local_term(local, term, false);
        let place = make_root_term(ProofRoot::Local(local.0));
        self.assume_established_type(cx, ty, &place);
        self.reject_unscoped(
            cx,
            local,
            ty,
            "a tuple element with a MustScope obligation cannot be bound by ordinary `let`",
        );
        self.declare_once(cx, local);
    }

    fn bind_elements(
        &mut self,
        cx: &Context,
        locals: &Chain<LocalId>,
        types: &Chain<TyId>,
        terms: &Chain<ProofTerm>,
    )
        requires
            old(self).wf(),
        ensures
            adds_to(old(self)@.st.diagnostics, final(self)@.st.diagnostics),
            final(self).wf(),
            later(old(self)@.types, final(self)@.types),
            final(self)@ == old(self)@.bind_elements(cx, *locals, *types, *terms),
        decreases locals,
    {
        proof {
            reveal(World::bind_elements);
        }
        match (locals, types, terms) {
            (Chain::Link(local), Chain::Link(ty), Chain::Link(term)) => {
                self.bind_elements(cx, &local.rest, &ty.rest, &term.rest);
                self.bind_element(cx, local.item, ty.item, term.item.clone());
            },
            _ => {},
        }
    }

    pub fn end_let_tuple(&mut self, cx: &Context, locals: &Chain<LocalId>, value: &Expr, ty: TyId)
        requires
            old(self).wf(),
        ensures
            adds_to(old(self)@.st.diagnostics, final(self)@.st.diagnostics),
            final(self).wf(),
            later(old(self)@.types, final(self)@.types),
            final(self)@ == old(self)@.end_let_tuple(cx, *locals, *value, ty),
    {
        proof {
            reveal(World::end_let_tuple);
        }
        self.consume_task_obligation(cx, value);
        let types = self.element_types(locals, value.span, ty);
        let terms = match proof_term(cx, &self.st, value) {
            ProofTerm::Tuple(elements) => if same_length(&elements, locals) {
                elements
            } else {
                make_unknowns(locals)
            },
            _ => make_unknowns(locals),
        };
        self.bind_elements(cx, locals, &types, &terms);
    }

    pub fn begin_loop(&mut self)
        ensures
            adds_to(old(self)@.st.diagnostics, final(self)@.st.diagnostics),
            final(self)@.types == old(self)@.types,
            final(self)@ == old(self)@.begin_loop(),
    {
        proof {
            reveal(World::begin_loop);
        }
        let loops = self.st.loop_flows.clone().with(
            LoopFlowTarget {
                cleanup_depth: self.st.cleanup_depth,
                defer_base: self.st.active_defer_effects.clone(),
                breaks: Chain::new(),
                continues: Chain::new(),
            },
        );
        self.set_loops(loops);
    }

    fn check_backedges(&mut self, header: &FlowState, backedges: &Chain<FlowState>, span: Span)
        ensures
            adds_to(old(self)@.st.diagnostics, final(self)@.st.diagnostics),
            final(self)@.types == old(self)@.types,
            final(self)@ == old(self)@.check_backedges(*header, *backedges, span),
        decreases backedges,
    {
        proof {
            reveal(World::check_backedges);
        }
        match backedges {
            Chain::Empty => {},
            Chain::Link(link) => {
                self.check_backedges(header, &link.rest, span);
                self.check_loop_backedge_state(header, &link.item, span);
            },
        }
    }

    pub fn end_loop(&mut self, header: &FlowState, exit: FlowState, body: &Expr)
        requires
            old(self).wf(),
        ensures
            adds_to(old(self)@.st.diagnostics, final(self)@.st.diagnostics),
            final(self).wf(),
            later(old(self)@.types, final(self)@.types),
            final(self)@ == old(self)@.end_loop(*header, exit, *body),
    {
        proof {
            reveal(World::end_loop);
        }
        let iteration = self.flow_state();
        let diverges = self.expression_diverges(body.id);
        let (rest, target) = match &self.st.loop_flows {
            Chain::Empty => return,
            Chain::Link(link) => (link.rest.clone(), link.item.clone()),
        };
        self.set_loops(rest);
        if !diverges {
            self.check_loop_backedge_state(header, &iteration, body.span);
        }
        self.check_backedges(header, &target.continues, body.span);
        let exits = collect_exits(exit, &target.breaks);
        let flow = join_flow_states(&exits);
        self.restored(flow);
        self.forget_proofs();
    }

    pub fn drop_loop(&mut self)
        ensures
            adds_to(old(self)@.st.diagnostics, final(self)@.st.diagnostics),
            final(self)@.types == old(self)@.types,
            final(self)@ == old(self)@.drop_loop(),
    {
        proof {
            reveal(World::drop_loop);
        }
        let rest = match &self.st.loop_flows {
            Chain::Empty => return,
            Chain::Link(link) => link.rest.clone(),
        };
        self.set_loops(rest);
    }

    pub fn begin_range(&mut self, cx: &Context, local: LocalId)
        ensures
            adds_to(old(self)@.st.diagnostics, final(self)@.st.diagnostics),
            final(self)@.types == old(self)@.types,
            final(self)@ == old(self)@.begin_range(cx, local),
    {
        proof {
            reveal(World::begin_range);
        }
        let index_ty = self.builtin(BuiltinType::Int);
        self.set_local_type(local, index_ty);
        self.forget_proofs();
        self.declare(cx, local);
        self.begin_loop();
    }

    pub fn jump(&mut self, span: Span, is_break: bool, reachable: bool)
        ensures
            adds_to(old(self)@.st.diagnostics, final(self)@.st.diagnostics),
            final(self)@.types == old(self)@.types,
            final(self)@ == old(self)@.jump(span, is_break, reachable),
    {
        proof {
            reveal(World::jump);
        }
        let (rest, mut target) = match &self.st.loop_flows {
            Chain::Empty => {
                self.text_error(
                    "LoopControlOutsideLoop",
                    if is_break {
                        "`break` is only valid inside a loop"
                    } else {
                        "`continue` is only valid inside a loop"
                    },
                    span,
                );
                return;
            },
            Chain::Link(link) => (link.rest.clone(), link.item.clone()),
        };
        if target.cleanup_depth != self.st.cleanup_depth {
            self.text_error(
                "LoopControlFromCleanup",
                if is_break {
                    "a defer cleanup cannot `break` an enclosing loop"
                } else {
                    "a defer cleanup cannot `continue` an enclosing loop"
                },
                span,
            );
            return;
        }
        if !reachable {
            return;
        }
        let state = self.flow_state();
        let state = self.apply_defer_effects(state, &target.defer_base);
        if is_break {
            target.breaks.push(state);
        } else {
            target.continues.push(state);
        }
        self.set_loops(rest.with(target));
    }

    pub fn begin_defer(&mut self, body: &Expr)
        ensures
            adds_to(old(self)@.st.diagnostics, final(self)@.st.diagnostics),
            final(self)@.types == old(self)@.types,
            final(self)@ == old(self)@.begin_defer(*body),
    {
        proof {
            reveal(World::begin_defer);
        }
        if self.st.cleanup_depth > 0 {
            self.text_error(
                "CleanupRegistrationInCleanup",
                "a defer cleanup cannot register another cleanup",
                body.span,
            );
        }
        let depth: u32 = count(self.st.cleanup_depth);
        self.set_boundaries(Chain::new());
        self.forget_proofs();
        self.set_dirty(false);
        self.set_cleanup_depth(depth);
    }

    fn set_boundaries(&mut self, boundaries: Chain<Boundary>)
        ensures
            adds_to(old(self)@.st.diagnostics, final(self)@.st.diagnostics),
            final(self)@.types == old(self)@.types,
            final(self)@ == old(self)@.set_boundaries(boundaries),
    {
        proof {
            reveal(World::set_boundaries);
        }
        self.st.current_defer_self_boundaries = boundaries;
    }

    fn set_cleanup_depth(&mut self, depth: u32)
        ensures
            adds_to(old(self)@.st.diagnostics, final(self)@.st.diagnostics),
            final(self)@.types == old(self)@.types,
            final(self)@ == old(self)@.set_cleanup_depth(depth),
    {
        proof {
            reveal(World::set_cleanup_depth);
        }
        self.st.cleanup_depth = depth;
    }

    pub fn end_defer(
        &mut self,
        flow: FlowState,
        effects: Chain<DeferredFlowEffect>,
        boundaries: Chain<Boundary>,
    )
        ensures
            adds_to(old(self)@.st.diagnostics, final(self)@.st.diagnostics),
            final(self)@.types == old(self)@.types,
            final(self)@ == old(self)@.end_defer(flow, effects, boundaries),
    {
        proof {
            reveal(World::end_defer);
        }
        let depth: u32 = self.st.cleanup_depth;
        let effect = DeferredFlowEffect {
            makes_self_dirty: self.st.flow.self_dirty,
            self_boundaries: self.st.current_defer_self_boundaries.clone(),
        };
        self.set_cleanup_depth(
            if depth > 0 {
                depth - 1
            } else {
                0
            },
        );
        self.set_boundaries(boundaries);
        self.restored(flow);
        self.set_effects(effects.with(effect));
    }

    pub fn end_discard(&mut self, cx: &Context, e: &Expr, ty: TyId)
        requires
            old(self).wf(),
        ensures
            adds_to(old(self)@.st.diagnostics, final(self)@.st.diagnostics),
            final(self).wf(),
            later(old(self)@.types, final(self)@.types),
            final(self)@ == old(self)@.end_discard(cx, *e, ty),
    {
        proof {
            reveal(World::end_discard);
        }
        if self.is_never(ty) || self.is_error(ty) {
            return;
        }
        if self.has_must_scope_obligation(cx, ty) {
            self.text_error(
                "MustScopeRequiresScoped",
                "a value with a MustScope obligation cannot be discarded",
                e.span,
            );
        } else if self.has_task_obligation(cx, ty) {
            self.text_error(
                "UnawaitedAsyncCall",
                "a Task cannot be discarded; it must be awaited, joined, or returned",
                e.span,
            );
        } else if self.has_unknown_discard_obligation(cx, ty) {
            self.text_error(
                "CannotDiscardUnknownType",
                "this type is not statically known to be free of Task or MustScope obligations",
                e.span,
            );
        } else {
            return;
        }
        self.consume_task_obligation(cx, e);
    }

    pub fn end_expr_statement(&mut self, cx: &Context, e: &Expr, ty: TyId)
        requires
            old(self).wf(),
        ensures
            adds_to(old(self)@.st.diagnostics, final(self)@.st.diagnostics),
            final(self).wf(),
            later(old(self)@.types, final(self)@.types),
            final(self)@ == old(self)@.end_expr_statement(cx, *e, ty),
    {
        proof {
            reveal(World::end_expr_statement);
        }
        if self.is_never(ty) || self.is_error(ty) || self.is_builtin(ty, BuiltinType::Unit) {
            return;
        }
        if self.has_must_scope_obligation(cx, ty) {
            self.text_error(
                "MustScopeRequiresScoped",
                "discarding a MustScope value would lose its cleanup obligation",
                e.span,
            );
        } else if self.has_task_obligation(cx, ty) {
            self.text_error(
                "UnawaitedAsyncCall",
                "a Task must be awaited, joined, returned, or explicitly stored for later consumption",
                e.span,
            );
        } else {
            self.text_error(
                "UnusedValue",
                "this value is unused; use it or write `discard` to ignore it explicitly",
                e.span,
            );
        }
    }

    fn note_recovery(&mut self, e: &Expr)
        ensures
            adds_to(old(self)@.st.diagnostics, final(self)@.st.diagnostics),
            final(self)@.types == old(self)@.types,
            final(self)@ == old(self)@.note_recovery(*e),
    {
        proof {
            reveal(World::note_recovery);
        }
        self.st.semantics.receiver_invariant_recoveries = insert_id(
            &self.st.semantics.receiver_invariant_recoveries,
            e.id.0,
        );
    }

    pub fn end_assert(&mut self, cx: &Context, e: &Expr)
        requires
            old(self).wf(),
        ensures
            adds_to(old(self)@.st.diagnostics, final(self)@.st.diagnostics),
            final(self).wf(),
            later(old(self)@.types, final(self)@.types),
            final(self)@ == old(self)@.end_assert(cx, *e),
    {
        proof {
            reveal(World::end_assert);
        }
        let term = proof_term(cx, &self.st, e);
        let check = if self.st.flow.proof_facts.prove(&term) == ProofResult::Proven {
            RuntimeCheck::Proven
        } else {
            RuntimeCheck::Runtime
        };
        self.ask(&term);
        self.set_assertion(e.id, check);
        self.assume_fact(term, true);
        if self.recover_receiver_invariant(cx) {
            self.note_recovery(e);
        }
    }

    pub fn open_block(&mut self)
        ensures
            adds_to(old(self)@.st.diagnostics, final(self)@.st.diagnostics),
            final(self)@.types == old(self)@.types,
            final(self)@ == old(self)@.open_block(),
    {
        proof {
            reveal(World::open_block);
        }
        let region = RegionId(self.st.next_region);
        self.st.scopes.push(Chain::new());
        self.st.next_region = count(self.st.next_region);
        self.st.regions.push(region);
    }

    pub fn yield_tail(&mut self, cx: &Context, tail: &Expr, ty: TyId)
        requires
            old(self).wf(),
        ensures
            adds_to(old(self)@.st.diagnostics, final(self)@.st.diagnostics),
            final(self).wf(),
            later(old(self)@.types, final(self)@.types),
            final(self)@ == old(self)@.yield_tail(cx, *tail, ty),
    {
        proof {
            reveal(World::yield_tail);
        }
        if self.may_have_task_obligation(cx, ty) {
            self.consume_task_obligation(cx, tail);
        }
    }

    fn leave_region(&mut self, region: RegionId)
        ensures
            adds_to(old(self)@.st.diagnostics, final(self)@.st.diagnostics),
            final(self)@.types == old(self)@.types,
            final(self)@ == old(self)@.leave_region(region),
    {
        proof {
            reveal(World::leave_region);
        }
        self.st.flow.borrows = keep_borrows_outside(&self.st.flow.borrows, region);
        self.st.flow.active_no_suspend = keep_outside_region(
            &self.st.flow.active_no_suspend,
            region,
        );
    }

    fn pop_block(&mut self)
        ensures
            adds_to(old(self)@.st.diagnostics, final(self)@.st.diagnostics),
            final(self)@.types == old(self)@.types,
            final(self)@ == old(self)@.pop_block(),
    {
        proof {
            reveal(World::pop_block);
        }
        self.st.scopes.drop_last();
        self.st.regions.drop_last();
    }

    pub fn close_block(
        &mut self,
        cx: &Context,
        region: RegionId,
        effects: Chain<DeferredFlowEffect>,
    )
        ensures
            adds_to(old(self)@.st.diagnostics, final(self)@.st.diagnostics),
            final(self)@.types == old(self)@.types,
            final(self)@ == old(self)@.close_block(cx, region, effects),
    {
        proof {
            reveal(World::close_block);
        }
        if longer(&self.st.active_defer_effects, &effects) {
            let state = self.flow_state();
            let state = self.apply_defer_effects(state, &effects);
            self.restored(state);
        }
        self.set_effects(effects);
        self.leave_region(region);
        self.check_current_scope_task_obligations(cx);
        self.pop_block();
    }
}

} // verus!
