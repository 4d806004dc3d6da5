//! The steps of checking a body that look at no further expression.

use std::rc::Rc;
use vstd::prelude::*;

use crate::chain::Chain;
#[allow(unused_imports)]
use crate::diagnostics::{adds_to, lemma_adds_nothing, lemma_adds_one, lemma_adds_through};
use crate::diagnostics::{Diagnostic, Message};
#[allow(unused_imports)]
use crate::diagnostics::labelled;
use crate::flow::{FlowState, NoSuspend};
#[allow(unused_imports)]
use crate::growth::{later, lemma_later_itself, lemma_later_through};
use crate::hir::Expr;
use crate::ids::{ExprId, LocalId, Span, TyId};
use crate::semantics::TaskIntrinsic;
use crate::state::{
    BodyChecker, CheckState, Context, ContractMode, DeferredFlowEffect, LoopFlowTarget,
};
#[allow(unused_imports)]
use crate::state::World;
use crate::symbolic::ProofFacts;
use crate::ty::{BuiltinType, TyData};
#[allow(unused_imports)]
use crate::ty::{builtin_ty, error_ty};

verus! {

broadcast use {
    lemma_adds_nothing,
    lemma_adds_one,
    lemma_adds_through,
    lemma_later_itself,
    lemma_later_through,
};

/// The type of a unit value, a number and so on.
pub open spec fn unit_ty() -> TyId {
    builtin_ty(BuiltinType::Unit)
}

pub open spec fn bool_ty() -> TyId {
    builtin_ty(BuiltinType::Bool)
}

pub open spec fn int_ty() -> TyId {
    builtin_ty(BuiltinType::Int)
}

pub open spec fn text_ty() -> TyId {
    builtin_ty(BuiltinType::Text)
}

// Switches that hold while a part of an expression is checked.

impl World {
    #[verifier::opaque]
    pub open spec fn set_await(self, allow_await_here: bool) -> World {
        World { st: CheckState { allow_await_here, ..self.st }, ..self }
    }

    #[verifier::opaque]
    pub open spec fn set_receiver_flags(
        self,
        allow_dirty_self_projection: bool,
        checking_scoped_receiver: bool,
    ) -> World {
        World {
            st: CheckState { allow_dirty_self_projection, checking_scoped_receiver, ..self.st },
            ..self
        }
    }

    #[verifier::opaque]
    pub open spec fn set_assignment_target(self, checking_assignment_target: bool) -> World {
        World { st: CheckState { checking_assignment_target, ..self.st }, ..self }
    }

    #[verifier::opaque]
    pub open spec fn set_discard(self, checking_discard_operand: bool) -> World {
        World { st: CheckState { checking_discard_operand, ..self.st }, ..self }
    }

    #[verifier::opaque]
    pub open spec fn set_initializer(self, scoped_initializer: Option<ExprId>) -> World {
        World { st: CheckState { scoped_initializer, ..self.st }, ..self }
    }

    #[verifier::opaque]
    pub open spec fn set_contract(self, contract: ContractMode) -> World {
        World { st: CheckState { contract, ..self.st }, ..self }
    }

    #[verifier::opaque]
    pub open spec fn set_effects(self, active_defer_effects: Chain<DeferredFlowEffect>) -> World {
        World { st: CheckState { active_defer_effects, ..self.st }, ..self }
    }

    #[verifier::opaque]
    pub open spec fn set_scopes(self, scopes: Chain<Chain<LocalId>>) -> World {
        World { st: CheckState { scopes, ..self.st }, ..self }
    }

    #[verifier::opaque]
    pub open spec fn set_loops(self, loop_flows: Chain<LoopFlowTarget>) -> World {
        World { st: CheckState { loop_flows, ..self.st }, ..self }
    }

    #[verifier::opaque]
    pub open spec fn restored(self, flow: FlowState) -> World {
        self.with_flow(flow)
    }

    #[verifier::opaque]
    pub open spec fn forget_proofs(self) -> World {
        self.with_flow(self.st.flow.without_proofs())
    }

    #[verifier::opaque]
    pub open spec fn set_dirty(self, self_dirty: bool) -> World {
        self.with_dirty(self_dirty)
    }
}

impl BodyChecker {
    pub fn set_await(&mut self, allow: bool)
        ensures
            adds_to(old(self)@.st.diagnostics, final(self)@.st.diagnostics),
            final(self)@.types == old(self)@.types,
            final(self)@ == old(self)@.set_await(allow),
    {
        proof {
            reveal(World::set_await);
        }
        self.st.allow_await_here = allow;
    }

    pub fn set_receiver_flags(&mut self, projection: bool, scoped: bool)
        ensures
            adds_to(old(self)@.st.diagnostics, final(self)@.st.diagnostics),
            final(self)@.types == old(self)@.types,
            final(self)@ == old(self)@.set_receiver_flags(projection, scoped),
    {
        proof {
            reveal(World::set_receiver_flags);
        }
        self.st.allow_dirty_self_projection = projection;
        self.st.checking_scoped_receiver = scoped;
    }

    pub fn set_assignment_target(&mut self, checking: bool)
        ensures
            adds_to(old(self)@.st.diagnostics, final(self)@.st.diagnostics),
            final(self)@.types == old(self)@.types,
            final(self)@ == old(self)@.set_assignment_target(checking),
    {
        proof {
            reveal(World::set_assignment_target);
        }
        self.st.checking_assignment_target = checking;
    }

    pub fn set_discard(&mut self, checking: bool)
        ensures
            adds_to(old(self)@.st.diagnostics, final(self)@.st.diagnostics),
            final(self)@.types == old(self)@.types,
            final(self)@ == old(self)@.set_discard(checking),
    {
        proof {
            reveal(World::set_discard);
        }
        self.st.checking_discard_operand = checking;
    }

    pub fn set_initializer(&mut self, initializer: Option<ExprId>)
        ensures
            adds_to(old(self)@.st.diagnostics, final(self)@.st.diagnostics),
            final(self)@.types == old(self)@.types,
            final(self)@ == old(self)@.set_initializer(initializer),
    {
        proof {
            reveal(World::set_initializer);
        }
        self.st.scoped_initializer = initializer;
    }

    pub fn set_contract(&mut self, contract: ContractMode)
        ensures
            adds_to(old(self)@.st.diagnostics, final(self)@.st.diagnostics),
            final(self)@.types == old(self)@.types,
            final(self)@ == old(self)@.set_contract(contract),
    {
        proof {
            reveal(World::set_contract);
        }
        self.st.contract = contract;
    }

    pub fn set_effects(&mut self, effects: Chain<DeferredFlowEffect>)
        ensures
            adds_to(old(self)@.st.diagnostics, final(self)@.st.diagnostics),
            final(self)@.types == old(self)@.types,
            final(self)@ == old(self)@.set_effects(effects),
    {
        proof {
            reveal(World::set_effects);
        }
        self.st.active_defer_effects = effects;
    }

    pub fn set_scopes(&mut self, scopes: Chain<Chain<LocalId>>)
        ensures
            adds_to(old(self)@.st.diagnostics, final(self)@.st.diagnostics),
            final(self)@.types == old(self)@.types,
            final(self)@ == old(self)@.set_scopes(scopes),
    {
        proof {
            reveal(World::set_scopes);
        }
        self.st.scopes = scopes;
    }

    pub fn set_loops(&mut self, loops: Chain<LoopFlowTarget>)
        ensures
            adds_to(old(self)@.st.diagnostics, final(self)@.st.diagnostics),
            final(self)@.types == old(self)@.types,
            final(self)@ == old(self)@.set_loops(loops),
    {
        proof {
            reveal(World::set_loops);
        }
        self.st.loop_flows = loops;
    }

    pub fn restored(&mut self, flow: FlowState)
        ensures
            adds_to(old(self)@.st.diagnostics, final(self)@.st.diagnostics),
            final(self)@.types == old(self)@.types,
            final(self)@ == old(self)@.restored(flow),
    {
        proof {
            reveal(World::restored);
        }
        self.st.flow = flow;
    }

    pub fn forget_proofs(&mut self)
        ensures
            adds_to(old(self)@.st.diagnostics, final(self)@.st.diagnostics),
            final(self)@.types == old(self)@.types,
            final(self)@ == old(self)@.forget_proofs(),
    {
        proof {
            reveal(World::forget_proofs);
        }
        self.st.flow.proof_facts = ProofFacts::new();
        self.st.flow.local_terms = Chain::new();
    }

    pub fn set_dirty(&mut self, dirty: bool)
        ensures
            adds_to(old(self)@.st.diagnostics, final(self)@.st.diagnostics),
            final(self)@.types == old(self)@.types,
            final(self)@ == old(self)@.set_dirty(dirty),
    {
        proof {
            reveal(World::set_dirty);
        }
        self.st.flow.self_dirty = dirty;
    }
}

// Waiting for tasks.

/// The outputs of a list of types that should be tasks, and whether all are.
pub open spec fn task_outputs(w: World, tasks: Chain<TyId>) -> (Chain<TyId>, bool)
    decreases tasks,
{
    match tasks {
        Chain::Empty => (Chain::Empty, true),
        Chain::Link(link) => {
            let (rest, valid) = task_outputs(w, link.rest);
            match w.data(link.item) {
                TyData::Task(output) => (rest.pushed(output), valid),
                _ => (rest.pushed(error_ty()), false),
            }
        },
    }
}

/// Whether all types of a list are the given one.
pub open spec fn all_are(list: Chain<TyId>, ty: TyId) -> bool
    decreases list,
{
    match list {
        Chain::Empty => true,
        Chain::Link(link) => all_are(link.rest, ty) && link.item == ty,
    }
}

/// The first type of a list.
pub open spec fn first_ty(list: Chain<TyId>) -> TyId
    decreases list,
{
    match list {
        Chain::Empty => error_ty(),
        Chain::Link(link) => match link.rest {
            Chain::Empty => link.item,
            Chain::Link(_) => first_ty(link.rest),
        },
    }
}

fn check_all_are(list: &Chain<TyId>, ty: TyId) -> (result: bool)
    ensures
        result == all_are(*list, ty),
    decreases list,
{
    match list {
        Chain::Empty => true,
        Chain::Link(link) => check_all_are(&link.rest, ty) && link.item == ty,
    }
}

fn find_first_ty(list: &Chain<TyId>) -> (ty: TyId)
    ensures
        ty == first_ty(*list),
    decreases list,
{
    match list {
        Chain::Empty => TyId(0),
        Chain::Link(link) => match &link.rest {
            Chain::Empty => link.item,
            Chain::Link(_) => find_first_ty(&link.rest),
        },
    }
}

impl World {
    pub open spec fn report_no_suspend(self, active: Chain<NoSuspend>, span: Span) -> World
        decreases active,
    {
        match active {
            Chain::Empty => self,
            Chain::Link(link) => self.report_no_suspend(link.rest, span).report(
                labelled(
                    "NoSuspendAcrossAwait",
                    Message::Text(
                        "a NoSuspend scoped resource is still active at this await point",
                    ),
                    span,
                    link.item.span,
                    "resource scope begins here",
                ),
            ),
        }
    }

    /// Whether an await may stand here.
    #[verifier::opaque]
    pub open spec fn begin_await(self, cx: &Context, e: Expr, allowed: bool) -> World {
        let w = if !cx.environment.is_async {
            self.text_error(
                "AwaitOutsideAsync",
                "`await` is only valid inside an async function or async test",
                e.span,
            )
        } else {
            self
        };
        let w = if !allowed {
            w.text_error(
                "AwaitMustBeStatementBoundary",
                "the current executable async slice requires `await` directly in a binding, return, statement, or block tail",
                e.span,
            )
        } else {
            w
        };
        let w = if w.st.cleanup_depth > 0 {
            w.text_error(
                "AwaitInCleanup",
                "a defer cleanup must complete synchronously and cannot await",
                e.span,
            )
        } else {
            w
        };
        let w = if !(w.st.flow.borrows is Empty) {
            w.text_error(
                "AccessAcrossAwait",
                "an active interface access cannot cross an await point",
                e.span,
            )
        } else {
            w
        };
        w.report_no_suspend(w.st.flow.active_no_suspend, e.span)
    }

    /// The type of the value that an await gives.
    #[verifier::opaque]
    pub open spec fn end_await(self, e: Expr, task: TyId) -> (World, TyId) {
        match self.data(task) {
            TyData::Task(output) => (self, output),
            TyData::Tuple(tasks) => {
                let (outputs, valid) = task_outputs(self, tasks);
                let w = if !valid {
                    self.text_error(
                        "AwaitRequiresAsyncCall",
                        "every element of an awaited tuple must be an async task",
                        e.span,
                    )
                } else {
                    self
                };
                w.intern(TyData::Tuple(outputs))
            },
            TyData::Error => (self, error_ty()),
            _ => (
                self.text_error(
                    "AwaitRequiresAsyncCall",
                    "`await` operand does not produce a supported async task",
                    e.span,
                ),
                error_ty(),
            ),
        }
    }

    #[verifier::opaque]
    pub open spec fn end_sleep_argument(self, argument: Expr, actual: TyId) -> World {
        match self.data(actual) {
            TyData::Builtin(BuiltinType::Int) => self,
            TyData::Builtin(BuiltinType::Duration) => self,
            _ => self.text_error(
                "TypeMismatch",
                "Task.sleep expects Int milliseconds or Duration",
                argument.span,
            ),
        }
    }

    /// The task that joins the tasks of a list.
    #[verifier::opaque]
    pub open spec fn join_list(self, e: Expr, mode: TaskIntrinsic, element: TyId) -> (World, TyId) {
        match self.data(element) {
            TyData::Task(output) => match mode {
                TaskIntrinsic::All => {
                    let (w, list) = self.intern(TyData::List(output));
                    w.intern(TyData::Task(list))
                },
                TaskIntrinsic::Settled => {
                    let (w, outcome) = self.intern(TyData::TaskOutcome(output));
                    let (w, list) = w.intern(TyData::List(outcome));
                    w.intern(TyData::Task(list))
                },
                TaskIntrinsic::Race => {
                    let (w, outcome) = self.intern(TyData::TaskOutcome(output));
                    w.intern(TyData::Task(outcome))
                },
                _ => self.intern(TyData::Task(output)),
            },
            _ => (
                self.text_error(
                    "TaskJoinRequiresTasks",
                    "a dynamic Task join requires List[Task[T]]",
                    e.span,
                ),
                error_ty(),
            ),
        }
    }

    /// The outputs of the arguments of a join; those that are no tasks are
    /// reported.
    #[verifier::opaque]
    pub open spec fn join_outputs(self, e: Expr, arguments: Chain<TyId>) -> (World, Chain<TyId>)
        decreases arguments,
    {
        match arguments {
            Chain::Empty => (self, Chain::Empty),
            Chain::Link(link) => {
                let (w, outputs) = self.join_outputs(e, link.rest);
                match w.data(link.item) {
                    TyData::Task(output) => (w, outputs.pushed(output)),
                    _ => (
                        w.text_error(
                            "TaskJoinRequiresTasks",
                            "every fixed Task join argument must have Task[T] type",
                            e.span,
                        ),
                        outputs.pushed(error_ty()),
                    ),
                }
            },
        }
    }

    #[verifier::opaque]
    pub open spec fn outcomes_of(self, outputs: Chain<TyId>) -> (World, Chain<TyId>)
        decreases outputs,
    {
        match outputs {
            Chain::Empty => (self, Chain::Empty),
            Chain::Link(link) => {
                let (w, rest) = self.outcomes_of(link.rest);
                let (w, outcome) = w.intern(TyData::TaskOutcome(link.item));
                (w, rest.pushed(outcome))
            },
        }
    }

    #[verifier::opaque]
    pub open spec fn join_fixed(self, e: Expr, mode: TaskIntrinsic, arguments: Chain<TyId>) -> (
        World,
        TyId,
    ) {
        let (w, outputs) = self.join_outputs(e, arguments);
        let (w, output) = match mode {
            TaskIntrinsic::All => w.intern(TyData::Tuple(outputs)),
            TaskIntrinsic::Settled => {
                let (w, outcomes) = w.outcomes_of(outputs);
                w.intern(TyData::Tuple(outcomes))
            },
            _ => {
                let first = first_ty(outputs);
                let w = if !all_are(outputs, first) {
                    w.text_error(
                        "HeterogeneousFirstTaskJoin",
                        "Task.any and Task.race require one common result type",
                        e.span,
                    )
                } else {
                    w
                };
                if mode == TaskIntrinsic::Race {
                    w.intern(TyData::TaskOutcome(first))
                } else {
                    (w, first)
                }
            },
        };
        w.intern(TyData::Task(output))
    }

    /// The type of a join of tasks. A single list is joined element by element.
    #[verifier::opaque]
    pub open spec fn end_join(self, e: Expr, mode: TaskIntrinsic, arguments: Chain<TyId>) -> (
        World,
        TyId,
    ) {
        match arguments {
            Chain::Link(link) => match (link.rest, self.data(link.item)) {
                (Chain::Empty, TyData::List(element)) => self.join_list(e, mode, element),
                _ => self.join_fixed(e, mode, arguments),
            },
            Chain::Empty => self.join_fixed(e, mode, arguments),
        }
    }

    #[verifier::opaque]
    pub open spec fn begin_propagate(self, e: Expr) -> World {
        if self.st.cleanup_depth > 0 {
            self.text_error(
                "PropagationInCleanup",
                "a defer cleanup cannot propagate an error from its enclosing function",
                e.span,
            )
        } else {
            self
        }
    }

    /// The body returns a result with the same error type.
    #[verifier::opaque]
    pub open spec fn check_propagated_error(self, cx: &Context, e: Expr, error: TyId) -> World {
        match self.data(cx.environment.return_ty) {
            TyData::Result { ok: _, error: returned } => if returned == error {
                self
            } else {
                self.text_error(
                    "PropagationErrorTypeMismatch",
                    "the propagated error type must exactly match the current callable's Result error type",
                    e.span,
                )
            },
            TyData::Error => self,
            _ => self.text_error(
                "PropagationRequiresResultReturn",
                "a callable using `?` must return Result",
                e.span,
            ),
        }
    }

    #[verifier::opaque]
    pub open spec fn end_propagate(self, cx: &Context, e: Expr, value: Expr, operand: TyId) -> (
        World,
        TyId,
    ) {
        match self.data(operand) {
            TyData::Result { ok, error } => {
                let w = self.check_propagated_error(cx, e, error);
                let (w, task) = w.has_task_obligation(cx, operand);
                let w = if task {
                    w.consume_task_obligation(cx, value)
                } else {
                    w
                };
                (w.diagnose_task_obligations_at_possible_exit(cx), ok)
            },
            TyData::Error => (self, error_ty()),
            _ => (
                self.text_error(
                    "PropagationRequiresResult",
                    "the `?` operand must have a Result type",
                    e.span,
                ),
                error_ty(),
            ),
        }
    }
}

impl BodyChecker {
    fn task_outputs(&self, tasks: &Chain<TyId>) -> (result: (Chain<TyId>, bool))
        requires
            self.wf(),
        ensures
            result == task_outputs(self@, *tasks),
        decreases tasks,
    {
        match tasks {
            Chain::Empty => (Chain::new(), true),
            Chain::Link(link) => {
                let (rest, valid) = self.task_outputs(&link.rest);
                match self.types.data(link.item) {
                    TyData::Task(output) => (rest.with(*output), valid),
                    _ => (rest.with(TyId(0)), false),
                }
            },
        }
    }

    fn report_no_suspend(&mut self, active: &Chain<NoSuspend>, span: Span)
        ensures
            adds_to(old(self)@.st.diagnostics, final(self)@.st.diagnostics),
            final(self)@.types == old(self)@.types,
            final(self)@ == old(self)@.report_no_suspend(*active, span),
        decreases active,
    {
        match active {
            Chain::Empty => {},
            Chain::Link(link) => {
                self.report_no_suspend(&link.rest, span);
                self.report(
                    Diagnostic::error(
                        "NoSuspendAcrossAwait",
                        Message::Text(
                            "a NoSuspend scoped resource is still active at this await point",
                        ),
                        span,
                    ).with_label(link.item.span, "resource scope begins here"),
                );
            },
        }
    }

    pub fn begin_await(&mut self, cx: &Context, e: &Expr, allowed: bool)
        ensures
            adds_to(old(self)@.st.diagnostics, final(self)@.st.diagnostics),
            final(self)@.types == old(self)@.types,
            final(self)@ == old(self)@.begin_await(cx, *e, allowed),
    {
        proof {
            reveal(World::begin_await);
        }
        if !cx.environment.is_async {
            self.text_error(
                "AwaitOutsideAsync",
                "`await` is only valid inside an async function or async test",
                e.span,
            );
        }
        if !allowed {
            self.text_error(
                "AwaitMustBeStatementBoundary",
                "the current executable async slice requires `await` directly in a binding, return, statement, or block tail",
                e.span,
            );
        }
        if self.st.cleanup_depth > 0 {
            self.text_error(
                "AwaitInCleanup",
                "a defer cleanup must complete synchronously and cannot await",
                e.span,
            );
        }
        if !self.st.flow.borrows.is_empty() {
            self.text_error(
                "AccessAcrossAwait",
                "an active interface access cannot cross an await point",
                e.span,
            );
        }
        let active = self.st.flow.active_no_suspend.clone();
        self.report_no_suspend(&active, e.span);
    }

    pub fn end_await(&mut self, e: &Expr, task: TyId) -> (ty: TyId)
        requires
            old(self).wf(),
        ensures
            adds_to(old(self)@.st.diagnostics, final(self)@.st.diagnostics),
            final(self).wf(),
            later(old(self)@.types, final(self)@.types),
            (final(self)@, ty) == old(self)@.end_await(*e, task),
    {
        proof {
            reveal(World::end_await);
        }
        match self.data(task) {
            TyData::Task(output) => output,
            TyData::Tuple(tasks) => {
                let (outputs, valid) = self.task_outputs(&tasks);
                if !valid {
                    self.text_error(
                        "AwaitRequiresAsyncCall",
                        "every element of an awaited tuple must be an async task",
                        e.span,
                    );
                }
                self.intern(TyData::Tuple(outputs))
            },
            TyData::Error => TyId(0),
            _ => {
                self.text_error(
                    "AwaitRequiresAsyncCall",
                    "`await` operand does not produce a supported async task",
                    e.span,
                );
                TyId(0)
            },
        }
    }

    pub fn end_sleep_argument(&mut self, argument: &Expr, actual: TyId)
        requires
            old(self).wf(),
        ensures
            adds_to(old(self)@.st.diagnostics, final(self)@.st.diagnostics),
            final(self).wf(),
            later(old(self)@.types, final(self)@.types),
            final(self)@ == old(self)@.end_sleep_argument(*argument, actual),
    {
        proof {
            reveal(World::end_sleep_argument);
        }
        match self.types.data(actual) {
            TyData::Builtin(BuiltinType::Int) | TyData::Builtin(BuiltinType::Duration) => {},
            _ => self.text_error(
                "TypeMismatch",
                "Task.sleep expects Int milliseconds or Duration",
                argument.span,
            ),
        }
    }

    fn join_list(&mut self, e: &Expr, mode: TaskIntrinsic, element: TyId) -> (ty: TyId)
        requires
            old(self).wf(),
        ensures
            adds_to(old(self)@.st.diagnostics, final(self)@.st.diagnostics),
            final(self).wf(),
            later(old(self)@.types, final(self)@.types),
            (final(self)@, ty) == old(self)@.join_list(*e, mode, element),
    {
        proof {
            reveal(World::join_list);
        }
        match self.data(element) {
            TyData::Task(output) => match mode {
                TaskIntrinsic::All => {
                    let list = self.intern(TyData::List(output));
                    self.intern(TyData::Task(list))
                },
                TaskIntrinsic::Settled => {
                    let outcome = self.intern(TyData::TaskOutcome(output));
                    let list = self.intern(TyData::List(outcome));
                    self.intern(TyData::Task(list))
                },
                TaskIntrinsic::Race => {
                    let outcome = self.intern(TyData::TaskOutcome(output));
                    self.intern(TyData::Task(outcome))
                },
                _ => self.intern(TyData::Task(output)),
            },
            _ => {
                self.text_error(
                    "TaskJoinRequiresTasks",
                    "a dynamic Task join requires List[Task[T]]",
                    e.span,
                );
                TyId(0)
            },
        }
    }

    fn join_outputs(&mut self, e: &Expr, arguments: &Chain<TyId>) -> (outputs: Chain<TyId>)
        requires
            old(self).wf(),
        ensures
            adds_to(old(self)@.st.diagnostics, final(self)@.st.diagnostics),
            final(self).wf(),
            later(old(self)@.types, final(self)@.types),
            (final(self)@, outputs) == old(self)@.join_outputs(*e, *arguments),
        decreases arguments,
    {
        proof {
            reveal(World::join_outputs);
        }
        match arguments {
            Chain::Empty => Chain::new(),
            Chain::Link(link) => {
                let outputs = self.join_outputs(e, &link.rest);
                match self.data(link.item) {
                    TyData::Task(output) => outputs.with(output),
                    _ => {
                        self.text_error(
                            "TaskJoinRequiresTasks",
                            "every fixed Task join argument must have Task[T] type",
                            e.span,
                        );
                        outputs.with(TyId(0))
                    },
                }
            },
        }
    }

    fn outcomes_of(&mut self, outputs: &Chain<TyId>) -> (outcomes: Chain<TyId>)
        requires
            old(self).wf(),
        ensures
            adds_to(old(self)@.st.diagnostics, final(self)@.st.diagnostics),
            final(self).wf(),
            later(old(self)@.types, final(self)@.types),
            (final(self)@, outcomes) == old(self)@.outcomes_of(*outputs),
        decreases outputs,
    {
        proof {
            reveal(World::outcomes_of);
        }
        match outputs {
            Chain::Empty => Chain::new(),
            Chain::Link(link) => {
                let rest = self.outcomes_of(&link.rest);
                let outcome = self.intern(TyData::TaskOutcome(link.item));
                rest.with(outcome)
            },
        }
    }

    fn join_fixed(&mut self, e: &Expr, mode: TaskIntrinsic, arguments: &Chain<TyId>) -> (ty: TyId)
        requires
            old(self).wf(),
        ensures
            adds_to(old(self)@.st.diagnostics, final(self)@.st.diagnostics),
            final(self).wf(),
            later(old(self)@.types, final(self)@.types),
            (final(self)@, ty) == old(self)@.join_fixed(*e, mode, *arguments),
    {
        proof {
            reveal(World::join_fixed);
        }
        let outputs = self.join_outputs(e, arguments);
        let output = match mode {
            TaskIntrinsic::All => self.intern(TyData::Tuple(outputs)),
            TaskIntrinsic::Settled => {
                let outcomes = self.outcomes_of(&outputs);
                self.intern(TyData::Tuple(outcomes))
            },
            _ => {
                let first = find_first_ty(&outputs);
                if !check_all_are(&outputs, first) {
                    self.text_error(
                        "HeterogeneousFirstTaskJoin",
                        "Task.any and Task.race require one common result type",
                        e.span,
                    );
                }
                if mode == TaskIntrinsic::Race {
                    self.intern(TyData::TaskOutcome(first))
                } else {
                    first
                }
            },
        };
        self.intern(TyData::Task(output))
    }

    pub fn end_join(&mut self, e: &Expr, mode: TaskIntrinsic, arguments: &Chain<TyId>) -> (ty: TyId)
        requires
            old(self).wf(),
        ensures
            adds_to(old(self)@.st.diagnostics, final(self)@.st.diagnostics),
            final(self).wf(),
            later(old(self)@.types, final(self)@.types),
            (final(self)@, ty) == old(self)@.end_join(*e, mode, *arguments),
    {
        proof {
            reveal(World::end_join);
        }
        match arguments {
            Chain::Link(link) => {
                let data = self.data(link.item);
                match (&link.rest, data) {
                    (Chain::Empty, TyData::List(element)) => self.join_list(e, mode, element),
                    _ => self.join_fixed(e, mode, arguments),
                }
            },
            Chain::Empty => self.join_fixed(e, mode, arguments),
        }
    }

    pub fn begin_propagate(&mut self, e: &Expr)
        ensures
            adds_to(old(self)@.st.diagnostics, final(self)@.st.diagnostics),
            final(self)@.types == old(self)@.types,
            final(self)@ == old(self)@.begin_propagate(*e),
    {
        proof {
            reveal(World::begin_propagate);
        }
        if self.st.cleanup_depth > 0 {
            self.text_error(
                "PropagationInCleanup",
                "a defer cleanup cannot propagate an error from its enclosing function",
                e.span,
            );
        }
    }

    fn check_propagated_error(&mut self, cx: &Context, e: &Expr, error: TyId)
        requires
            old(self).wf(),
        ensures
            adds_to(old(self)@.st.diagnostics, final(self)@.st.diagnostics),
            final(self).wf(),
            later(old(self)@.types, final(self)@.types),
            final(self)@ == old(self)@.check_propagated_error(cx, *e, error),
    {
        proof {
            reveal(World::check_propagated_error);
        }
        match self.data(cx.environment.return_ty) {
            TyData::Result { ok: _, error: returned } => if returned != error {
                self.text_error(
                    "PropagationErrorTypeMismatch",
                    "the propagated error type must exactly match the current callable's Result error type",
                    e.span,
                );
            },
            TyData::Error => {},
            _ => self.text_error(
                "PropagationRequiresResultReturn",
                "a callable using `?` must return Result",
                e.span,
            ),
        }
    }

    pub fn end_propagate(
        &mut self,
        cx: &Context,
        e: &Expr,
        value: &Expr,
        operand: TyId,
    ) -> (ty: TyId)
        requires
            old(self).wf(),
        ensures
            adds_to(old(self)@.st.diagnostics, final(self)@.st.diagnostics),
            final(self).wf(),
            later(old(self)@.types, final(self)@.types),
            (final(self)@, ty) == old(self)@.end_propagate(cx, *e, *value, operand),
    {
        proof {
            reveal(World::end_propagate);
        }
        match self.data(operand) {
            TyData::Result { ok, error } => {
                self.check_propagated_error(cx, e, error);
                if self.has_task_obligation(cx, operand) {
                    self.consume_task_obligation(cx, value);
                }
                self.diagnose_task_obligations_at_possible_exit(cx);
                ok
            },
            TyData::Error => TyId(0),
            _ => {
                self.text_error(
                    "PropagationRequiresResult",
                    "the `?` operand must have a Result type",
                    e.span,
                );
                TyId(0)
            },
        }
    }
}

} // verus!
