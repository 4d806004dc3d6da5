//! Tasks that a body holds: each is consumed exactly once before its owner
//! goes out of scope.

use vstd::prelude::*;

use crate::chain::Chain;
#[allow(unused_imports)]
use crate::diagnostics::{adds_to, lemma_adds_nothing, lemma_adds_one, lemma_adds_through};
use crate::flow::{
    drop_obligation, find_obligation, put_obligation, TaskObligationOwner, TaskObligationState,
};
#[allow(unused_imports)]
use crate::flow::{obligation, obligation_dropped, obligation_put, FlowState};
use crate::diagnostics::Message;
#[allow(unused_imports)]
use crate::growth::{later, lemma_later_itself, lemma_later_through};
use crate::hir::{BodyKind, Expr, ExprKind, RecordFieldValue};
use crate::ids::{ExprId, LocalId, ParamId, Span, TyId};
#[allow(unused_imports)]
use crate::proofs::call_target;
use crate::proofs::find_call_target;
use crate::semantics::{BuiltinValue, CallTarget, PlaceRoot};
#[allow(unused_imports)]
use crate::state::World;
use crate::state::{BodyChecker, Context, ContractMode};

verus! {

broadcast use {
    lemma_adds_nothing,
    lemma_adds_one,
    lemma_adds_through,
    lemma_later_itself,
    lemma_later_through,
};

/// The owner of the value at the root of a place.
pub open spec fn owner_of(root: PlaceRoot) -> TaskObligationOwner {
    match root {
        PlaceRoot::Local(local) => TaskObligationOwner::Local(local),
        PlaceRoot::Param(parameter) => TaskObligationOwner::Param(parameter),
        PlaceRoot::SelfValue => TaskObligationOwner::SelfValue,
    }
}

pub(crate) fn root_owner(root: PlaceRoot) -> (owner: TaskObligationOwner)
    ensures
        owner == owner_of(root),
{
    match root {
        PlaceRoot::Local(local) => TaskObligationOwner::Local(local),
        PlaceRoot::Param(parameter) => TaskObligationOwner::Param(parameter),
        PlaceRoot::SelfValue => TaskObligationOwner::SelfValue,
    }
}

/// A task that is not consumed on every path.
pub open spec fn unfinished(state: Option<TaskObligationState>) -> bool {
    match state {
        Some(TaskObligationState::Live) => true,
        Some(TaskObligationState::Conditional) => true,
        _ => false,
    }
}

fn is_unfinished(state: Option<TaskObligationState>) -> (result: bool)
    ensures
        result == unfinished(state),
{
    match state {
        Some(TaskObligationState::Live) => true,
        Some(TaskObligationState::Conditional) => true,
        _ => false,
    }
}

/// A call that only wraps its arguments in a value.
pub open spec fn wraps_arguments(target: Option<CallTarget>) -> bool {
    match target {
        Some(CallTarget::RefinedConstructor(_)) => true,
        Some(CallTarget::EnumVariant(_)) => true,
        Some(CallTarget::Builtin(BuiltinValue::OptionSome)) => true,
        Some(CallTarget::Builtin(BuiltinValue::ResultOk)) => true,
        Some(CallTarget::Builtin(BuiltinValue::ResultErr)) => true,
        _ => false,
    }
}

fn does_wrap_arguments(target: Option<CallTarget>) -> (result: bool)
    ensures
        result == wraps_arguments(target),
{
    match target {
        Some(CallTarget::RefinedConstructor(_)) => true,
        Some(CallTarget::EnumVariant(_)) => true,
        Some(CallTarget::Builtin(BuiltinValue::OptionSome)) => true,
        Some(CallTarget::Builtin(BuiltinValue::ResultOk)) => true,
        Some(CallTarget::Builtin(BuiltinValue::ResultErr)) => true,
        _ => false,
    }
}

impl World {
    pub open spec fn task_state(self, owner: TaskObligationOwner) -> Option<TaskObligationState> {
        obligation(self.st.flow.task_obligations, owner)
    }

    #[verifier::opaque]
    pub open spec fn set_task(
        self,
        owner: TaskObligationOwner,
        state: TaskObligationState,
    ) -> World {
        self.with_flow(
            FlowState {
                task_obligations: obligation_put(self.st.flow.task_obligations, owner, state),
                ..self.st.flow
            },
        )
    }

    #[verifier::opaque]
    pub open spec fn drop_task(self, owner: TaskObligationOwner) -> World {
        self.with_flow(
            FlowState {
                task_obligations: obligation_dropped(self.st.flow.task_obligations, owner),
                ..self.st.flow
            },
        )
    }

    /// `owner` gets a live task if a value of type `ty` carries one.
    #[verifier::opaque]
    pub open spec fn seed_task(self, cx: &Context, owner: TaskObligationOwner, ty: TyId) -> World {
        let (w, carries) = self.has_task_obligation(cx, ty);
        if carries {
            w.set_task(owner, TaskObligationState::Live)
        } else {
            w
        }
    }

    pub open spec fn seed_params(self, cx: &Context, params: Chain<(ParamId, TyId)>) -> World
        decreases params,
    {
        match params {
            Chain::Empty => self,
            Chain::Link(link) => self.seed_params(cx, link.rest).seed_task(
                cx,
                TaskObligationOwner::Param(link.item.0),
                link.item.1,
            ),
        }
    }

    /// The tasks that a body is given: those of its parameters and receiver.
    /// A contract only looks at them and owns none.
    #[verifier::opaque]
    pub open spec fn seed_task_obligations(self, cx: &Context) -> World {
        if self.st.contract != ContractMode::Ordinary {
            self
        } else {
            let w = self.seed_params(cx, cx.environment.params);
            match cx.environment.self_ty {
                Some(ty) => w.seed_task(cx, TaskObligationOwner::SelfValue, ty),
                None => w,
            }
        }
    }

    #[verifier::opaque]
    pub open spec fn register_task_local(self, cx: &Context, local: LocalId, ty: TyId) -> World {
        if self.st.contract != ContractMode::Ordinary {
            self
        } else {
            self.seed_task(cx, TaskObligationOwner::Local(local), ty)
        }
    }

    #[verifier::opaque]
    pub open spec fn consume_task_owner(self, owner: TaskObligationOwner, span: Span) -> World {
        match self.task_state(owner) {
            Some(TaskObligationState::Live) => self.set_task(owner, TaskObligationState::Consumed),
            Some(TaskObligationState::Consumed) => self.error(
                "TaskAlreadyConsumed",
                Message::Subject("Task obligation", "was already consumed"),
                span,
            ),
            Some(TaskObligationState::Conditional) => self.error(
                "TaskConditionallyConsumed",
                Message::Subject("Task obligation", "was consumed on only some control-flow paths"),
                span,
            ).set_task(owner, TaskObligationState::Consumed),
            None => self,
        }
    }

    /// A value is used although its task may be gone.
    #[verifier::opaque]
    pub open spec fn report_used_task(self, owner: TaskObligationOwner, span: Span) -> World {
        match self.task_state(owner) {
            Some(TaskObligationState::Consumed) => self.error(
                "TaskAlreadyConsumed",
                Message::Subject("Task-carrying value", "was already consumed"),
                span,
            ),
            Some(TaskObligationState::Conditional) => self.error(
                "TaskConditionallyConsumed",
                Message::Subject("Task-carrying value", "is live on only some control-flow paths"),
                span,
            ),
            _ => self,
        }
    }

    #[verifier::opaque]
    pub open spec fn require_live_task_owner(self, expression: ExprId, span: Span) -> World {
        match self.place_of(expression) {
            Some(place) => match place.projections {
                Chain::Empty => self.report_used_task(owner_of(place.root), span),
                Chain::Link(_) => self,
            },
            None => self,
        }
    }

    #[verifier::opaque]
    pub open spec fn borrow_task_obligation(self, cx: &Context, e: Expr) -> World {
        match self.type_of(e.id) {
            None => self,
            Some(ty) => {
                let (w, carries) = self.has_task_obligation(cx, ty);
                if !carries {
                    w
                } else {
                    match w.place_of(e.id) {
                        None => w,
                        Some(place) => w.report_used_task(owner_of(place.root), e.span),
                    }
                }
            },
        }
    }

    #[verifier::opaque]
    pub open spec fn reject_task_exit_contract_input(
        self,
        cx: &Context,
        span: Span,
        ty: TyId,
    ) -> World {
        if cx.source.kind != BodyKind::Ensures {
            self
        } else {
            let (w, may) = self.may_have_task_obligation(cx, ty);
            if may {
                w.text_error(
                    "TaskExitContractInputUnsupported",
                    "an exit contract cannot inspect a Task-carrying input after the body may transfer it; use requires or inspect result",
                    span,
                )
            } else {
                w
            }
        }
    }

    pub open spec fn consume_task_obligation(self, cx: &Context, e: Expr) -> World
        decreases e, 1nat,
    {
        match self.type_of(e.id) {
            None => self,
            Some(ty) => self.consume_task_obligation_with_type(cx, e, ty),
        }
    }

    /// The value of `e`, of type `ty`, is handed on with the tasks it carries.
    pub open spec fn consume_task_obligation_with_type(
        self,
        cx: &Context,
        e: Expr,
        ty: TyId,
    ) -> World
        decreases e, 0nat,
    {
        let (w, carries) = self.has_task_obligation(cx, ty);
        if !carries {
            w
        } else {
            match w.place_of(e.id) {
                Some(place) => match place.projections {
                    Chain::Link(_) => w.text_error(
                        "TaskPartialExtractionUnsupported",
                        "a Task-carrying field cannot be transferred separately before partial-place ownership is available",
                        e.span,
                    ),
                    Chain::Empty => w.consume_task_owner(owner_of(place.root), e.span),
                },
                None => match e.kind {
                    ExprKind::Tuple(elements) => w.consume_tasks(cx, elements),
                    ExprKind::List(elements) => w.consume_tasks(cx, elements),
                    ExprKind::RecordLiteral { ty: _, fields } => w.consume_field_tasks(cx, fields),
                    ExprKind::Call { callee: _, type_arguments: _, arguments } =>
                        if wraps_arguments(call_target(w.st.semantics, e.id)) {
                            w.consume_tasks(cx, arguments)
                        } else {
                            w
                        },
                    _ => w,
                },
            }
        }
    }

    pub open spec fn consume_tasks(self, cx: &Context, list: Chain<Expr>) -> World
        decreases list, 0nat,
    {
        match list {
            Chain::Empty => self,
            Chain::Link(link) => self.consume_tasks(cx, link.rest).consume_task_obligation(
                cx,
                link.item,
            ),
        }
    }

    pub open spec fn consume_field_tasks(
        self,
        cx: &Context,
        fields: Chain<RecordFieldValue>,
    ) -> World
        decreases fields, 0nat,
    {
        match fields {
            Chain::Empty => self,
            Chain::Link(link) => self.consume_field_tasks(cx, link.rest).consume_task_obligation(
                cx,
                link.item.value,
            ),
        }
    }

    #[verifier::opaque]
    pub open spec fn report_unconsumed_task_owner(
        self,
        cx: &Context,
        owner: TaskObligationOwner,
    ) -> World {
        match owner {
            TaskObligationOwner::Local(local) => self.text_error(
                "UnawaitedAsyncCall",
                "a stored Task obligation must be awaited, joined, or returned before its lexical scope exits",
                cx.local_span_of(local),
            ),
            TaskObligationOwner::Param(parameter) => self.text_error(
                "UnawaitedAsyncCall",
                "a Task parameter must be awaited, joined, or returned before the callable exits",
                cx.param_span_of(parameter),
            ),
            TaskObligationOwner::SelfValue => self.text_error(
                "UnawaitedAsyncCall",
                "a receiver carrying a Task obligation must be awaited, joined, or returned before the method exits",
                cx.source.span,
            ),
        }
    }

    /// The locals go out of scope with their tasks.
    pub open spec fn end_local_tasks(self, cx: &Context, locals: Chain<LocalId>) -> World
        decreases locals,
    {
        match locals {
            Chain::Empty => self,
            Chain::Link(link) => {
                let w = self.end_local_tasks(cx, link.rest);
                let owner = TaskObligationOwner::Local(link.item);
                if unfinished(w.task_state(owner)) {
                    w.report_unconsumed_task_owner(cx, owner).drop_task(owner)
                } else {
                    w.drop_task(owner)
                }
            },
        }
    }

    #[verifier::opaque]
    pub open spec fn check_current_scope_task_obligations(self, cx: &Context) -> World {
        match self.st.scopes {
            Chain::Empty => self,
            Chain::Link(link) => self.end_local_tasks(cx, link.item),
        }
    }

    #[verifier::opaque]
    pub open spec fn report_tasks(
        self,
        cx: &Context,
        owners: Chain<(TaskObligationOwner, TaskObligationState)>,
        with_locals: bool,
    ) -> World
        decreases owners,
    {
        match owners {
            Chain::Empty => self,
            Chain::Link(link) => {
                let w = self.report_tasks(cx, link.rest, with_locals);
                let skipped = !with_locals && match link.item.0 {
                    TaskObligationOwner::Local(_) => true,
                    _ => false,
                };
                if !skipped && unfinished(w.task_state(link.item.0)) {
                    w.report_unconsumed_task_owner(cx, link.item.0)
                } else {
                    w
                }
            },
        }
    }

    #[verifier::opaque]
    pub open spec fn check_parameter_task_obligations(self, cx: &Context) -> World {
        self.report_tasks(cx, self.st.flow.task_obligations, false)
    }

    #[verifier::opaque]
    pub open spec fn diagnose_task_obligations_at_possible_exit(self, cx: &Context) -> World {
        self.report_tasks(cx, self.st.flow.task_obligations, true)
    }

    pub open spec fn audit_owners(
        self,
        cx: &Context,
        owners: Chain<(TaskObligationOwner, TaskObligationState)>,
    ) -> World
        decreases owners,
    {
        match owners {
            Chain::Empty => self,
            Chain::Link(link) => {
                let w = self.audit_owners(cx, link.rest);
                if unfinished(w.task_state(link.item.0)) {
                    w.report_unconsumed_task_owner(cx, link.item.0).set_task(
                        link.item.0,
                        TaskObligationState::Consumed,
                    )
                } else {
                    w
                }
            },
        }
    }

    /// Control leaves the body: every task must be consumed. What is reported
    /// counts as consumed.
    #[verifier::opaque]
    pub open spec fn audit_task_obligations_at_exit(self, cx: &Context) -> World {
        self.audit_owners(cx, self.st.flow.task_obligations)
    }
}

impl BodyChecker {
    fn task_state(&self, owner: TaskObligationOwner) -> (state: Option<TaskObligationState>)
        ensures
            state == self@.task_state(owner),
    {
        find_obligation(&self.st.flow.task_obligations, owner)
    }

    pub fn set_task(&mut self, owner: TaskObligationOwner, state: TaskObligationState)
        ensures
            adds_to(old(self)@.st.diagnostics, final(self)@.st.diagnostics),
            final(self)@.types == old(self)@.types,
            final(self)@ == old(self)@.set_task(owner, state),
    {
        proof {
            reveal(World::set_task);
        }
        self.st.flow.task_obligations = put_obligation(
            &self.st.flow.task_obligations,
            owner,
            state,
        );
    }

    pub fn drop_task(&mut self, owner: TaskObligationOwner)
        ensures
            adds_to(old(self)@.st.diagnostics, final(self)@.st.diagnostics),
            final(self)@.types == old(self)@.types,
            final(self)@ == old(self)@.drop_task(owner),
    {
        proof {
            reveal(World::drop_task);
        }
        self.st.flow.task_obligations = drop_obligation(&self.st.flow.task_obligations, owner);
    }

    fn seed_task(&mut self, cx: &Context, owner: TaskObligationOwner, ty: TyId)
        requires
            old(self).wf(),
        ensures
            adds_to(old(self)@.st.diagnostics, final(self)@.st.diagnostics),
            final(self).wf(),
            later(old(self)@.types, final(self)@.types),
            final(self)@ == old(self)@.seed_task(cx, owner, ty),
    {
        proof {
            reveal(World::seed_task);
        }
        if self.has_task_obligation(cx, ty) {
            self.set_task(owner, TaskObligationState::Live);
        }
    }

    fn seed_params(&mut self, cx: &Context, params: &Chain<(ParamId, TyId)>)
        requires
            old(self).wf(),
        ensures
            adds_to(old(self)@.st.diagnostics, final(self)@.st.diagnostics),
            final(self).wf(),
            later(old(self)@.types, final(self)@.types),
            final(self)@ == old(self)@.seed_params(cx, *params),
        decreases params,
    {
        match params {
            Chain::Empty => {},
            Chain::Link(link) => {
                self.seed_params(cx, &link.rest);
                self.seed_task(cx, TaskObligationOwner::Param(link.item.0), link.item.1);
            },
        }
    }

    pub fn seed_task_obligations(&mut self, cx: &Context)
        requires
            old(self).wf(),
        ensures
            adds_to(old(self)@.st.diagnostics, final(self)@.st.diagnostics),
            final(self).wf(),
            later(old(self)@.types, final(self)@.types),
            final(self)@ == old(self)@.seed_task_obligations(cx),
    {
        proof {
            reveal(World::seed_task_obligations);
        }
        if self.st.contract != ContractMode::Ordinary {
            return;
        }
        self.seed_params(cx, &cx.environment.params);
        match cx.environment.self_ty {
            Some(ty) => self.seed_task(cx, TaskObligationOwner::SelfValue, ty),
            None => {},
        }
    }

    pub fn register_task_local(&mut self, cx: &Context, local: LocalId, ty: TyId)
        requires
            old(self).wf(),
        ensures
            adds_to(old(self)@.st.diagnostics, final(self)@.st.diagnostics),
            final(self).wf(),
            later(old(self)@.types, final(self)@.types),
            final(self)@ == old(self)@.register_task_local(cx, local, ty),
    {
        proof {
            reveal(World::register_task_local);
        }
        if self.st.contract != ContractMode::Ordinary {
            return;
        }
        self.seed_task(cx, TaskObligationOwner::Local(local), ty);
    }

    fn consume_task_owner(&mut self, owner: TaskObligationOwner, span: Span)
        ensures
            adds_to(old(self)@.st.diagnostics, final(self)@.st.diagnostics),
            final(self)@.types == old(self)@.types,
            final(self)@ == old(self)@.consume_task_owner(owner, span),
    {
        proof {
            reveal(World::consume_task_owner);
        }
        match self.task_state(owner) {
            Some(TaskObligationState::Live) => self.set_task(owner, TaskObligationState::Consumed),
            Some(TaskObligationState::Consumed) => self.error(
                "TaskAlreadyConsumed",
                Message::Subject("Task obligation", "was already consumed"),
                span,
            ),
            Some(TaskObligationState::Conditional) => {
                self.error(
                "TaskConditionallyConsumed",
                Message::Subject("Task obligation", "was consumed on only some control-flow paths"),
                span,
            );
                self.set_task(owner, TaskObligationState::Consumed);
            },
            None => {},
        }
    }

    fn report_used_task(&mut self, owner: TaskObligationOwner, span: Span)
        ensures
            adds_to(old(self)@.st.diagnostics, final(self)@.st.diagnostics),
            final(self)@.types == old(self)@.types,
            final(self)@ == old(self)@.report_used_task(owner, span),
    {
        proof {
            reveal(World::report_used_task);
        }
        match self.task_state(owner) {
            Some(TaskObligationState::Consumed) => self.error(
                "TaskAlreadyConsumed",
                Message::Subject("Task-carrying value", "was already consumed"),
                span,
            ),
            Some(TaskObligationState::Conditional) => self.error(
                "TaskConditionallyConsumed",
                Message::Subject("Task-carrying value", "is live on only some control-flow paths"),
                span,
            ),
            _ => {},
        }
    }

    pub fn require_live_task_owner(&mut self, expression: ExprId, span: Span)
        ensures
            adds_to(old(self)@.st.diagnostics, final(self)@.st.diagnostics),
            final(self)@.types == old(self)@.types,
            final(self)@ == old(self)@.require_live_task_owner(expression, span),
    {
        proof {
            reveal(World::require_live_task_owner);
        }
        match self.place(expression) {
            Some(place) => match place.projections {
                Chain::Empty => self.report_used_task(root_owner(place.root), span),
                Chain::Link(_) => {},
            },
            None => {},
        }
    }

    pub fn borrow_task_obligation(&mut self, cx: &Context, e: &Expr)
        requires
            old(self).wf(),
        ensures
            adds_to(old(self)@.st.diagnostics, final(self)@.st.diagnostics),
            final(self).wf(),
            later(old(self)@.types, final(self)@.types),
            final(self)@ == old(self)@.borrow_task_obligation(cx, *e),
    {
        proof {
            reveal(World::borrow_task_obligation);
        }
        match self.type_of(e.id) {
            None => {},
            Some(ty) => if self.has_task_obligation(cx, ty) {
                match self.place(e.id) {
                    None => {},
                    Some(place) => self.report_used_task(root_owner(place.root), e.span),
                }
            },
        }
    }

    pub fn reject_task_exit_contract_input(&mut self, cx: &Context, span: Span, ty: TyId)
        requires
            old(self).wf(),
        ensures
            adds_to(old(self)@.st.diagnostics, final(self)@.st.diagnostics),
            final(self).wf(),
            later(old(self)@.types, final(self)@.types),
            final(self)@ == old(self)@.reject_task_exit_contract_input(cx, span, ty),
    {
        proof {
            reveal(World::reject_task_exit_contract_input);
        }
        if cx.source.kind != BodyKind::Ensures {
            return;
        }
        if self.may_have_task_obligation(cx, ty) {
            self.text_error(
                "TaskExitContractInputUnsupported",
                "an exit contract cannot inspect a Task-carrying input after the body may transfer it; use requires or inspect result",
                span,
            );
        }
    }

    pub fn consume_task_obligation(&mut self, cx: &Context, e: &Expr)
        requires
            old(self).wf(),
        ensures
            adds_to(old(self)@.st.diagnostics, final(self)@.st.diagnostics),
            final(self).wf(),
            later(old(self)@.types, final(self)@.types),
            final(self)@ == old(self)@.consume_task_obligation(cx, *e),
        decreases e, 1nat,
    {
        match self.type_of(e.id) {
            None => {},
            Some(ty) => self.consume_task_obligation_with_type(cx, e, ty),
        }
    }

    pub fn consume_task_obligation_with_type(&mut self, cx: &Context, e: &Expr, ty: TyId)
        requires
            old(self).wf(),
        ensures
            adds_to(old(self)@.st.diagnostics, final(self)@.st.diagnostics),
            final(self).wf(),
            later(old(self)@.types, final(self)@.types),
            final(self)@ == old(self)@.consume_task_obligation_with_type(cx, *e, ty),
        decreases e, 0nat,
    {
        if !self.has_task_obligation(cx, ty) {
            return;
        }
        match self.place(e.id) {
            Some(place) => match place.projections {
                Chain::Link(_) => self.text_error(
                    "TaskPartialExtractionUnsupported",
                    "a Task-carrying field cannot be transferred separately before partial-place ownership is available",
                    e.span,
                ),
                Chain::Empty => self.consume_task_owner(root_owner(place.root), e.span),
            },
            None => match &e.kind {
                ExprKind::Tuple(elements) => self.consume_tasks(cx, elements),
                ExprKind::List(elements) => self.consume_tasks(cx, elements),
                ExprKind::RecordLiteral { ty: _, fields } => self.consume_field_tasks(cx, fields),
                ExprKind::Call { callee: _, type_arguments: _, arguments } =>
                    if does_wrap_arguments(find_call_target(&self.st.semantics, e.id)) {
                        self.consume_tasks(cx, arguments);
                    },
                _ => {},
            },
        }
    }

    pub fn consume_tasks(&mut self, cx: &Context, list: &Chain<Expr>)
        requires
            old(self).wf(),
        ensures
            adds_to(old(self)@.st.diagnostics, final(self)@.st.diagnostics),
            final(self).wf(),
            later(old(self)@.types, final(self)@.types),
            final(self)@ == old(self)@.consume_tasks(cx, *list),
        decreases list, 0nat,
    {
        match list {
            Chain::Empty => {},
            Chain::Link(link) => {
                self.consume_tasks(cx, &link.rest);
                self.consume_task_obligation(cx, &link.item);
            },
        }
    }

    fn consume_field_tasks(&mut self, cx: &Context, fields: &Chain<RecordFieldValue>)
        requires
            old(self).wf(),
        ensures
            adds_to(old(self)@.st.diagnostics, final(self)@.st.diagnostics),
            final(self).wf(),
            later(old(self)@.types, final(self)@.types),
            final(self)@ == old(self)@.consume_field_tasks(cx, *fields),
        decreases fields, 0nat,
    {
        match fields {
            Chain::Empty => {},
            Chain::Link(link) => {
                self.consume_field_tasks(cx, &link.rest);
                self.consume_task_obligation(cx, &link.item.value);
            },
        }
    }

    fn report_unconsumed_task_owner(&mut self, cx: &Context, owner: TaskObligationOwner)
        ensures
            adds_to(old(self)@.st.diagnostics, final(self)@.st.diagnostics),
            final(self)@.types == old(self)@.types,
            final(self)@ == old(self)@.report_unconsumed_task_owner(cx, owner),
    {
        proof {
            reveal(World::report_unconsumed_task_owner);
        }
        match owner {
            TaskObligationOwner::Local(local) => self.text_error(
                "UnawaitedAsyncCall",
                "a stored Task obligation must be awaited, joined, or returned before its lexical scope exits",
                cx.local_span(local),
            ),
            TaskObligationOwner::Param(parameter) => self.text_error(
                "UnawaitedAsyncCall",
                "a Task parameter must be awaited, joined, or returned before the callable exits",
                cx.param_span(parameter),
            ),
            TaskObligationOwner::SelfValue => self.text_error(
                "UnawaitedAsyncCall",
                "a receiver carrying a Task obligation must be awaited, joined, or returned before the method exits",
                cx.source.span,
            ),
        }
    }

    fn end_local_tasks(&mut self, cx: &Context, locals: &Chain<LocalId>)
        ensures
            adds_to(old(self)@.st.diagnostics, final(self)@.st.diagnostics),
            final(self)@.types == old(self)@.types,
            final(self)@ == old(self)@.end_local_tasks(cx, *locals),
        decreases locals,
    {
        match locals {
            Chain::Empty => {},
            Chain::Link(link) => {
                self.end_local_tasks(cx, &link.rest);
                let owner = TaskObligationOwner::Local(link.item);
                if is_unfinished(self.task_state(owner)) {
                    self.report_unconsumed_task_owner(cx, owner);
                }
                self.drop_task(owner);
            },
        }
    }

    pub fn check_current_scope_task_obligations(&mut self, cx: &Context)
        ensures
            adds_to(old(self)@.st.diagnostics, final(self)@.st.diagnostics),
            final(self)@.types == old(self)@.types,
            final(self)@ == old(self)@.check_current_scope_task_obligations(cx),
    {
        proof {
            reveal(World::check_current_scope_task_obligations);
        }
        let locals = match &self.st.scopes {
            Chain::Empty => return,
            Chain::Link(link) => link.item.clone(),
        };
        self.end_local_tasks(cx, &locals);
    }

    fn report_tasks(
        &mut self,
        cx: &Context,
        owners: &Chain<(TaskObligationOwner, TaskObligationState)>,
        with_locals: bool,
    )
        ensures
            adds_to(old(self)@.st.diagnostics, final(self)@.st.diagnostics),
            final(self)@.types == old(self)@.types,
            final(self)@ == old(self)@.report_tasks(cx, *owners, with_locals),
        decreases owners,
    {
        proof {
            reveal(World::report_tasks);
        }
        match owners {
            Chain::Empty => {},
            Chain::Link(link) => {
                self.report_tasks(cx, &link.rest, with_locals);
                let skipped = !with_locals && match link.item.0 {
                    TaskObligationOwner::Local(_) => true,
                    _ => false,
                };
                if !skipped && is_unfinished(self.task_state(link.item.0)) {
                    self.report_unconsumed_task_owner(cx, link.item.0);
                }
            },
        }
    }

    pub fn check_parameter_task_obligations(&mut self, cx: &Context)
        ensures
            adds_to(old(self)@.st.diagnostics, final(self)@.st.diagnostics),
            final(self)@.types == old(self)@.types,
            final(self)@ == old(self)@.check_parameter_task_obligations(cx),
    {
        proof {
            reveal(World::check_parameter_task_obligations);
        }
        let owners = self.st.flow.task_obligations.clone();
        self.report_tasks(cx, &owners, false);
    }

    pub fn diagnose_task_obligations_at_possible_exit(&mut self, cx: &Context)
        ensures
            adds_to(old(self)@.st.diagnostics, final(self)@.st.diagnostics),
            final(self)@.types == old(self)@.types,
            final(self)@ == old(self)@.diagnose_task_obligations_at_possible_exit(cx),
    {
        proof {
            reveal(World::diagnose_task_obligations_at_possible_exit);
        }
        let owners = self.st.flow.task_obligations.clone();
        self.report_tasks(cx, &owners, true);
    }

    fn audit_owners(
        &mut self,
        cx: &Context,
        owners: &Chain<(TaskObligationOwner, TaskObligationState)>,
    )
        ensures
            adds_to(old(self)@.st.diagnostics, final(self)@.st.diagnostics),
            final(self)@.types == old(self)@.types,
            final(self)@ == old(self)@.audit_owners(cx, *owners),
        decreases owners,
    {
        match owners {
            Chain::Empty => {},
            Chain::Link(link) => {
                self.audit_owners(cx, &link.rest);
                if is_unfinished(self.task_state(link.item.0)) {
                    self.report_unconsumed_task_owner(cx, link.item.0);
                    self.set_task(link.item.0, TaskObligationState::Consumed);
                }
            },
        }
    }

    pub fn audit_task_obligations_at_exit(&mut self, cx: &Context)
        ensures
            adds_to(old(self)@.st.diagnostics, final(self)@.st.diagnostics),
            final(self)@.types == old(self)@.types,
            final(self)@ == old(self)@.audit_task_obligations_at_exit(cx),
    {
        proof {
            reveal(World::audit_task_obligations_at_exit);
        }
        let owners = self.st.flow.task_obligations.clone();
        self.audit_owners(cx, &owners);
    }
}

} // verus!
