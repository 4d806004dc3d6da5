//! The check of the expressions and statements of a body.

use vstd::prelude::*;

use crate::calls::{
    find_type_for, is_mutating, make_call, parameter_types, receiver_passing, Actual,
};
#[allow(unused_imports)]
use crate::calls::{passing_of, simple_call, takes_mutable, type_for, types_of};
use crate::chain::Chain;
#[allow(unused_imports)]
use crate::diagnostics::{adds_to, lemma_adds_nothing, lemma_adds_one, lemma_adds_through};
use crate::diagnostics::Message;
use crate::flow::{join_pair, FlowState};
#[allow(unused_imports)]
use crate::flow::joined_pair;
#[allow(unused_imports)]
use crate::growth::{later, lemma_later_itself, lemma_later_through};
use crate::hir::{
    text_is, BinaryOp, Expr, ExprKind, MatchArm, ReceiverKind, RecordFieldValue, Statement, UnaryOp,
};
use crate::ids::{DefId, ExprId, LocalId, RegionId, TyId, TypeRefId};
use crate::methods::{
    find_fault_accessor, find_list_method, find_resource, find_uncallable_text, single,
    takes_function_arguments, ListMethod, MethodShape, PlannedCall,
};
#[allow(unused_imports)]
use crate::methods::{
    fault_accessor, is_function_builtin, list_method, resource_is_file, uncallable_text,
};
use crate::operators::{check_smallest_magnitude, Arms};
#[allow(unused_imports)]
use crate::operators::{is_logical, is_smallest_magnitude};
#[allow(unused_imports)]
use crate::patterns::one;
use crate::plans::{find_first, CallPlan, StaticPlan};
#[allow(unused_imports)]
use crate::plans::first_of;
use crate::proofs::proof_term;
#[allow(unused_imports)]
use crate::proofs::expr_term;
#[allow(unused_imports)]
use crate::records::field_name;
use crate::records::{make_field_name, FieldActual};
use crate::semantics::{
    BuiltinValue, CallTarget, CallableSignature, ReceiverPassing, TaskIntrinsic,
};
use crate::state::{BodyChecker, Context, ContractMode, ExpressionContext};
#[allow(unused_imports)]
use crate::state::World;
#[allow(unused_imports)]
use crate::steps::{bool_ty, int_ty, text_ty, unit_ty};
use crate::substitution::Substitution;
use crate::ty::{BuiltinType, TyData};
#[allow(unused_imports)]
use crate::ty::{error_ty, never_ty};
use crate::unify::unify_type;
#[allow(unused_imports)]
use crate::unify::unified;

verus! {

broadcast use {
    lemma_adds_nothing,
    lemma_adds_one,
    lemma_adds_through,
    lemma_later_itself,
    lemma_later_through,
};

/// The expected types of the elements before the last, and that of the last.
pub open spec fn split_expected(expected: Option<Chain<TyId>>) -> (
    Option<Chain<TyId>>,
    Option<TyId>,
) {
    match expected {
        Some(Chain::Link(link)) => (Some(link.rest), Some(link.item)),
        _ => (None, None),
    }
}

fn take_expected(expected: &Option<Chain<TyId>>) -> (result: (Option<Chain<TyId>>, Option<TyId>))
    ensures
        result == split_expected(*expected),
{
    match expected {
        Some(Chain::Link(link)) => (Some(link.rest.clone()), Some(link.item)),
        _ => (None, None),
    }
}

/// The list has exactly one element.
pub open spec fn holds_one<T>(list: Chain<T>) -> bool {
    match list {
        Chain::Empty => false,
        Chain::Link(link) => link.rest is Empty,
    }
}

fn check_holds_one<T>(list: &Chain<T>) -> (result: bool)
    ensures
        result == holds_one(*list),
{
    match list {
        Chain::Empty => false,
        Chain::Link(link) => link.rest.is_empty(),
    }
}

/// The builtin behind a method of lists, and how it takes its receiver.
pub open spec fn list_builtin(method: ListMethod) -> (BuiltinValue, ReceiverPassing) {
    match method {
        ListMethod::Add => (BuiltinValue::ListAdd, ReceiverPassing::InOut),
        ListMethod::Length => (BuiltinValue::ListLength, ReceiverPassing::Value),
        ListMethod::Get => (BuiltinValue::ListGet, ReceiverPassing::Value),
        ListMethod::ToTextMap => (BuiltinValue::ListToTextMap, ReceiverPassing::Value),
    }
}

fn find_list_builtin(method: ListMethod) -> (result: (BuiltinValue, ReceiverPassing))
    ensures
        result == list_builtin(method),
{
    match method {
        ListMethod::Add => (BuiltinValue::ListAdd, ReceiverPassing::InOut),
        ListMethod::Length => (BuiltinValue::ListLength, ReceiverPassing::Value),
        ListMethod::Get => (BuiltinValue::ListGet, ReceiverPassing::Value),
        ListMethod::ToTextMap => (BuiltinValue::ListToTextMap, ReceiverPassing::Value),
    }
}

impl World {
    /// The expression `e` is checked against the type that is expected of it.
    /// The result is its type.
    pub open spec fn check_expr(
        self,
        cx: &Context,
        e: Expr,
        expected: Option<TyId>,
        context: ExpressionContext,
    ) -> (World, TyId)
        decreases e, 2nat,
    {
        let allowed = self.st.allow_await_here;
        let (w, inferred) = self.validate_contract_shape(cx, e).check_kind(
            cx,
            e,
            expected,
            context,
            allowed,
        );
        w.finish_expr(cx, e, inferred, expected)
    }

    pub open spec fn check_kind(
        self,
        cx: &Context,
        e: Expr,
        expected: Option<TyId>,
        context: ExpressionContext,
        await_allowed: bool,
    ) -> (World, TyId)
        decreases e, 1nat,
    {
        match e.kind {
            ExprKind::Error => (self, error_ty()),
            ExprKind::Literal(literal) => self.check_literal(e, literal),
            ExprKind::Tuple(elements) => self.check_tuple(cx, elements, expected),
            ExprKind::List(elements) => self.check_list(cx, e, elements, expected),
            ExprKind::Path(path) => self.check_path(cx, e, path, expected),
            ExprKind::SelfValue => self.check_self(cx, e),
            ExprKind::ResultValue => self.check_result(cx, e),
            ExprKind::Old(value) => self.check_old(cx, e, *value),
            ExprKind::Block { statements: _, tail: _ } => self.check_block(cx, e, expected),
            ExprKind::If { condition: _, then_branch: _, else_branch: _ } => self.check_if(
                cx,
                e,
                expected,
                context,
            ),
            ExprKind::Match { scrutinee: _, arms: _ } => self.check_match(
                cx,
                e,
                expected,
                context,
            ),
            ExprKind::Call { callee: _, type_arguments: _, arguments: _ } => self.check_call(
                cx,
                e,
                expected,
            ),
            ExprKind::MethodCall { receiver: _, method: _, type_arguments: _, arguments: _ } =>
                self.check_method_call(cx, e, expected),
            ExprKind::QualifiedMethodCall {
                self_ty: _,
                concept: _,
                method: _,
                type_arguments: _,
                arguments: _,
            } => self.check_qualified_call(cx, e, expected),
            ExprKind::Field { receiver: _, name: _ } => self.check_field(cx, e, expected),
            ExprKind::Unary { op, operand } => self.check_unary(cx, e, op, *operand),
            ExprKind::Binary { op: _, left: _, right: _ } => self.check_binary(cx, e),
            ExprKind::Assign { target: _, value: _ } => self.check_assignment(cx, e),
            ExprKind::RecordLiteral { ty: _, fields: _ } => self.check_record_literal(
                cx,
                e,
                expected,
            ),
            ExprKind::Await(value) => self.check_await(cx, e, *value, await_allowed),
            ExprKind::Propagate(value) => self.check_propagate(cx, e, *value),
            ExprKind::Return(_) => self.check_return(cx, e),
        }
    }

    /// An expression in which `await` may stand directly.
    pub open spec fn check_suspendable_expr(
        self,
        cx: &Context,
        e: Expr,
        expected: Option<TyId>,
        context: ExpressionContext,
    ) -> (World, TyId)
        decreases e, 3nat,
    {
        let previous = self.st.allow_await_here;
        let (w, ty) = self.set_await(true).check_expr(cx, e, expected, context);
        (w.set_await(previous), ty)
    }

    /// An expression of which a part is used.
    pub open spec fn check_projected(self, cx: &Context, e: Expr, expected: Option<TyId>) -> (
        World,
        TyId,
    )
        decreases e, 3nat,
    {
        let projection = self.st.allow_dirty_self_projection;
        let scoped = self.st.checking_scoped_receiver;
        let (w, ty) = self.set_receiver_flags(true, true).check_expr(
            cx,
            e,
            expected,
            ExpressionContext::Value,
        );
        (w.set_receiver_flags(projection, scoped), ty)
    }

    pub open spec fn check_call_receiver(self, cx: &Context, e: Expr, expected: Option<TyId>) -> (
        World,
        TyId,
    )
        decreases e, 4nat,
    {
        let (w, ty) = self.check_projected(cx, e, expected);
        (w.check_receiver_isolation(e.id, e.span), ty)
    }

    pub open spec fn check_old(self, cx: &Context, e: Expr, value: Expr) -> (World, TyId)
        decreases value, 3nat,
    {
        let (w, ty) = self.begin_old(e).check_expr(cx, value, None, ExpressionContext::Value);
        (w.end_old(e, ty), ty)
    }

    pub open spec fn check_await(self, cx: &Context, e: Expr, value: Expr, allowed: bool) -> (
        World,
        TyId,
    )
        decreases value, 3nat,
    {
        let (w, task) = self.begin_await(cx, e, allowed).check_expr(
            cx,
            value,
            None,
            ExpressionContext::Value,
        );
        w.consume_task_obligation(cx, value).end_await(e, task)
    }

    pub open spec fn check_propagate(self, cx: &Context, e: Expr, value: Expr) -> (World, TyId)
        decreases value, 3nat,
    {
        let (w, operand) = self.begin_propagate(e).check_expr(
            cx,
            value,
            None,
            ExpressionContext::Value,
        );
        w.end_propagate(cx, e, value, operand)
    }

    /// The expressions are checked in order. The result is their types.
    pub open spec fn check_each(
        self,
        cx: &Context,
        list: Chain<Expr>,
        expected: Option<Chain<TyId>>,
    ) -> (World, Chain<TyId>)
        decreases list, 0nat,
    {
        match list {
            Chain::Empty => (self, Chain::Empty),
            Chain::Link(link) => {
                let (before, own) = split_expected(expected);
                let (w, types) = self.check_each(cx, link.rest, before);
                let (w, ty) = w.check_expr(cx, link.item, own, ExpressionContext::Value);
                (w, types.pushed(ty))
            },
        }
    }

    pub open spec fn check_tuple(
        self,
        cx: &Context,
        elements: Chain<Expr>,
        expected: Option<TyId>,
    ) -> (
        World,
        TyId,
    )
        decreases elements, 1nat,
    {
        let (w, types) = self.check_each(cx, elements, self.tuple_elements(elements, expected));
        w.intern(TyData::Tuple(types))
    }

    /// The elements of a list: the first settles the type of the others.
    pub open spec fn check_elements(
        self,
        cx: &Context,
        elements: Chain<Expr>,
        expected: Option<TyId>,
    ) -> (World, TyId)
        decreases elements, 0nat,
    {
        match elements {
            Chain::Empty => (self, error_ty()),
            Chain::Link(link) => if link.rest is Empty {
                let (w, ty) = self.check_expr(cx, link.item, expected, ExpressionContext::Value);
                match expected {
                    Some(element) => (w, element),
                    None => (w, ty),
                }
            } else {
                let (w, element) = self.check_elements(cx, link.rest, expected);
                (
                    w.check_expr(cx, link.item, Some(element), ExpressionContext::Value).0,
                    element,
                )
            },
        }
    }

    pub open spec fn check_list(
        self,
        cx: &Context,
        e: Expr,
        elements: Chain<Expr>,
        expected: Option<TyId>,
    ) -> (World, TyId)
        decreases elements, 1nat,
    {
        let element = self.list_element(expected);
        if elements is Empty {
            self.empty_list(e, element)
        } else {
            let (w, ty) = self.check_elements(cx, elements, element);
            w.intern(TyData::List(ty))
        }
    }

    /// A block, with its statements and its tail.
    pub open spec fn check_block(self, cx: &Context, e: Expr, expected: Option<TyId>) -> (
        World,
        TyId,
    )
        decreases e, 0nat,
    {
        match e.kind {
            ExprKind::Block { statements, tail } => {
                let region = RegionId(self.st.next_region);
                let effects = self.st.active_defer_effects;
                let (w, diverges) = self.open_block().check_statements(cx, statements, region);
                match tail {
                    Some(tail) => {
                        let flow = w.st.flow;
                        let (w, ty) = w.check_suspendable_expr(
                            cx,
                            *tail,
                            expected,
                            ExpressionContext::Value,
                        );
                        if diverges {
                            (w.restored(flow).close_block(cx, region, effects), never_ty())
                        } else {
                            (w.yield_tail(cx, *tail, ty).close_block(cx, region, effects), ty)
                        }
                    },
                    None => (
                        w.close_block(cx, region, effects),
                        if diverges {
                            never_ty()
                        } else {
                            unit_ty()
                        },
                    ),
                }
            },
            _ => (self, error_ty()),
        }
    }

    /// The statements of a block are checked in order. The result is whether
    /// their end cannot be reached; what stands behind such a statement is
    /// checked without effect on the flow.
    pub open spec fn check_statements(
        self,
        cx: &Context,
        list: Chain<Statement>,
        region: RegionId,
    ) -> (World, bool)
        decreases list, 0nat,
    {
        match list {
            Chain::Empty => (self, false),
            Chain::Link(link) => {
                let (w, diverged) = self.check_statements(cx, link.rest, region);
                let flow = w.st.flow;
                let effects = w.st.active_defer_effects;
                let (w, diverges) = w.check_statement(cx, link.item, region, diverged);
                if diverged {
                    (w.restored(flow).set_effects(effects), true)
                } else {
                    (w, diverges)
                }
            },
        }
    }

    pub open spec fn check_statement(
        self,
        cx: &Context,
        statement: Statement,
        region: RegionId,
        diverged: bool,
    ) -> (World, bool)
        decreases statement, 1nat,
    {
        match statement {
            Statement::Let { local, value } => self.check_let(cx, local, value, false, region),
            Statement::Scoped { local, value } => self.check_let(cx, local, value, true, region),
            Statement::LetTuple { locals, value } => {
                let (w, ty) = self.check_suspendable_expr(
                    cx,
                    value,
                    None,
                    ExpressionContext::Value,
                );
                (w.end_let_tuple(cx, locals, value, ty), w.data(ty) is Never)
            },
            Statement::ForRange { local, start, end, body } => {
                let (w, _) = self.check_suspendable_expr(
                    cx,
                    start,
                    Some(int_ty()),
                    ExpressionContext::Value,
                );
                let (w, _) = w.check_suspendable_expr(
                    cx,
                    end,
                    Some(int_ty()),
                    ExpressionContext::Value,
                );
                let scopes = w.st.scopes;
                let w = w.begin_range(cx, local);
                let entry = w.st.flow;
                let (w, _) = w.check_expr(cx, body, Some(unit_ty()), ExpressionContext::Value);
                (w.end_loop(entry, entry, body).set_scopes(scopes), false)
            },
            Statement::While { condition: _, body: _ } => self.check_while(cx, statement),
            Statement::Break { span } => (self.jump(span, true, !diverged), true),
            Statement::Continue { span } => (self.jump(span, false, !diverged), true),
            Statement::Defer { body } => {
                let flow = self.st.flow;
                let effects = self.st.active_defer_effects;
                let boundaries = self.st.current_defer_self_boundaries;
                let (w, _) = self.begin_defer(body).check_expr(
                    cx,
                    body,
                    Some(unit_ty()),
                    ExpressionContext::Value,
                );
                (w.end_defer(flow, effects, boundaries), false)
            },
            Statement::Discard(e) => {
                let previous = self.st.checking_discard_operand;
                let (w, ty) = self.set_discard(true).check_suspendable_expr(
                    cx,
                    e,
                    None,
                    ExpressionContext::Value,
                );
                (w.set_discard(previous).end_discard(cx, e, ty), w.data(ty) is Never)
            },
            Statement::Expr(e) => {
                let (w, ty) = self.check_suspendable_expr(
                    cx,
                    e,
                    None,
                    ExpressionContext::UnitStatement,
                );
                (w.end_expr_statement(cx, e, ty), w.data(ty) is Never)
            },
            Statement::Assert(e) => {
                let previous = self.st.contract;
                let (w, ty) = self.set_contract(
                    ContractMode::Predicate { old_allowed: false },
                ).check_expr(cx, e, Some(bool_ty()), ExpressionContext::Value);
                (
                    w.set_contract(previous).end_assert(cx, e),
                    w.expression_diverges(e.id) || w.data(ty) is Never,
                )
            },
        }
    }

    pub open spec fn check_let(
        self,
        cx: &Context,
        local: LocalId,
        value: Expr,
        scoped: bool,
        region: RegionId,
    ) -> (World, bool)
        decreases value, 4nat,
    {
        let (w, annotation) = self.begin_let(cx, local, scoped).resolve_annotation(cx, local);
        let previous = w.st.scoped_initializer;
        let w = if scoped {
            w.set_initializer(Some(value.id))
        } else {
            w
        };
        let (w, ty) = w.check_suspendable_expr(
            cx,
            value,
            annotation,
            ExpressionContext::Value,
        );
        (
            w.set_initializer(previous).end_let(cx, local, value, ty, scoped, region),
            w.data(ty) is Never,
        )
    }

    /// A loop with a condition. Where the condition never ends, its body is
    /// checked without effect on the flow.
    pub open spec fn check_while(self, cx: &Context, statement: Statement) -> (World, bool)
        decreases statement, 0nat,
    {
        match statement {
            Statement::While { condition, body } => {
                let w = self.forget_proofs();
                let header = w.st.flow;
                let (w, _) = w.check_expr(
                    cx,
                    condition,
                    Some(bool_ty()),
                    ExpressionContext::Value,
                );
                let exit = w.st.flow;
                if w.expression_diverges(condition.id) {
                    let (w, _) = w.restored(header).forget_proofs().begin_loop().check_expr(
                        cx,
                        body,
                        Some(unit_ty()),
                        ExpressionContext::Value,
                    );
                    (w.drop_loop().restored(exit), true)
                } else {
                    let (w, _) = w.begin_loop().check_expr(
                        cx,
                        body,
                        Some(unit_ty()),
                        ExpressionContext::Value,
                    );
                    (w.end_loop(header, exit, body), false)
                }
            },
            _ => (self, false),
        }
    }

    pub open spec fn check_if(
        self,
        cx: &Context,
        e: Expr,
        expected: Option<TyId>,
        context: ExpressionContext,
    ) -> (World, TyId)
        decreases e, 0nat,
    {
        match e.kind {
            ExprKind::If { condition, then_branch, else_branch } => {
                let (w, _) = self.check_expr(
                    cx,
                    *condition,
                    Some(bool_ty()),
                    ExpressionContext::Value,
                );
                let entry = w.st.flow;
                let term = expr_term(cx, w.st, *condition, 0);
                let (w, then_ty) = w.assume_condition(term, true).check_expr(
                    cx,
                    *then_branch,
                    expected,
                    context,
                );
                match else_branch {
                    Some(else_branch) => {
                        let then_diverges = w.expression_diverges(then_branch.id);
                        let then_state = w.st.flow;
                        let expected_else = match expected {
                            Some(ty) => Some(ty),
                            None => if then_diverges {
                                None
                            } else {
                                Some(then_ty)
                            },
                        };
                        let (w, else_ty) = w.restored(entry).assume_condition(
                            term,
                            false,
                        ).check_expr(cx, *else_branch, expected_else, context);
                        w.end_if_else(
                            cx,
                            entry,
                            then_state,
                            then_ty,
                            then_diverges,
                            *else_branch,
                            else_ty,
                        )
                    },
                    None => (
                        w.end_if(
                            cx,
                            *then_branch,
                            then_ty,
                            entry,
                            context != ExpressionContext::UnitStatement && expected != Some(
                                unit_ty(),
                            ),
                        ),
                        unit_ty(),
                    ),
                }
            },
            _ => (self, error_ty()),
        }
    }

    pub open spec fn check_unary(self, cx: &Context, e: Expr, op: UnaryOp, operand: Expr) -> (
        World,
        TyId,
    )
        decreases operand, 3nat,
    {
        if is_smallest_magnitude(op, operand) {
            self.set_type(operand.id, int_ty()).end_unary(cx, e, op, operand, int_ty())
        } else {
            let (w, ty) = self.check_expr(cx, operand, None, ExpressionContext::Value);
            w.end_unary(cx, e, op, operand, ty)
        }
    }

    pub open spec fn check_binary(self, cx: &Context, e: Expr) -> (World, TyId)
        decreases e, 0nat,
    {
        match e.kind {
            ExprKind::Binary { op, left, right } => {
                let (w, left_ty) = self.check_expr(cx, *left, None, ExpressionContext::Value);
                let entry = w.st.flow;
                let (w, right_ty) = w.check_expr(cx, *right, None, ExpressionContext::Value);
                let w = if is_logical(op) {
                    w.restored(joined_pair(entry, w.st.flow))
                } else {
                    w
                };
                w.end_binary(cx, e, op, *left, left_ty, *right, right_ty)
            },
            _ => (self, error_ty()),
        }
    }

    pub open spec fn check_assignment(self, cx: &Context, e: Expr) -> (World, TyId)
        decreases e, 0nat,
    {
        match e.kind {
            ExprKind::Assign { target, value } => {
                let (w, target_ty) = self.set_assignment_target(true).check_expr(
                    cx,
                    *target,
                    None,
                    ExpressionContext::Value,
                );
                let w = w.set_assignment_target(false);
                match w.place_of(target.id) {
                    None => {
                        let (w, _) = w.text_error(
                            "InvalidAssignmentTarget",
                            "assignment target is not a writable place",
                            target.span,
                        ).check_expr(cx, *value, Some(target_ty), ExpressionContext::Value);
                        (w, unit_ty())
                    },
                    Some(place) => {
                        let (w, dirties) = w.begin_assignment(cx, *target, target_ty, place);
                        let (w, _) = w.check_expr(
                            cx,
                            *value,
                            Some(target_ty),
                            ExpressionContext::Value,
                        );
                        (w.end_assignment(cx, e, place, target_ty, *value, dirties), unit_ty())
                    },
                }
            },
            _ => (self, error_ty()),
        }
    }

    pub open spec fn check_return(self, cx: &Context, e: Expr) -> (World, TyId)
        decreases e, 0nat,
    {
        match e.kind {
            ExprKind::Return(value) => {
                let w = self.begin_return(cx, value is None);
                let w = match value {
                    Some(value) => {
                        let (w, _) = w.check_suspendable_expr(
                            cx,
                            *value,
                            Some(cx.environment.return_ty),
                            ExpressionContext::Value,
                        );
                        w.yield_tail(cx, *value, cx.environment.return_ty)
                    },
                    None => w,
                };
                (w.audit_task_obligations_at_exit(cx), never_ty())
            },
            _ => (self, error_ty()),
        }
    }

    pub open spec fn check_field(self, cx: &Context, e: Expr, expected: Option<TyId>) -> (
        World,
        TyId,
    )
        decreases e, 0nat,
    {
        match e.kind {
            ExprKind::Field { receiver, name } => match self.named_variant(
                cx,
                *receiver,
                name@,
            ) {
                Some((variant, owner)) => self.bare_variant(cx, e, variant, owner, expected),
                None => {
                    let (w, ty) = self.check_projected(cx, *receiver, None);
                    w.end_field(cx, e, *receiver, ty, name)
                },
            },
            _ => (self, error_ty()),
        }
    }

    pub open spec fn check_match(
        self,
        cx: &Context,
        e: Expr,
        expected: Option<TyId>,
        context: ExpressionContext,
    ) -> (World, TyId)
        decreases e, 0nat,
    {
        match e.kind {
            ExprKind::Match { scrutinee, arms } => {
                let (w, ty) = self.check_expr(cx, *scrutinee, None, ExpressionContext::Value);
                let w = w.hand_on(cx, *scrutinee);
                let entry = w.st.flow;
                let (w, checked) = w.check_arms(cx, arms, ty, entry, expected, context);
                w.end_match(cx, *scrutinee, ty, entry, checked, !(arms is Empty))
            },
            _ => (self, error_ty()),
        }
    }

    pub open spec fn check_arms(
        self,
        cx: &Context,
        arms: Chain<MatchArm>,
        scrutinee_ty: TyId,
        entry: FlowState,
        expected: Option<TyId>,
        context: ExpressionContext,
    ) -> (World, Arms)
        decreases arms, 0nat,
    {
        match arms {
            Chain::Empty => (
                self,
                Arms {
                    result: expected,
                    rows: Chain::Empty,
                    exits: Chain::Empty,
                    reachable: false,
                },
            ),
            Chain::Link(link) => {
                let (w, before) = self.check_arms(
                    cx,
                    link.rest,
                    scrutinee_ty,
                    entry,
                    expected,
                    context,
                );
                let (w, useful, rows) = w.begin_arm(
                    cx,
                    link.item.pattern,
                    scrutinee_ty,
                    entry,
                    before.rows,
                );
                let (w, arm_ty) = w.check_expr(cx, link.item.value, before.result, context);
                w.end_arm(
                    cx,
                    link.item.value,
                    link.item.span,
                    arm_ty,
                    useful,
                    Arms { rows, ..before },
                )
            },
        }
    }

    /// The first argument of a call is checked.
    pub open spec fn check_first(
        self,
        cx: &Context,
        arguments: Chain<Expr>,
        expected: Option<TyId>,
    ) -> (World, TyId)
        decreases arguments, 0nat,
    {
        match arguments {
            Chain::Empty => (self, error_ty()),
            Chain::Link(link) => if link.rest is Empty {
                self.check_expr(cx, link.item, expected, ExpressionContext::Value)
            } else {
                self.check_first(cx, link.rest, expected)
            },
        }
    }

    /// The first argument of a call is checked as its receiver.
    pub open spec fn check_first_receiver(
        self,
        cx: &Context,
        arguments: Chain<Expr>,
        expected: Option<TyId>,
    ) -> (World, TyId)
        decreases arguments, 0nat,
    {
        match arguments {
            Chain::Empty => (self, error_ty()),
            Chain::Link(link) => if link.rest is Empty {
                self.check_call_receiver(cx, link.item, expected)
            } else {
                self.check_first_receiver(cx, link.rest, expected)
            },
        }
    }

    pub open spec fn check_fixed_each(
        self,
        cx: &Context,
        arguments: Chain<Expr>,
        types: Chain<TyId>,
        skip_first: bool,
    ) -> World
        decreases arguments, 0nat,
    {
        match arguments {
            Chain::Empty => self,
            Chain::Link(link) => {
                let w = self.check_fixed_each(cx, link.rest, types, skip_first);
                match type_for(types, link.rest, skip_first) {
                    Some(ty) => {
                        let (w, _) = w.check_expr(
                            cx,
                            link.item,
                            Some(ty),
                            ExpressionContext::Value,
                        );
                        w.end_fixed_argument(cx, link.item, ty)
                    },
                    None => w,
                }
            },
        }
    }

    /// The arguments of a call whose parameters have these types.
    pub open spec fn check_fixed_arguments(
        self,
        cx: &Context,
        e: Expr,
        arguments: Chain<Expr>,
        types: Chain<TyId>,
        skip_first: bool,
    ) -> World
        decreases arguments, 1nat,
    {
        self.check_arity(
            e.span,
            types,
            if skip_first {
                arguments.without_last()
            } else {
                arguments
            },
        ).check_fixed_each(cx, arguments, types, skip_first)
    }

    /// The arguments of a call whose parameters have these types, which may
    /// hold generic parameters. The arguments settle those.
    pub open spec fn check_arguments(
        self,
        cx: &Context,
        arguments: Chain<Expr>,
        types: Chain<TyId>,
        skip_first: bool,
        borrowing: bool,
        substitution: Substitution,
    ) -> (World, Substitution, Chain<Actual>)
        decreases arguments, 0nat,
    {
        match arguments {
            Chain::Empty => (self, substitution, Chain::Empty),
            Chain::Link(link) => {
                let (w, known, list) = self.check_arguments(
                    cx,
                    link.rest,
                    types,
                    skip_first,
                    borrowing,
                    substitution,
                );
                match type_for(types, link.rest, skip_first) {
                    Some(declared) => {
                        let mode = w.st.dynamic_coercion_mode;
                        let (w, expected) = w.prepare_argument(declared, known, borrowing);
                        let (w, actual) = w.check_expr(
                            cx,
                            link.item,
                            expected,
                            ExpressionContext::Value,
                        );
                        let w = w.with_mode(mode);
                        (
                            w,
                            unified(w.types, declared, actual, known).0,
                            list.pushed(Actual { actual, declared }),
                        )
                    },
                    None => (w, known, list),
                }
            },
        }
    }

    /// The arguments of a call of a function or method. The result is the
    /// type that it returns.
    pub open spec fn check_callable_arguments(
        self,
        cx: &Context,
        e: Expr,
        signature: CallableSignature,
        arguments: Chain<Expr>,
        skip_first: bool,
        explicit: Chain<TyId>,
        expected: Option<TyId>,
        substitution: Substitution,
    ) -> (World, Substitution, TyId)
        decreases arguments, 1nat,
    {
        let (w, known) = self.start_callable(
            e,
            signature,
            arguments,
            skip_first,
            explicit,
            expected,
            substitution,
        );
        let (w, known, actuals) = w.check_arguments(
            cx,
            arguments,
            types_of(signature.params),
            skip_first,
            !signature.is_async,
            known,
        );
        let (w, ty) = w.end_callable(cx, e, signature, arguments, skip_first, actuals, known);
        (w, known, ty)
    }

    pub open spec fn check_call(self, cx: &Context, e: Expr, expected: Option<TyId>) -> (
        World,
        TyId,
    )
        decreases e, 0nat,
    {
        match e.kind {
            ExprKind::Call { callee, type_arguments, arguments } => match self.call_plan(
                cx,
                *callee,
            ) {
                CallPlan::Unnamed => {
                    let (w, _) = self.check_expr(cx, *callee, None, ExpressionContext::Value);
                    (
                        w.text_error(
                            "TypeMismatch",
                            "only named functions and constructors are callable",
                            e.span,
                        ),
                        error_ty(),
                    )
                },
                CallPlan::Collection { is_list } => self.construct_collection(
                    cx,
                    e,
                    is_list,
                    type_arguments,
                    arguments,
                ),
                CallPlan::Builtin(builtin) => self.check_builtin_call(
                    cx,
                    e,
                    builtin,
                    arguments,
                    expected,
                ),
                CallPlan::Function { definition, signature } => {
                    let (w, explicit) = self.resolve_written_types(cx, type_arguments);
                    let (w, known, ty) = w.check_callable_arguments(
                        cx,
                        e,
                        signature,
                        arguments,
                        false,
                        explicit,
                        expected,
                        Substitution::empty(),
                    );
                    let (w, ty) = w.settle_call(
                        cx,
                        e,
                        arguments,
                        false,
                        signature,
                        ty,
                        known,
                        CallTarget::Function(definition),
                        None,
                        None,
                    );
                    w.finish_async_call(cx, e.span, signature.is_async, ty)
                },
                CallPlan::NotCallable => (
                    self.text_error("TypeMismatch", "name is not callable", e.span),
                    error_ty(),
                ),
                CallPlan::Refined { definition, base } => self.check_refined_call(
                    cx,
                    e,
                    definition,
                    cx.written_ty(base),
                    type_arguments,
                    arguments,
                ),
                CallPlan::Unknown(path) => (
                    self.error(
                        "UnknownName",
                        Message::Path("unknown callable `", path, "`"),
                        e.span,
                    ),
                    error_ty(),
                ),
            },
            _ => (self, error_ty()),
        }
    }

    pub open spec fn check_refined_call(
        self,
        cx: &Context,
        e: Expr,
        definition: DefId,
        base: TyId,
        type_arguments: Chain<TypeRefId>,
        arguments: Chain<Expr>,
    ) -> (World, TyId)
        decreases arguments, 1nat,
    {
        match arguments {
            Chain::Link(link) => if link.rest is Empty && type_arguments is Empty {
                let (w, _) = self.check_expr(
                    cx,
                    link.item,
                    Some(base),
                    ExpressionContext::Value,
                );
                w.end_refined(cx, e, definition, link.item, base)
            } else {
                self.wrong_refined(e)
            },
            Chain::Empty => self.wrong_refined(e),
        }
    }

    pub open spec fn wrong_refined(self, e: Expr) -> (World, TyId) {
        (
            self.text_error(
                "TypeMismatch",
                "a constrained constructor takes exactly one value",
                e.span,
            ),
            error_ty(),
        )
    }

    pub open spec fn check_builtin_call(
        self,
        cx: &Context,
        e: Expr,
        builtin: BuiltinValue,
        arguments: Chain<Expr>,
        expected: Option<TyId>,
    ) -> (World, TyId)
        decreases arguments, 3nat,
    {
        if builtin == BuiltinValue::OptionSome {
            let (w, ty) = self.check_some_call(cx, e, arguments, expected);
            (w.settle_builtin(e, arguments, builtin, None), ty)
        } else if builtin == BuiltinValue::ResultOk || builtin == BuiltinValue::ResultErr {
            let (w, ty) = self.check_result_constructor_call(
                cx,
                e,
                builtin,
                arguments,
                expected,
            );
            (w.settle_builtin(e, arguments, builtin, None), ty)
        } else if is_function_builtin(builtin) {
            let (w, params) = self.builtin_params(cx, builtin, e.span);
            let (w, ty) = w.check_fixed_arguments(cx, e, arguments, params, false).builtin_result(
                cx,
                builtin,
                e.span,
            );
            (w.settle_builtin(e, arguments, builtin, None), ty)
        } else {
            match resource_is_file(builtin) {
                Some(is_file) => self.check_resource_primitive_call(
                    cx,
                    e,
                    builtin,
                    arguments,
                    is_file,
                ),
                None => (
                    self.text_error(
                        "TypeMismatch",
                        uncallable_text(builtin),
                        e.span,
                    ).settle_builtin(e, arguments, builtin, None),
                    error_ty(),
                ),
            }
        }
    }

    pub open spec fn check_some_call(
        self,
        cx: &Context,
        e: Expr,
        arguments: Chain<Expr>,
        expected: Option<TyId>,
    ) -> (World, TyId)
        decreases arguments, 1nat,
    {
        if holds_one(arguments) {
            let (w, element) = self.check_first(cx, arguments, self.option_element(expected));
            w.intern(TyData::Option(element))
        } else {
            (self.check_arity(e.span, one(()), arguments), error_ty())
        }
    }

    pub open spec fn check_result_constructor_call(
        self,
        cx: &Context,
        e: Expr,
        builtin: BuiltinValue,
        arguments: Chain<Expr>,
        expected: Option<TyId>,
    ) -> (World, TyId)
        decreases arguments, 1nat,
    {
        if holds_one(arguments) {
            let (w, payload) = self.result_payload(e, builtin, expected);
            match (payload, expected) {
                (Some(ty), Some(result)) => (w.check_first(cx, arguments, Some(ty)).0, result),
                _ => (w, error_ty()),
            }
        } else {
            (self.check_arity(e.span, one(()), arguments), error_ty())
        }
    }

    pub open spec fn check_resource_primitive_call(
        self,
        cx: &Context,
        e: Expr,
        builtin: BuiltinValue,
        arguments: Chain<Expr>,
        is_file: bool,
    ) -> (World, TyId)
        decreases arguments, 2nat,
    {
        let (w, resource) = if is_file {
            self.file_type(cx, e.span)
        } else {
            self.socket_type(cx, e.span)
        };
        let (w, shape) = w.resource_shape(cx, builtin, e.span);
        match first_of(arguments) {
            None => (
                w.check_arity(e.span, shape.params.pushed(resource), arguments).settle_builtin(
                    e,
                    arguments,
                    builtin,
                    Some(shape.passing),
                ),
                error_ty(),
            ),
            Some(receiver) => {
                let (w, _) = w.check_first_receiver(cx, arguments, Some(resource));
                let mutable = shape.passing == ReceiverPassing::InOut;
                let (w, scope) = w.require_mutable(
                    receiver,
                    mutable,
                    "the compiler-private close primitive requires a mutable self receiver",
                ).begin_inout(cx, receiver.id, receiver.span, mutable);
                (
                    w.check_fixed_arguments(cx, e, arguments, shape.params, true).end_inout(
                        scope,
                        receiver.span,
                    ).settle_builtin(e, arguments, builtin, Some(shape.passing)),
                    shape.result,
                )
            },
        }
    }

    pub open spec fn check_method_call(self, cx: &Context, e: Expr, expected: Option<TyId>) -> (
        World,
        TyId,
    )
        decreases e, 0nat,
    {
        match e.kind {
            ExprKind::MethodCall { receiver, method, type_arguments, arguments } =>
                match self.static_plan(cx, *receiver, method@) {
                    StaticPlan::Variant { variant, owner } => self.check_variant_constructor(
                        cx,
                        e,
                        variant,
                        owner,
                        type_arguments,
                        arguments,
                        expected,
                    ),
                    StaticPlan::Task(intrinsic) => self.check_task_intrinsic_call(
                        cx,
                        e,
                        intrinsic,
                        type_arguments,
                        arguments,
                    ),
                    StaticPlan::PathFromText => self.check_path_from_text(
                        cx,
                        e,
                        type_arguments,
                        arguments,
                    ),
                    StaticPlan::Value => {
                        let (w, ty) = self.check_call_receiver(cx, *receiver, None);
                        w.check_value_method(
                            cx,
                            e,
                            *receiver,
                            ty,
                            method,
                            type_arguments,
                            arguments,
                            expected,
                        )
                    },
                },
            _ => (self, error_ty()),
        }
    }

    pub open spec fn check_variant_constructor(
        self,
        cx: &Context,
        e: Expr,
        variant: DefId,
        owner: DefId,
        type_arguments: Chain<TypeRefId>,
        arguments: Chain<Expr>,
        expected: Option<TyId>,
    ) -> (World, TyId)
        decreases arguments, 1nat,
    {
        match self.begin_variant(
            cx,
            e,
            variant,
            owner,
            true,
            type_arguments,
            arguments,
            expected,
        ) {
            (w, Some(call)) => {
                let (w, known, actuals) = w.check_arguments(
                    cx,
                    arguments,
                    call.payload,
                    false,
                    false,
                    call.substitution,
                );
                w.end_variant(cx, e, variant, owner, arguments, actuals, known)
            },
            (w, None) => (w, error_ty()),
        }
    }

    pub open spec fn check_task_intrinsic_call(
        self,
        cx: &Context,
        e: Expr,
        intrinsic: TaskIntrinsic,
        type_arguments: Chain<TypeRefId>,
        arguments: Chain<Expr>,
    ) -> (World, TyId)
        decreases arguments, 2nat,
    {
        let w = self.reject_type_arguments(
            e,
            type_arguments,
            "Task standard-library functions do not accept explicit type arguments",
        );
        let (w, ty) = if intrinsic == TaskIntrinsic::Sleep {
            w.check_sleep(cx, e, arguments)
        } else {
            w.check_task_join(cx, e, intrinsic, arguments)
        };
        (w.set_call(e.id, simple_call(CallTarget::TaskIntrinsic(intrinsic))), ty)
    }

    pub open spec fn check_sleep(self, cx: &Context, e: Expr, arguments: Chain<Expr>) -> (
        World,
        TyId,
    )
        decreases arguments, 1nat,
    {
        let w = self.check_arity(e.span, one(()), arguments);
        let w = match first_of(arguments) {
            Some(argument) => {
                let (w, ty) = w.check_first(cx, arguments, None);
                w.end_sleep_argument(argument, ty)
            },
            None => w,
        };
        w.finish_call_arguments(arguments, false).intern(TyData::Task(unit_ty()))
    }

    pub open spec fn check_task_join(
        self,
        cx: &Context,
        e: Expr,
        mode: TaskIntrinsic,
        arguments: Chain<Expr>,
    ) -> (World, TyId)
        decreases arguments, 1nat,
    {
        if arguments is Empty {
            (
                self.text_error(
                    "EmptyStaticTaskJoin",
                    "fixed Task joins require at least one task; use a typed empty List for all/settled",
                    e.span,
                ),
                error_ty(),
            )
        } else {
            let (w, types) = self.check_each(cx, arguments, None);
            w.consume_tasks(cx, arguments).finish_call_arguments(arguments, false).end_join(
                e,
                mode,
                types,
            )
        }
    }

    pub open spec fn check_path_from_text(
        self,
        cx: &Context,
        e: Expr,
        type_arguments: Chain<TypeRefId>,
        arguments: Chain<Expr>,
    ) -> (World, TyId)
        decreases arguments, 2nat,
    {
        let (w, result) = self.path_result(cx, e.span);
        (
            w.reject_type_arguments(
                e,
                type_arguments,
                "standard static methods do not accept explicit type arguments",
            ).check_fixed_arguments(cx, e, arguments, one(text_ty()), false).settle_builtin(
                e,
                arguments,
                BuiltinValue::PathFromText,
                None,
            ),
            result,
        )
    }

    /// A method call on a value of the given type.
    pub open spec fn check_value_method(
        self,
        cx: &Context,
        e: Expr,
        receiver: Expr,
        receiver_ty: TyId,
        method: String,
        type_arguments: Chain<TypeRefId>,
        arguments: Chain<Expr>,
        expected: Option<TyId>,
    ) -> (World, TyId)
        decreases arguments, 4nat,
    {
        match self.data(receiver_ty) {
            TyData::List(element) => match list_method(method@) {
                Some(kind) => self.check_list_method_call(
                    cx,
                    e,
                    receiver,
                    element,
                    kind,
                    type_arguments,
                    arguments,
                ),
                None => self.check_other_method(
                    cx,
                    e,
                    receiver,
                    receiver_ty,
                    method,
                    type_arguments,
                    arguments,
                    expected,
                ),
            },
            TyData::TextMap(value) => {
                let (w, carries_task) = self.has_task_obligation(cx, value);
                match w.text_map_method(value, method@) {
                    (w, Some(shape)) => w.check_text_map_method_call(
                        cx,
                        e,
                        receiver,
                        shape,
                        carries_task,
                        type_arguments,
                        arguments,
                    ),
                    (w, None) => w.check_other_method(
                        cx,
                        e,
                        receiver,
                        receiver_ty,
                        method,
                        type_arguments,
                        arguments,
                        expected,
                    ),
                }
            },
            TyData::Builtin(builtin) => match (
                builtin == BuiltinType::TaskFault,
                fault_accessor(method@),
            ) {
                (true, Some(accessor)) => (
                    self.fault_call(e, accessor, type_arguments, arguments),
                    text_ty(),
                ),
                _ => match self.value_method(cx, e.span, builtin, method@) {
                    (w, Some(shape)) => w.check_builtin_value_method_call(
                        cx,
                        e,
                        receiver,
                        shape,
                        type_arguments,
                        arguments,
                    ),
                    (w, None) => w.check_other_method(
                        cx,
                        e,
                        receiver,
                        receiver_ty,
                        method,
                        type_arguments,
                        arguments,
                        expected,
                    ),
                },
            },
            _ => self.check_other_method(
                cx,
                e,
                receiver,
                receiver_ty,
                method,
                type_arguments,
                arguments,
                expected,
            ),
        }
    }

    /// A method call that no builtin type answers.
    pub open spec fn check_other_method(
        self,
        cx: &Context,
        e: Expr,
        receiver: Expr,
        receiver_ty: TyId,
        method: String,
        type_arguments: Chain<TypeRefId>,
        arguments: Chain<Expr>,
        expected: Option<TyId>,
    ) -> (World, TyId)
        decreases arguments, 3nat,
    {
        if self.is_canonical_resource_type(cx, receiver_ty) && method@ == "close"@ {
            (self.reject_close(e, receiver, type_arguments, arguments), unit_ty())
        } else {
            match self.plan_method(cx, e, receiver, receiver_ty, method) {
                (w, Some(plan)) => w.check_planned_call(
                    cx,
                    e,
                    receiver,
                    plan,
                    type_arguments,
                    arguments,
                    expected,
                ),
                (w, None) => (w, error_ty()),
            }
        }
    }

    pub open spec fn check_planned_call(
        self,
        cx: &Context,
        e: Expr,
        receiver: Expr,
        plan: PlannedCall,
        type_arguments: Chain<TypeRefId>,
        arguments: Chain<Expr>,
        expected: Option<TyId>,
    ) -> (World, TyId)
        decreases arguments, 2nat,
    {
        let (w, explicit) = self.resolve_written_types(cx, type_arguments);
        let (w, scope) = w.begin_inout(
            cx,
            receiver.id,
            receiver.span,
            takes_mutable(plan.signature),
        );
        let (w, known, ty) = w.check_callable_arguments(
            cx,
            e,
            plan.signature,
            arguments,
            false,
            explicit,
            expected,
            plan.substitution,
        );
        w.end_inout(scope, receiver.span).settle_call(
            cx,
            e,
            arguments,
            false,
            plan.signature,
            ty,
            known,
            plan.target,
            plan.witness,
            Some(passing_of(plan.signature)),
        )
    }

    pub open spec fn check_list_method_call(
        self,
        cx: &Context,
        e: Expr,
        receiver: Expr,
        element: TyId,
        method: ListMethod,
        type_arguments: Chain<TypeRefId>,
        arguments: Chain<Expr>,
    ) -> (World, TyId)
        decreases arguments, 3nat,
    {
        let (w, ty) = match method {
            ListMethod::Add => (self.check_list_add(cx, e, receiver, element, arguments), unit_ty()),
            ListMethod::Length => (
                self.check_arity(e.span, Chain::<()>::Empty, arguments),
                int_ty(),
            ),
            ListMethod::Get => self.check_fixed_arguments(
                cx,
                e,
                arguments,
                one(int_ty()),
                false,
            ).end_list_get(cx, receiver, element),
            ListMethod::ToTextMap => self.check_arity(
                e.span,
                Chain::<()>::Empty,
                arguments,
            ).list_to_map(cx, receiver, element),
        };
        let (builtin, passing) = list_builtin(method);
        (
            w.reject_type_arguments(
                e,
                type_arguments,
                "List methods do not accept explicit type arguments",
            ).settle_builtin(e, arguments, builtin, Some(passing)),
            ty,
        )
    }

    pub open spec fn check_list_add(
        self,
        cx: &Context,
        e: Expr,
        receiver: Expr,
        element: TyId,
        arguments: Chain<Expr>,
    ) -> World
        decreases arguments, 2nat,
    {
        let (w, scope) = self.require_live_task_owner(receiver.id, receiver.span).check_arity(
            e.span,
            one(()),
            arguments,
        ).begin_inout(cx, receiver.id, receiver.span, true);
        let w = match first_of(arguments) {
            Some(argument) => w.check_first(cx, arguments, Some(element)).0.end_add_argument(
                cx,
                argument,
                element,
            ),
            None => w,
        };
        w.end_inout(scope, receiver.span).require_mutable(
            receiver,
            true,
            "List.add requires a mutable `var` receiver",
        )
    }

    pub open spec fn check_text_map_method_call(
        self,
        cx: &Context,
        e: Expr,
        receiver: Expr,
        shape: MethodShape,
        carries_task: bool,
        type_arguments: Chain<TypeRefId>,
        arguments: Chain<Expr>,
    ) -> (World, TyId)
        decreases arguments, 3nat,
    {
        let (w, ty) = self.reject_type_arguments(
            e,
            type_arguments,
            "TextMap methods do not accept explicit type arguments",
        ).check_fixed_arguments(cx, e, arguments, shape.params, false).end_text_map(
            cx,
            e,
            receiver,
            arguments,
            shape,
            carries_task,
        );
        (w.settle_builtin(e, arguments, shape.builtin, Some(ReceiverPassing::Value)), ty)
    }

    pub open spec fn check_builtin_value_method_call(
        self,
        cx: &Context,
        e: Expr,
        receiver: Expr,
        shape: MethodShape,
        type_arguments: Chain<TypeRefId>,
        arguments: Chain<Expr>,
    ) -> (World, TyId)
        decreases arguments, 3nat,
    {
        let mutable = shape.passing == ReceiverPassing::InOut;
        let (w, scope) = self.reject_type_arguments(
            e,
            type_arguments,
            "standard value methods do not accept explicit type arguments",
        ).require_mutable(
            receiver,
            mutable,
            "Bytes.add requires a mutable `var` receiver",
        ).begin_inout(cx, receiver.id, receiver.span, mutable);
        (
            w.check_fixed_arguments(cx, e, arguments, shape.params, false).end_inout(
                scope,
                receiver.span,
            ).settle_builtin(e, arguments, shape.builtin, Some(shape.passing)),
            shape.result,
        )
    }

    /// A call of a method of a written concept.
    pub open spec fn check_qualified_call(self, cx: &Context, e: Expr, expected: Option<TyId>) -> (
        World,
        TyId,
    )
        decreases e, 0nat,
    {
        match e.kind {
            ExprKind::QualifiedMethodCall {
                self_ty,
                concept,
                method,
                type_arguments,
                arguments,
            } => {
                let (w, self_ty) = self.resolve_written(cx, self_ty);
                let (w, plan) = w.plan_qualified(cx, e, self_ty, concept, method);
                match plan {
                    None => (w, error_ty()),
                    Some(plan) => if plan.signature.receiver == Some(ReceiverKind::Static) {
                        w.check_static_requirement(
                            cx,
                            e,
                            plan,
                            type_arguments,
                            arguments,
                            expected,
                        )
                    } else {
                        w.check_requirement(
                            cx,
                            e,
                            self_ty,
                            plan,
                            type_arguments,
                            arguments,
                            expected,
                        )
                    },
                }
            },
            _ => (self, error_ty()),
        }
    }

    pub open spec fn check_static_requirement(
        self,
        cx: &Context,
        e: Expr,
        plan: PlannedCall,
        type_arguments: Chain<TypeRefId>,
        arguments: Chain<Expr>,
        expected: Option<TyId>,
    ) -> (World, TyId)
        decreases arguments, 2nat,
    {
        let (w, explicit) = self.resolve_written_types(cx, type_arguments);
        let (w, known, ty) = w.check_callable_arguments(
            cx,
            e,
            plan.signature,
            arguments,
            false,
            explicit,
            expected,
            plan.substitution,
        );
        w.settle_call(
            cx,
            e,
            arguments,
            false,
            plan.signature,
            ty,
            known,
            plan.target,
            plan.witness,
            None,
        )
    }

    pub open spec fn check_requirement(
        self,
        cx: &Context,
        e: Expr,
        self_ty: TyId,
        plan: PlannedCall,
        type_arguments: Chain<TypeRefId>,
        arguments: Chain<Expr>,
        expected: Option<TyId>,
    ) -> (World, TyId)
        decreases arguments, 2nat,
    {
        match first_of(arguments) {
            None => (
                self.check_arity(
                    e.span,
                    types_of(plan.signature.params).pushed(self_ty),
                    arguments,
                ),
                error_ty(),
            ),
            Some(receiver) => {
                let (w, _) = self.check_first_receiver(cx, arguments, Some(self_ty));
                let (w, explicit) = w.hand_receiver(
                    cx,
                    receiver,
                    self_ty,
                    plan,
                ).resolve_written_types(cx, type_arguments);
                let (w, scope) = w.begin_inout(
                    cx,
                    receiver.id,
                    receiver.span,
                    takes_mutable(plan.signature),
                );
                let (w, known, ty) = w.check_callable_arguments(
                    cx,
                    e,
                    plan.signature,
                    arguments,
                    true,
                    explicit,
                    expected,
                    plan.substitution,
                );
                w.end_inout(scope, receiver.span).settle_call(
                    cx,
                    e,
                    arguments,
                    true,
                    plan.signature,
                    ty,
                    known,
                    plan.target,
                    plan.witness,
                    Some(passing_of(plan.signature)),
                )
            },
        }
    }

    pub open spec fn check_record_literal(self, cx: &Context, e: Expr, expected: Option<TyId>) -> (
        World,
        TyId,
    )
        decreases e, 0nat,
    {
        match e.kind {
            ExprKind::RecordLiteral { ty, fields } => match self.begin_record(
                cx,
                e,
                ty,
                fields,
                expected,
            ) {
                (w, None) => (w, error_ty()),
                (w, Some(start)) => {
                    let (w, known, list) = w.check_record_fields(
                        cx,
                        e,
                        start.fields,
                        fields,
                        start.substitution,
                    );
                    w.end_record(cx, e, start, fields, list, known)
                },
            },
            _ => (self, error_ty()),
        }
    }

    /// The values of the declared fields are checked, in the order in which
    /// the fields are declared.
    pub open spec fn check_record_fields(
        self,
        cx: &Context,
        e: Expr,
        declared: Chain<DefId>,
        values: Chain<RecordFieldValue>,
        substitution: Substitution,
    ) -> (World, Substitution, Chain<FieldActual>)
        decreases values, 1 + declared.spec_len(),
    {
        match declared {
            Chain::Empty => (self, substitution, Chain::Empty),
            Chain::Link(link) => {
                let (w, known, list) = self.check_record_fields(
                    cx,
                    e,
                    link.rest,
                    values,
                    substitution,
                );
                match w.begin_field(cx, e, link.item, link.rest, values, known) {
                    (w, None) => (w, known, list),
                    (w, Some(start)) => {
                        let name = field_name(cx.program, link.item);
                        match w.check_field_value(cx, values, name, start.expected) {
                            (w, None) => (w, known, list),
                            (w, Some((value, actual))) => (
                                w,
                                unified(w.types, start.declared, actual, known).0,
                                list.pushed(
                                    FieldActual {
                                        field: link.item,
                                        value,
                                        types: Actual { actual, declared: start.declared },
                                    },
                                ),
                            ),
                        }
                    },
                }
            },
        }
    }

    /// The last value that is written for a name is checked.
    pub open spec fn check_field_value(
        self,
        cx: &Context,
        values: Chain<RecordFieldValue>,
        name: Seq<char>,
        expected: Option<TyId>,
    ) -> (World, Option<(ExprId, TyId)>)
        decreases values, 0nat,
    {
        match values {
            Chain::Empty => (self, None),
            Chain::Link(link) => if link.item.name@ == name {
                let (w, ty) = self.check_expr(
                    cx,
                    link.item.value,
                    expected,
                    ExpressionContext::Value,
                );
                (w, Some((link.item.value.id, ty)))
            } else {
                self.check_field_value(cx, link.rest, name, expected)
            },
        }
    }
}

impl BodyChecker {
    pub fn check_expr(
        &mut self,
        cx: &Context, e: &Expr, expected: Option<TyId>, context: ExpressionContext,
    ) -> (ty: TyId)
        requires
            old(self).wf(),
        ensures
            adds_to(old(self)@.st.diagnostics, final(self)@.st.diagnostics),
            final(self).wf(),
            later(old(self)@.types, final(self)@.types),
            (final(self)@, ty) == old(self)@.check_expr(cx, *e, expected, context),
        decreases e, 2nat,
    {
        let allowed = self.st.allow_await_here;
        self.validate_contract_shape(cx, e);
        let inferred = self.check_kind(cx, e, expected, context, allowed);
        self.finish_expr(cx, e, inferred, expected)
    }

    fn check_kind(
        &mut self,
        cx: &Context,
        e: &Expr,
        expected: Option<TyId>,
        context: ExpressionContext,
        await_allowed: bool,
    ) -> (ty: TyId)
        requires
            old(self).wf(),
        ensures
            adds_to(old(self)@.st.diagnostics, final(self)@.st.diagnostics),
            final(self).wf(),
            later(old(self)@.types, final(self)@.types),
            (final(self)@, ty) == old(self)@.check_kind(cx, *e, expected, context, await_allowed),
        decreases e, 1nat,
    {
        match &e.kind {
            ExprKind::Error => TyId(0),
            ExprKind::Literal(literal) => self.check_literal(e, literal),
            ExprKind::Tuple(elements) => self.check_tuple(cx, elements, expected),
            ExprKind::List(elements) => self.check_list(cx, e, elements, expected),
            ExprKind::Path(path) => self.check_path(cx, e, path, expected),
            ExprKind::SelfValue => self.check_self(cx, e),
            ExprKind::ResultValue => self.check_result(cx, e),
            ExprKind::Old(value) => self.check_old(cx, e, value),
            ExprKind::Block { statements: _, tail: _ } => self.check_block(cx, e, expected),
            ExprKind::If { condition: _, then_branch: _, else_branch: _ } => self.check_if(
                cx,
                e,
                expected,
                context,
            ),
            ExprKind::Match { scrutinee: _, arms: _ } => self.check_match(
                cx,
                e,
                expected,
                context,
            ),
            ExprKind::Call { callee: _, type_arguments: _, arguments: _ } => self.check_call(
                cx,
                e,
                expected,
            ),
            ExprKind::MethodCall { receiver: _, method: _, type_arguments: _, arguments: _ } =>
                self.check_method_call(cx, e, expected),
            ExprKind::QualifiedMethodCall {
                self_ty: _,
                concept: _,
                method: _,
                type_arguments: _,
                arguments: _,
            } => self.check_qualified_call(cx, e, expected),
            ExprKind::Field { receiver: _, name: _ } => self.check_field(cx, e, expected),
            ExprKind::Unary { op, operand } => self.check_unary(cx, e, *op, operand),
            ExprKind::Binary { op: _, left: _, right: _ } => self.check_binary(cx, e),
            ExprKind::Assign { target: _, value: _ } => self.check_assignment(cx, e),
            ExprKind::RecordLiteral { ty: _, fields: _ } => self.check_record_literal(
                cx,
                e,
                expected,
            ),
            ExprKind::Await(value) => self.check_await(cx, e, value, await_allowed),
            ExprKind::Propagate(value) => self.check_propagate(cx, e, value),
            ExprKind::Return(_) => self.check_return(cx, e),
        }
    }

    fn check_suspendable_expr(
        &mut self,
        cx: &Context, e: &Expr, expected: Option<TyId>, context: ExpressionContext,
    ) -> (ty: TyId)
        requires
            old(self).wf(),
        ensures
            adds_to(old(self)@.st.diagnostics, final(self)@.st.diagnostics),
            final(self).wf(),
            later(old(self)@.types, final(self)@.types),
            (final(self)@, ty) == old(self)@.check_suspendable_expr(cx, *e, expected, context),
        decreases e, 3nat,
    {
        let previous = self.st.allow_await_here;
        self.set_await(true);
        let ty = self.check_expr(cx, e, expected, context);
        self.set_await(previous);
        ty
    }

    fn check_projected(
        &mut self,
        cx: &Context, e: &Expr, expected: Option<TyId>,
    ) -> (ty: TyId)
        requires
            old(self).wf(),
        ensures
            adds_to(old(self)@.st.diagnostics, final(self)@.st.diagnostics),
            final(self).wf(),
            later(old(self)@.types, final(self)@.types),
            (final(self)@, ty) == old(self)@.check_projected(cx, *e, expected),
        decreases e, 3nat,
    {
        let projection = self.st.allow_dirty_self_projection;
        let scoped = self.st.checking_scoped_receiver;
        self.set_receiver_flags(true, true);
        let ty = self.check_expr(cx, e, expected, ExpressionContext::Value);
        self.set_receiver_flags(projection, scoped);
        ty
    }

    fn check_call_receiver(
        &mut self,
        cx: &Context, e: &Expr, expected: Option<TyId>,
    ) -> (ty: TyId)
        requires
            old(self).wf(),
        ensures
            adds_to(old(self)@.st.diagnostics, final(self)@.st.diagnostics),
            final(self).wf(),
            later(old(self)@.types, final(self)@.types),
            (final(self)@, ty) == old(self)@.check_call_receiver(cx, *e, expected),
        decreases e, 4nat,
    {
        let ty = self.check_projected(cx, e, expected);
        self.check_receiver_isolation(e.id, e.span);
        ty
    }

    fn check_old(
        &mut self,
        cx: &Context, e: &Expr, value: &Expr,
    ) -> (ty: TyId)
        requires
            old(self).wf(),
        ensures
            adds_to(old(self)@.st.diagnostics, final(self)@.st.diagnostics),
            final(self).wf(),
            later(old(self)@.types, final(self)@.types),
            (final(self)@, ty) == old(self)@.check_old(cx, *e, *value),
        decreases value, 3nat,
    {
        self.begin_old(e);
        let ty = self.check_expr(cx, value, None, ExpressionContext::Value);
        self.end_old(e, ty);
        ty
    }

    fn check_await(
        &mut self,
        cx: &Context, e: &Expr, value: &Expr, allowed: bool,
    ) -> (ty: TyId)
        requires
            old(self).wf(),
        ensures
            adds_to(old(self)@.st.diagnostics, final(self)@.st.diagnostics),
            final(self).wf(),
            later(old(self)@.types, final(self)@.types),
            (final(self)@, ty) == old(self)@.check_await(cx, *e, *value, allowed),
        decreases value, 3nat,
    {
        self.begin_await(cx, e, allowed);
        let task = self.check_expr(cx, value, None, ExpressionContext::Value);
        self.consume_task_obligation(cx, value);
        self.end_await(e, task)
    }

    fn check_propagate(
        &mut self,
        cx: &Context, e: &Expr, value: &Expr,
    ) -> (ty: TyId)
        requires
            old(self).wf(),
        ensures
            adds_to(old(self)@.st.diagnostics, final(self)@.st.diagnostics),
            final(self).wf(),
            later(old(self)@.types, final(self)@.types),
            (final(self)@, ty) == old(self)@.check_propagate(cx, *e, *value),
        decreases value, 3nat,
    {
        self.begin_propagate(e);
        let operand = self.check_expr(cx, value, None, ExpressionContext::Value);
        self.end_propagate(cx, e, value, operand)
    }

    fn check_each(
        &mut self,
        cx: &Context, list: &Chain<Expr>, expected: &Option<Chain<TyId>>,
    ) -> (types: Chain<TyId>)
        requires
            old(self).wf(),
        ensures
            adds_to(old(self)@.st.diagnostics, final(self)@.st.diagnostics),
            final(self).wf(),
            later(old(self)@.types, final(self)@.types),
            (final(self)@, types) == old(self)@.check_each(cx, *list, *expected),
        decreases list, 0nat,
    {
        match list {
            Chain::Empty => Chain::new(),
            Chain::Link(link) => {
                let (before, own) = take_expected(expected);
                let types = self.check_each(cx, &link.rest, &before);
                let ty = self.check_expr(cx, &link.item, own, ExpressionContext::Value);
                types.with(ty)
            },
        }
    }

    fn check_tuple(
        &mut self,
        cx: &Context, elements: &Chain<Expr>, expected: Option<TyId>,
    ) -> (ty: TyId)
        requires
            old(self).wf(),
        ensures
            adds_to(old(self)@.st.diagnostics, final(self)@.st.diagnostics),
            final(self).wf(),
            later(old(self)@.types, final(self)@.types),
            (final(self)@, ty) == old(self)@.check_tuple(cx, *elements, expected),
        decreases elements, 1nat,
    {
        let wanted = self.tuple_elements(elements, expected);
        let types = self.check_each(cx, elements, &wanted);
        self.intern(TyData::Tuple(types))
    }

    fn check_elements(
        &mut self,
        cx: &Context, elements: &Chain<Expr>, expected: Option<TyId>,
    ) -> (ty: TyId)
        requires
            old(self).wf(),
        ensures
            adds_to(old(self)@.st.diagnostics, final(self)@.st.diagnostics),
            final(self).wf(),
            later(old(self)@.types, final(self)@.types),
            (final(self)@, ty) == old(self)@.check_elements(cx, *elements, expected),
        decreases elements, 0nat,
    {
        match elements {
            Chain::Empty => TyId(0),
            Chain::Link(link) => if link.rest.is_empty() {
                let ty = self.check_expr(cx, &link.item, expected, ExpressionContext::Value);
                match expected {
                    Some(element) => element,
                    None => ty,
                }
            } else {
                let element = self.check_elements(cx, &link.rest, expected);
                self.check_expr(cx, &link.item, Some(element), ExpressionContext::Value);
                element
            },
        }
    }

    fn check_list(
        &mut self,
        cx: &Context, e: &Expr, elements: &Chain<Expr>, expected: Option<TyId>,
    ) -> (ty: TyId)
        requires
            old(self).wf(),
        ensures
            adds_to(old(self)@.st.diagnostics, final(self)@.st.diagnostics),
            final(self).wf(),
            later(old(self)@.types, final(self)@.types),
            (final(self)@, ty) == old(self)@.check_list(cx, *e, *elements, expected),
        decreases elements, 1nat,
    {
        let element = self.list_element(expected);
        if elements.is_empty() {
            self.empty_list(e, element)
        } else {
            let ty = self.check_elements(cx, elements, element);
            self.intern(TyData::List(ty))
        }
    }

    fn check_block(
        &mut self,
        cx: &Context, e: &Expr, expected: Option<TyId>,
    ) -> (ty: TyId)
        requires
            old(self).wf(),
        ensures
            adds_to(old(self)@.st.diagnostics, final(self)@.st.diagnostics),
            final(self).wf(),
            later(old(self)@.types, final(self)@.types),
            (final(self)@, ty) == old(self)@.check_block(cx, *e, expected),
        decreases e, 0nat,
    {
        match &e.kind {
            ExprKind::Block { statements, tail } => {
                let region = RegionId(self.st.next_region);
                let effects = self.st.active_defer_effects.clone();
                self.open_block();
                let diverges = self.check_statements(cx, statements, region);
                match tail {
                    Some(tail) => {
                        let flow = self.flow_state();
                        let ty = self.check_suspendable_expr(
                            cx,
                            tail,
                            expected,
                            ExpressionContext::Value,
                        );
                        if diverges {
                            self.restored(flow);
                        } else {
                            self.yield_tail(cx, tail, ty);
                        }
                        self.close_block(cx, region, effects);
                        if diverges {
                            self.types.never()
                        } else {
                            ty
                        }
                    },
                    None => {
                        self.close_block(cx, region, effects);
                        if diverges {
                            self.types.never()
                        } else {
                            self.builtin(BuiltinType::Unit)
                        }
                    },
                }
            },
            _ => TyId(0),
        }
    }

    fn check_statements(
        &mut self,
        cx: &Context, list: &Chain<Statement>, region: RegionId,
    ) -> (diverges: bool)
        requires
            old(self).wf(),
        ensures
            adds_to(old(self)@.st.diagnostics, final(self)@.st.diagnostics),
            final(self).wf(),
            later(old(self)@.types, final(self)@.types),
            (final(self)@, diverges) == old(self)@.check_statements(cx, *list, region),
        decreases list, 0nat,
    {
        match list {
            Chain::Empty => false,
            Chain::Link(link) => {
                let diverged = self.check_statements(cx, &link.rest, region);
                let flow = self.flow_state();
                let effects = self.st.active_defer_effects.clone();
                let diverges = self.check_statement(cx, &link.item, region, diverged);
                if diverged {
                    self.restored(flow);
                    self.set_effects(effects);
                    true
                } else {
                    diverges
                }
            },
        }
    }

    fn check_statement(
        &mut self,
        cx: &Context, statement: &Statement, region: RegionId, diverged: bool,
    ) -> (diverges: bool)
        requires
            old(self).wf(),
        ensures
            adds_to(old(self)@.st.diagnostics, final(self)@.st.diagnostics),
            final(self).wf(),
            later(old(self)@.types, final(self)@.types),
            (final(self)@, diverges) == old(self)@.check_statement(
                cx,
                *statement,
                region,
                diverged,
            ),
        decreases statement, 1nat,
    {
        let index_ty = self.builtin(BuiltinType::Int);
        let unit = self.builtin(BuiltinType::Unit);
        match statement {
            Statement::Let { local, value } => self.check_let(cx, *local, value, false, region),
            Statement::Scoped { local, value } => self.check_let(cx, *local, value, true, region),
            Statement::LetTuple { locals, value } => {
                let ty = self.check_suspendable_expr(cx, value, None, ExpressionContext::Value);
                let never = self.is_never(ty);
                self.end_let_tuple(cx, locals, value, ty);
                never
            },
            Statement::ForRange { local, start, end, body } => {
                self.check_suspendable_expr(
                    cx,
                    start,
                    Some(index_ty),
                    ExpressionContext::Value,
                );
                self.check_suspendable_expr(cx, end, Some(index_ty), ExpressionContext::Value);
                let scopes = self.st.scopes.clone();
                self.begin_range(cx, *local);
                let entry = self.flow_state();
                self.check_expr(cx, body, Some(unit), ExpressionContext::Value);
                self.end_loop(&entry, entry.clone(), body);
                self.set_scopes(scopes);
                false
            },
            Statement::While { condition: _, body: _ } => self.check_while(cx, statement),
            Statement::Break { span } => {
                self.jump(*span, true, !diverged);
                true
            },
            Statement::Continue { span } => {
                self.jump(*span, false, !diverged);
                true
            },
            Statement::Defer { body } => {
                let flow = self.flow_state();
                let effects = self.st.active_defer_effects.clone();
                let boundaries = self.st.current_defer_self_boundaries.clone();
                self.begin_defer(body);
                self.check_expr(cx, body, Some(unit), ExpressionContext::Value);
                self.end_defer(flow, effects, boundaries);
                false
            },
            Statement::Discard(e) => {
                let previous = self.st.checking_discard_operand;
                self.set_discard(true);
                let ty = self.check_suspendable_expr(cx, e, None, ExpressionContext::Value);
                let never = self.is_never(ty);
                self.set_discard(previous);
                self.end_discard(cx, e, ty);
                never
            },
            Statement::Expr(e) => {
                let ty = self.check_suspendable_expr(
                    cx,
                    e,
                    None,
                    ExpressionContext::UnitStatement,
                );
                let never = self.is_never(ty);
                self.end_expr_statement(cx, e, ty);
                never
            },
            Statement::Assert(e) => {
                let previous = self.st.contract;
                self.set_contract(ContractMode::Predicate { old_allowed: false });
                let truth = self.builtin(BuiltinType::Bool);
                let ty = self.check_expr(cx, e, Some(truth), ExpressionContext::Value);
                let diverges = self.expression_diverges(e.id) || self.is_never(ty);
                self.set_contract(previous);
                self.end_assert(cx, e);
                diverges
            },
        }
    }

    fn check_let(
        &mut self,
        cx: &Context, local: LocalId, value: &Expr, scoped: bool, region: RegionId,
    ) -> (diverges: bool)
        requires
            old(self).wf(),
        ensures
            adds_to(old(self)@.st.diagnostics, final(self)@.st.diagnostics),
            final(self).wf(),
            later(old(self)@.types, final(self)@.types),
            (final(self)@, diverges) == old(self)@.check_let(cx, local, *value, scoped, region),
        decreases value, 4nat,
    {
        self.begin_let(cx, local, scoped);
        let annotation = self.resolve_annotation(cx, local);
        let previous = self.st.scoped_initializer;
        if scoped {
            self.set_initializer(Some(value.id));
        }
        let ty = self.check_suspendable_expr(cx, value, annotation, ExpressionContext::Value);
        let never = self.is_never(ty);
        self.set_initializer(previous);
        self.end_let(cx, local, value, ty, scoped, region);
        never
    }

    fn check_while(
        &mut self,
        cx: &Context, statement: &Statement,
    ) -> (diverges: bool)
        requires
            old(self).wf(),
        ensures
            adds_to(old(self)@.st.diagnostics, final(self)@.st.diagnostics),
            final(self).wf(),
            later(old(self)@.types, final(self)@.types),
            (final(self)@, diverges) == old(self)@.check_while(cx, *statement),
        decreases statement, 0nat,
    {
        match statement {
            Statement::While { condition, body } => {
                let truth = self.builtin(BuiltinType::Bool);
                let unit = self.builtin(BuiltinType::Unit);
                self.forget_proofs();
                let header = self.flow_state();
                self.check_expr(cx, condition, Some(truth), ExpressionContext::Value);
                let exit = self.flow_state();
                if self.expression_diverges(condition.id) {
                    self.restored(header);
                    self.forget_proofs();
                    self.begin_loop();
                    self.check_expr(cx, body, Some(unit), ExpressionContext::Value);
                    self.drop_loop();
                    self.restored(exit);
                    true
                } else {
                    self.begin_loop();
                    self.check_expr(cx, body, Some(unit), ExpressionContext::Value);
                    self.end_loop(&header, exit, body);
                    false
                }
            },
            _ => false,
        }
    }

    fn check_if(
        &mut self,
        cx: &Context, e: &Expr, expected: Option<TyId>, context: ExpressionContext,
    ) -> (ty: TyId)
        requires
            old(self).wf(),
        ensures
            adds_to(old(self)@.st.diagnostics, final(self)@.st.diagnostics),
            final(self).wf(),
            later(old(self)@.types, final(self)@.types),
            (final(self)@, ty) == old(self)@.check_if(cx, *e, expected, context),
        decreases e, 0nat,
    {
        match &e.kind {
            ExprKind::If { condition, then_branch, else_branch } => {
                let truth = self.builtin(BuiltinType::Bool);
                self.check_expr(cx, condition, Some(truth), ExpressionContext::Value);
                let entry = self.flow_state();
                let term = proof_term(cx, &self.st, condition);
                self.assume_condition(&term, true);
                let then_ty = self.check_expr(cx, then_branch, expected, context);
                match else_branch {
                    Some(else_branch) => {
                        let then_diverges = self.expression_diverges(then_branch.id);
                        let then_state = self.flow_state();
                        let expected_else = match expected {
                            Some(ty) => Some(ty),
                            None => if then_diverges {
                                None
                            } else {
                                Some(then_ty)
                            },
                        };
                        self.restored(entry.clone());
                        self.assume_condition(&term, false);
                        let else_ty = self.check_expr(cx, else_branch, expected_else, context);
                        self.end_if_else(
                            cx,
                            entry,
                            then_state,
                            then_ty,
                            then_diverges,
                            else_branch,
                            else_ty,
                        )
                    },
                    None => {
                        let unit = self.builtin(BuiltinType::Unit);
                        let required = context != ExpressionContext::UnitStatement && expected
                            != Some(unit);
                        self.end_if(cx, then_branch, then_ty, entry, required);
                        unit
                    },
                }
            },
            _ => TyId(0),
        }
    }

    fn check_unary(
        &mut self,
        cx: &Context, e: &Expr, op: UnaryOp, operand: &Expr,
    ) -> (ty: TyId)
        requires
            old(self).wf(),
        ensures
            adds_to(old(self)@.st.diagnostics, final(self)@.st.diagnostics),
            final(self).wf(),
            later(old(self)@.types, final(self)@.types),
            (final(self)@, ty) == old(self)@.check_unary(cx, *e, op, *operand),
        decreases operand, 3nat,
    {
        if check_smallest_magnitude(op, operand) {
            let number = self.builtin(BuiltinType::Int);
            self.set_type(operand.id, number);
            self.end_unary(cx, e, op, operand, number)
        } else {
            let ty = self.check_expr(cx, operand, None, ExpressionContext::Value);
            self.end_unary(cx, e, op, operand, ty)
        }
    }

    fn check_binary(
        &mut self,
        cx: &Context, e: &Expr,
    ) -> (ty: TyId)
        requires
            old(self).wf(),
        ensures
            adds_to(old(self)@.st.diagnostics, final(self)@.st.diagnostics),
            final(self).wf(),
            later(old(self)@.types, final(self)@.types),
            (final(self)@, ty) == old(self)@.check_binary(cx, *e),
        decreases e, 0nat,
    {
        match &e.kind {
            ExprKind::Binary { op, left, right } => {
                let left_ty = self.check_expr(cx, left, None, ExpressionContext::Value);
                let entry = self.flow_state();
                let right_ty = self.check_expr(cx, right, None, ExpressionContext::Value);
                if *op == BinaryOp::And || *op == BinaryOp::Or {
                    let evaluated = self.flow_state();
                    let state = join_pair(entry, evaluated);
                    self.restored(state);
                }
                self.end_binary(cx, e, *op, left, left_ty, right, right_ty)
            },
            _ => TyId(0),
        }
    }

    fn check_assignment(
        &mut self,
        cx: &Context, e: &Expr,
    ) -> (ty: TyId)
        requires
            old(self).wf(),
        ensures
            adds_to(old(self)@.st.diagnostics, final(self)@.st.diagnostics),
            final(self).wf(),
            later(old(self)@.types, final(self)@.types),
            (final(self)@, ty) == old(self)@.check_assignment(cx, *e),
        decreases e, 0nat,
    {
        match &e.kind {
            ExprKind::Assign { target, value } => {
                self.set_assignment_target(true);
                let target_ty = self.check_expr(cx, target, None, ExpressionContext::Value);
                self.set_assignment_target(false);
                match self.place(target.id) {
                    None => {
                        self.text_error(
                            "InvalidAssignmentTarget",
                            "assignment target is not a writable place",
                            target.span,
                        );
                        self.check_expr(cx, value, Some(target_ty), ExpressionContext::Value);
                        self.builtin(BuiltinType::Unit)
                    },
                    Some(place) => {
                        let dirties = self.begin_assignment(cx, target, target_ty, &place);
                        self.check_expr(cx, value, Some(target_ty), ExpressionContext::Value);
                        self.end_assignment(cx, e, &place, target_ty, value, dirties);
                        self.builtin(BuiltinType::Unit)
                    },
                }
            },
            _ => TyId(0),
        }
    }

    fn check_return(
        &mut self,
        cx: &Context, e: &Expr,
    ) -> (ty: TyId)
        requires
            old(self).wf(),
        ensures
            adds_to(old(self)@.st.diagnostics, final(self)@.st.diagnostics),
            final(self).wf(),
            later(old(self)@.types, final(self)@.types),
            (final(self)@, ty) == old(self)@.check_return(cx, *e),
        decreases e, 0nat,
    {
        match &e.kind {
            ExprKind::Return(value) => {
                self.begin_return(cx, value.is_none());
                match value {
                    Some(value) => {
                        self.check_suspendable_expr(
                            cx,
                            value,
                            Some(cx.environment.return_ty),
                            ExpressionContext::Value,
                        );
                        self.yield_tail(cx, value, cx.environment.return_ty);
                    },
                    None => {},
                }
                self.audit_task_obligations_at_exit(cx);
                self.types.never()
            },
            _ => TyId(0),
        }
    }

    fn check_field(
        &mut self,
        cx: &Context, e: &Expr, expected: Option<TyId>,
    ) -> (ty: TyId)
        requires
            old(self).wf(),
        ensures
            adds_to(old(self)@.st.diagnostics, final(self)@.st.diagnostics),
            final(self).wf(),
            later(old(self)@.types, final(self)@.types),
            (final(self)@, ty) == old(self)@.check_field(cx, *e, expected),
        decreases e, 0nat,
    {
        match &e.kind {
            ExprKind::Field { receiver, name } => match self.find_named_variant(
                cx,
                receiver,
                name,
            ) {
                Some((variant, owner)) => self.bare_variant(cx, e, variant, owner, expected),
                None => {
                    let ty = self.check_projected(cx, receiver, None);
                    self.end_field(cx, e, receiver, ty, name)
                },
            },
            _ => TyId(0),
        }
    }

    fn check_match(
        &mut self,
        cx: &Context, e: &Expr, expected: Option<TyId>, context: ExpressionContext,
    ) -> (ty: TyId)
        requires
            old(self).wf(),
        ensures
            adds_to(old(self)@.st.diagnostics, final(self)@.st.diagnostics),
            final(self).wf(),
            later(old(self)@.types, final(self)@.types),
            (final(self)@, ty) == old(self)@.check_match(cx, *e, expected, context),
        decreases e, 0nat,
    {
        match &e.kind {
            ExprKind::Match { scrutinee, arms } => {
                let ty = self.check_expr(cx, scrutinee, None, ExpressionContext::Value);
                self.hand_on(cx, scrutinee);
                let entry = self.flow_state();
                let checked = self.check_arms(cx, arms, ty, &entry, expected, context);
                self.end_match(cx, scrutinee, ty, entry, &checked, !arms.is_empty())
            },
            _ => TyId(0),
        }
    }

    fn check_arms(
        &mut self,
        cx: &Context,
        arms: &Chain<MatchArm>,
        scrutinee_ty: TyId,
        entry: &FlowState,
        expected: Option<TyId>,
        context: ExpressionContext,
    ) -> (result: Arms)
        requires
            old(self).wf(),
        ensures
            adds_to(old(self)@.st.diagnostics, final(self)@.st.diagnostics),
            final(self).wf(),
            later(old(self)@.types, final(self)@.types),
            (final(self)@, result) == old(self)@.check_arms(
                cx,
                *arms,
                scrutinee_ty,
                *entry,
                expected,
                context,
            ),
        decreases arms, 0nat,
    {
        match arms {
            Chain::Empty => Arms {
                result: expected,
                rows: Chain::new(),
                exits: Chain::new(),
                reachable: false,
            },
            Chain::Link(link) => {
                let before = self.check_arms(
                    cx,
                    &link.rest,
                    scrutinee_ty,
                    entry,
                    expected,
                    context,
                );
                let (useful, rows) = self.begin_arm(
                    cx,
                    &link.item.pattern,
                    scrutinee_ty,
                    entry.clone(),
                    &before.rows,
                );
                let arm_ty = self.check_expr(cx, &link.item.value, before.result, context);
                self.end_arm(
                    cx,
                    &link.item.value,
                    link.item.span,
                    arm_ty,
                    useful,
                    Arms {
                        result: before.result,
                        rows,
                        exits: before.exits,
                        reachable: before.reachable,
                    },
                )
            },
        }
    }

    fn check_first(
        &mut self,
        cx: &Context, arguments: &Chain<Expr>, expected: Option<TyId>,
    ) -> (ty: TyId)
        requires
            old(self).wf(),
        ensures
            adds_to(old(self)@.st.diagnostics, final(self)@.st.diagnostics),
            final(self).wf(),
            later(old(self)@.types, final(self)@.types),
            (final(self)@, ty) == old(self)@.check_first(cx, *arguments, expected),
        decreases arguments, 0nat,
    {
        match arguments {
            Chain::Empty => TyId(0),
            Chain::Link(link) => if link.rest.is_empty() {
                self.check_expr(cx, &link.item, expected, ExpressionContext::Value)
            } else {
                self.check_first(cx, &link.rest, expected)
            },
        }
    }

    fn check_first_receiver(
        &mut self,
        cx: &Context, arguments: &Chain<Expr>, expected: Option<TyId>,
    ) -> (ty: TyId)
        requires
            old(self).wf(),
        ensures
            adds_to(old(self)@.st.diagnostics, final(self)@.st.diagnostics),
            final(self).wf(),
            later(old(self)@.types, final(self)@.types),
            (final(self)@, ty) == old(self)@.check_first_receiver(cx, *arguments, expected),
        decreases arguments, 0nat,
    {
        match arguments {
            Chain::Empty => TyId(0),
            Chain::Link(link) => if link.rest.is_empty() {
                self.check_call_receiver(cx, &link.item, expected)
            } else {
                self.check_first_receiver(cx, &link.rest, expected)
            },
        }
    }

    fn check_fixed_each(
        &mut self,
        cx: &Context, arguments: &Chain<Expr>, types: &Chain<TyId>, skip_first: bool,
    )
        requires
            old(self).wf(),
        ensures
            adds_to(old(self)@.st.diagnostics, final(self)@.st.diagnostics),
            final(self).wf(),
            later(old(self)@.types, final(self)@.types),
            final(self)@ == old(self)@.check_fixed_each(cx, *arguments, *types, skip_first),
        decreases arguments, 0nat,
    {
        match arguments {
            Chain::Empty => {},
            Chain::Link(link) => {
                self.check_fixed_each(cx, &link.rest, types, skip_first);
                match find_type_for(types, &link.rest, skip_first) {
                    Some(ty) => {
                        self.check_expr(cx, &link.item, Some(ty), ExpressionContext::Value);
                        self.end_fixed_argument(cx, &link.item, ty);
                    },
                    None => {},
                }
            },
        }
    }

    fn check_fixed_arguments(
        &mut self,
        cx: &Context, e: &Expr, arguments: &Chain<Expr>, types: &Chain<TyId>, skip_first: bool,
    )
        requires
            old(self).wf(),
        ensures
            adds_to(old(self)@.st.diagnostics, final(self)@.st.diagnostics),
            final(self).wf(),
            later(old(self)@.types, final(self)@.types),
            final(self)@ == old(self)@.check_fixed_arguments(cx, *e, *arguments, *types, skip_first),
        decreases arguments, 1nat,
    {
        if skip_first {
            let mut rest = arguments.clone();
            rest.drop_last();
            self.check_arity(e.span, types, &rest);
        } else {
            self.check_arity(e.span, types, arguments);
        }
        self.check_fixed_each(cx, arguments, types, skip_first);
    }

    fn check_arguments(
        &mut self,
        cx: &Context,
        arguments: &Chain<Expr>,
        types: &Chain<TyId>,
        skip_first: bool,
        borrowing: bool,
        substitution: &Substitution,
    ) -> (result: (Substitution, Chain<Actual>))
        requires
            old(self).wf(),
        ensures
            adds_to(old(self)@.st.diagnostics, final(self)@.st.diagnostics),
            final(self).wf(),
            later(old(self)@.types, final(self)@.types),
            (final(self)@, result.0, result.1) == old(self)@.check_arguments(
                cx,
                *arguments,
                *types,
                skip_first,
                borrowing,
                *substitution,
            ),
        decreases arguments, 0nat,
    {
        match arguments {
            Chain::Empty => (substitution.clone(), Chain::new()),
            Chain::Link(link) => {
                let (mut known, list) = self.check_arguments(
                    cx,
                    &link.rest,
                    types,
                    skip_first,
                    borrowing,
                    substitution,
                );
                match find_type_for(types, &link.rest, skip_first) {
                    Some(declared) => {
                        let mode = self.st.dynamic_coercion_mode;
                        let expected = self.prepare_argument(declared, &known, borrowing);
                        let actual = self.check_expr(
                            cx,
                            &link.item,
                            expected,
                            ExpressionContext::Value,
                        );
                        self.set_mode(mode);
                        unify_type(&self.types, declared, actual, &mut known);
                        (known, list.with(Actual { actual, declared }))
                    },
                    None => (known, list),
                }
            },
        }
    }

    fn check_callable_arguments(
        &mut self,
        cx: &Context,
        e: &Expr,
        signature: &CallableSignature,
        arguments: &Chain<Expr>,
        skip_first: bool,
        explicit: &Chain<TyId>,
        expected: Option<TyId>,
        substitution: &Substitution,
    ) -> (result: (Substitution, TyId))
        requires
            old(self).wf(),
        ensures
            adds_to(old(self)@.st.diagnostics, final(self)@.st.diagnostics),
            final(self).wf(),
            later(old(self)@.types, final(self)@.types),
            (final(self)@, result.0, result.1) == old(self)@.check_callable_arguments(
                cx,
                *e,
                *signature,
                *arguments,
                skip_first,
                *explicit,
                expected,
                *substitution,
            ),
        decreases arguments, 1nat,
    {
        let begun = self.start_callable(
            e,
            signature,
            arguments,
            skip_first,
            explicit,
            expected,
            substitution,
        );
        let types = parameter_types(&signature.params);
        let (known, actuals) = self.check_arguments(
            cx,
            arguments,
            &types,
            skip_first,
            !signature.is_async,
            &begun,
        );
        let ty = self.end_callable(cx, e, signature, arguments, skip_first, &actuals, &known);
        (known, ty)
    }

    fn check_call(
        &mut self,
        cx: &Context, e: &Expr, expected: Option<TyId>,
    ) -> (ty: TyId)
        requires
            old(self).wf(),
        ensures
            adds_to(old(self)@.st.diagnostics, final(self)@.st.diagnostics),
            final(self).wf(),
            later(old(self)@.types, final(self)@.types),
            (final(self)@, ty) == old(self)@.check_call(cx, *e, expected),
        decreases e, 0nat,
    {
        match &e.kind {
            ExprKind::Call { callee, type_arguments, arguments } => match self.plan_call(
                cx,
                callee,
            ) {
                CallPlan::Unnamed => {
                    self.check_expr(cx, callee, None, ExpressionContext::Value);
                    self.text_error(
                        "TypeMismatch",
                        "only named functions and constructors are callable",
                        e.span,
                    );
                    TyId(0)
                },
                CallPlan::Collection { is_list } => self.construct_collection(
                    cx,
                    e,
                    is_list,
                    type_arguments,
                    arguments,
                ),
                CallPlan::Builtin(builtin) => self.check_builtin_call(
                    cx,
                    e,
                    builtin,
                    arguments,
                    expected,
                ),
                CallPlan::Function { definition, signature } => {
                    let explicit = self.resolve_written_types(cx, type_arguments);
                    let (known, result) = self.check_callable_arguments(
                        cx,
                        e,
                        &signature,
                        arguments,
                        false,
                        &explicit,
                        expected,
                        &Substitution::default(),
                    );
                    let ty = self.settle_call(
                        cx,
                        e,
                        arguments,
                        false,
                        &signature,
                        result,
                        known,
                        CallTarget::Function(definition),
                        None,
                        None,
                    );
                    self.finish_async_call(cx, e.span, signature.is_async, ty)
                },
                CallPlan::NotCallable => {
                    self.text_error("TypeMismatch", "name is not callable", e.span);
                    TyId(0)
                },
                CallPlan::Refined { definition, base } => self.check_refined_call(
                    cx,
                    e,
                    definition,
                    cx.written_type(base),
                    type_arguments,
                    arguments,
                ),
                CallPlan::Unknown(path) => {
                    self.error(
                        "UnknownName",
                        Message::Path("unknown callable `", path, "`"),
                        e.span,
                    );
                    TyId(0)
                },
            },
            _ => TyId(0),
        }
    }

    fn check_refined_call(
        &mut self,
        cx: &Context,
        e: &Expr,
        definition: DefId,
        base: TyId,
        type_arguments: &Chain<TypeRefId>,
        arguments: &Chain<Expr>,
    ) -> (ty: TyId)
        requires
            old(self).wf(),
        ensures
            adds_to(old(self)@.st.diagnostics, final(self)@.st.diagnostics),
            final(self).wf(),
            later(old(self)@.types, final(self)@.types),
            (final(self)@, ty) == old(self)@.check_refined_call(
                cx,
                *e,
                definition,
                base,
                *type_arguments,
                *arguments,
            ),
        decreases arguments, 1nat,
    {
        match arguments {
            Chain::Link(link) => if link.rest.is_empty() && type_arguments.is_empty() {
                self.check_expr(cx, &link.item, Some(base), ExpressionContext::Value);
                self.end_refined(cx, e, definition, &link.item, base)
            } else {
                self.wrong_refined(e)
            },
            Chain::Empty => self.wrong_refined(e),
        }
    }

    fn wrong_refined(&mut self, e: &Expr) -> (ty: TyId)
        ensures
            adds_to(old(self)@.st.diagnostics, final(self)@.st.diagnostics),
            final(self)@.types == old(self)@.types,
            (final(self)@, ty) == old(self)@.wrong_refined(*e),
    {
        self.text_error(
            "TypeMismatch",
            "a constrained constructor takes exactly one value",
            e.span,
        );
        TyId(0)
    }

    fn check_builtin_call(
        &mut self,
        cx: &Context,
        e: &Expr,
        builtin: BuiltinValue,
        arguments: &Chain<Expr>,
        expected: Option<TyId>,
    ) -> (ty: TyId)
        requires
            old(self).wf(),
        ensures
            adds_to(old(self)@.st.diagnostics, final(self)@.st.diagnostics),
            final(self).wf(),
            later(old(self)@.types, final(self)@.types),
            (final(self)@, ty) == old(self)@.check_builtin_call(
                cx,
                *e,
                builtin,
                *arguments,
                expected,
            ),
        decreases arguments, 3nat,
    {
        if builtin == BuiltinValue::OptionSome {
            let ty = self.check_some_call(cx, e, arguments, expected);
            self.settle_builtin(e, arguments, builtin, None);
            ty
        } else if builtin == BuiltinValue::ResultOk || builtin == BuiltinValue::ResultErr {
            let ty = self.check_result_constructor_call(cx, e, builtin, arguments, expected);
            self.settle_builtin(e, arguments, builtin, None);
            ty
        } else if takes_function_arguments(builtin) {
            let params = self.builtin_params(cx, builtin, e.span);
            self.check_fixed_arguments(cx, e, arguments, &params, false);
            let ty = self.builtin_result(cx, builtin, e.span);
            self.settle_builtin(e, arguments, builtin, None);
            ty
        } else {
            match find_resource(builtin) {
                Some(is_file) => self.check_resource_primitive_call(
                    cx,
                    e,
                    builtin,
                    arguments,
                    is_file,
                ),
                None => {
                    self.text_error("TypeMismatch", find_uncallable_text(builtin), e.span);
                    self.settle_builtin(e, arguments, builtin, None);
                    TyId(0)
                },
            }
        }
    }

    fn check_some_call(
        &mut self,
        cx: &Context, e: &Expr, arguments: &Chain<Expr>, expected: Option<TyId>,
    ) -> (ty: TyId)
        requires
            old(self).wf(),
        ensures
            adds_to(old(self)@.st.diagnostics, final(self)@.st.diagnostics),
            final(self).wf(),
            later(old(self)@.types, final(self)@.types),
            (final(self)@, ty) == old(self)@.check_some_call(cx, *e, *arguments, expected),
        decreases arguments, 1nat,
    {
        if check_holds_one(arguments) {
            let wanted = self.option_element(expected);
            let element = self.check_first(cx, arguments, wanted);
            self.intern(TyData::Option(element))
        } else {
            self.check_arity(e.span, &single(()), arguments);
            TyId(0)
        }
    }

    fn check_result_constructor_call(
        &mut self,
        cx: &Context,
        e: &Expr,
        builtin: BuiltinValue,
        arguments: &Chain<Expr>,
        expected: Option<TyId>,
    ) -> (ty: TyId)
        requires
            old(self).wf(),
        ensures
            adds_to(old(self)@.st.diagnostics, final(self)@.st.diagnostics),
            final(self).wf(),
            later(old(self)@.types, final(self)@.types),
            (final(self)@, ty) == old(self)@.check_result_constructor_call(
                cx,
                *e,
                builtin,
                *arguments,
                expected,
            ),
        decreases arguments, 1nat,
    {
        if check_holds_one(arguments) {
            let payload = self.result_payload(e, builtin, expected);
            match (payload, expected) {
                (Some(ty), Some(result)) => {
                    self.check_first(cx, arguments, Some(ty));
                    result
                },
                _ => TyId(0),
            }
        } else {
            self.check_arity(e.span, &single(()), arguments);
            TyId(0)
        }
    }

    fn check_resource_primitive_call(
        &mut self,
        cx: &Context, e: &Expr, builtin: BuiltinValue, arguments: &Chain<Expr>, is_file: bool,
    ) -> (ty: TyId)
        requires
            old(self).wf(),
        ensures
            adds_to(old(self)@.st.diagnostics, final(self)@.st.diagnostics),
            final(self).wf(),
            later(old(self)@.types, final(self)@.types),
            (final(self)@, ty) == old(self)@.check_resource_primitive_call(
                cx,
                *e,
                builtin,
                *arguments,
                is_file,
            ),
        decreases arguments, 2nat,
    {
        let resource = if is_file {
            self.file_type(cx, e.span)
        } else {
            self.socket_type(cx, e.span)
        };
        let shape = self.resource_shape(cx, builtin, e.span);
        let mutable = shape.passing == ReceiverPassing::InOut;
        match find_first(arguments) {
            None => {
                self.check_arity(e.span, &shape.params.with(resource), arguments);
                self.settle_builtin(e, arguments, builtin, Some(shape.passing));
                TyId(0)
            },
            Some(receiver) => {
                self.check_first_receiver(cx, arguments, Some(resource));
                self.require_mutable(
                    receiver,
                    mutable,
                    "the compiler-private close primitive requires a mutable self receiver",
                );
                let scope = self.begin_inout(cx, receiver.id, receiver.span, mutable);
                self.check_fixed_arguments(cx, e, arguments, &shape.params, true);
                self.end_inout(scope, receiver.span);
                self.settle_builtin(e, arguments, builtin, Some(shape.passing));
                shape.result
            },
        }
    }

    fn check_method_call(
        &mut self,
        cx: &Context, e: &Expr, expected: Option<TyId>,
    ) -> (ty: TyId)
        requires
            old(self).wf(),
        ensures
            adds_to(old(self)@.st.diagnostics, final(self)@.st.diagnostics),
            final(self).wf(),
            later(old(self)@.types, final(self)@.types),
            (final(self)@, ty) == old(self)@.check_method_call(cx, *e, expected),
        decreases e, 0nat,
    {
        match &e.kind {
            ExprKind::MethodCall { receiver, method, type_arguments, arguments } =>
                match self.plan_static(cx, receiver, method) {
                    StaticPlan::Variant { variant, owner } => self.check_variant_constructor(
                        cx,
                        e,
                        variant,
                        owner,
                        type_arguments,
                        arguments,
                        expected,
                    ),
                    StaticPlan::Task(intrinsic) => self.check_task_intrinsic_call(
                        cx,
                        e,
                        intrinsic,
                        type_arguments,
                        arguments,
                    ),
                    StaticPlan::PathFromText => self.check_path_from_text(
                        cx,
                        e,
                        type_arguments,
                        arguments,
                    ),
                    StaticPlan::Value => {
                        let ty = self.check_call_receiver(cx, receiver, None);
                        self.check_value_method(
                            cx,
                            e,
                            receiver,
                            ty,
                            method,
                            type_arguments,
                            arguments,
                            expected,
                        )
                    },
                },
            _ => TyId(0),
        }
    }

    fn check_variant_constructor(
        &mut self,
        cx: &Context,
        e: &Expr,
        variant: DefId,
        owner: DefId,
        type_arguments: &Chain<TypeRefId>,
        arguments: &Chain<Expr>,
        expected: Option<TyId>,
    ) -> (ty: TyId)
        requires
            old(self).wf(),
        ensures
            adds_to(old(self)@.st.diagnostics, final(self)@.st.diagnostics),
            final(self).wf(),
            later(old(self)@.types, final(self)@.types),
            (final(self)@, ty) == old(self)@.check_variant_constructor(
                cx,
                *e,
                variant,
                owner,
                *type_arguments,
                *arguments,
                expected,
            ),
        decreases arguments, 1nat,
    {
        match self.begin_variant(
            cx,
            e,
            variant,
            owner,
            true,
            type_arguments,
            arguments,
            expected,
        ) {
            Some(call) => {
                let (known, actuals) = self.check_arguments(
                    cx,
                    arguments,
                    &call.payload,
                    false,
                    false,
                    &call.substitution,
                );
                self.end_variant(cx, e, variant, owner, arguments, &actuals, known)
            },
            None => TyId(0),
        }
    }

    fn check_task_intrinsic_call(
        &mut self,
        cx: &Context,
        e: &Expr,
        intrinsic: TaskIntrinsic,
        type_arguments: &Chain<TypeRefId>,
        arguments: &Chain<Expr>,
    ) -> (ty: TyId)
        requires
            old(self).wf(),
        ensures
            adds_to(old(self)@.st.diagnostics, final(self)@.st.diagnostics),
            final(self).wf(),
            later(old(self)@.types, final(self)@.types),
            (final(self)@, ty) == old(self)@.check_task_intrinsic_call(
                cx,
                *e,
                intrinsic,
                *type_arguments,
                *arguments,
            ),
        decreases arguments, 2nat,
    {
        self.reject_type_arguments(
            e,
            type_arguments,
            "Task standard-library functions do not accept explicit type arguments",
        );
        let ty = if intrinsic == TaskIntrinsic::Sleep {
            self.check_sleep(cx, e, arguments)
        } else {
            self.check_task_join(cx, e, intrinsic, arguments)
        };
        self.set_call(e.id, make_call(CallTarget::TaskIntrinsic(intrinsic), None));
        ty
    }

    fn check_sleep(
        &mut self,
        cx: &Context, e: &Expr, arguments: &Chain<Expr>,
    ) -> (ty: TyId)
        requires
            old(self).wf(),
        ensures
            adds_to(old(self)@.st.diagnostics, final(self)@.st.diagnostics),
            final(self).wf(),
            later(old(self)@.types, final(self)@.types),
            (final(self)@, ty) == old(self)@.check_sleep(cx, *e, *arguments),
        decreases arguments, 1nat,
    {
        self.check_arity(e.span, &single(()), arguments);
        match find_first(arguments) {
            Some(argument) => {
                let ty = self.check_first(cx, arguments, None);
                self.end_sleep_argument(argument, ty);
            },
            None => {},
        }
        self.finish_call_arguments(arguments, false);
        let unit = self.builtin(BuiltinType::Unit);
        self.intern(TyData::Task(unit))
    }

    fn check_task_join(
        &mut self,
        cx: &Context, e: &Expr, mode: TaskIntrinsic, arguments: &Chain<Expr>,
    ) -> (ty: TyId)
        requires
            old(self).wf(),
        ensures
            adds_to(old(self)@.st.diagnostics, final(self)@.st.diagnostics),
            final(self).wf(),
            later(old(self)@.types, final(self)@.types),
            (final(self)@, ty) == old(self)@.check_task_join(cx, *e, mode, *arguments),
        decreases arguments, 1nat,
    {
        if arguments.is_empty() {
            self.text_error(
                "EmptyStaticTaskJoin",
                "fixed Task joins require at least one task; use a typed empty List for all/settled",
                e.span,
            );
            return TyId(0);
        }
        let types = self.check_each(cx, arguments, &None);
        self.consume_tasks(cx, arguments);
        self.finish_call_arguments(arguments, false);
        self.end_join(e, mode, &types)
    }

    fn check_path_from_text(
        &mut self,
        cx: &Context, e: &Expr, type_arguments: &Chain<TypeRefId>, arguments: &Chain<Expr>,
    ) -> (ty: TyId)
        requires
            old(self).wf(),
        ensures
            adds_to(old(self)@.st.diagnostics, final(self)@.st.diagnostics),
            final(self).wf(),
            later(old(self)@.types, final(self)@.types),
            (final(self)@, ty) == old(self)@.check_path_from_text(
                cx,
                *e,
                *type_arguments,
                *arguments,
            ),
        decreases arguments, 2nat,
    {
        let result = self.path_result(cx, e.span);
        self.reject_type_arguments(
            e,
            type_arguments,
            "standard static methods do not accept explicit type arguments",
        );
        let text = self.builtin(BuiltinType::Text);
        self.check_fixed_arguments(cx, e, arguments, &single(text), false);
        self.settle_builtin(e, arguments, BuiltinValue::PathFromText, None);
        result
    }

    fn check_value_method(
        &mut self,
        cx: &Context,
        e: &Expr,
        receiver: &Expr,
        receiver_ty: TyId,
        method: &String,
        type_arguments: &Chain<TypeRefId>,
        arguments: &Chain<Expr>,
        expected: Option<TyId>,
    ) -> (ty: TyId)
        requires
            old(self).wf(),
        ensures
            adds_to(old(self)@.st.diagnostics, final(self)@.st.diagnostics),
            final(self).wf(),
            later(old(self)@.types, final(self)@.types),
            (final(self)@, ty) == old(self)@.check_value_method(
                cx,
                *e,
                *receiver,
                receiver_ty,
                *method,
                *type_arguments,
                *arguments,
                expected,
            ),
        decreases arguments, 4nat,
    {
        match self.data(receiver_ty) {
            TyData::List(element) => match find_list_method(method) {
                Some(kind) => self.check_list_method_call(
                    cx,
                    e,
                    receiver,
                    element,
                    kind,
                    type_arguments,
                    arguments,
                ),
                None => self.check_other_method(
                    cx,
                    e,
                    receiver,
                    receiver_ty,
                    method,
                    type_arguments,
                    arguments,
                    expected,
                ),
            },
            TyData::TextMap(value) => {
                let carries_task = self.has_task_obligation(cx, value);
                match self.text_map_method(value, method) {
                    Some(shape) => self.check_text_map_method_call(
                        cx,
                        e,
                        receiver,
                        &shape,
                        carries_task,
                        type_arguments,
                        arguments,
                    ),
                    None => self.check_other_method(
                    cx,
                    e,
                    receiver,
                    receiver_ty,
                    method,
                    type_arguments,
                    arguments,
                    expected,
                ),
                }
            },
            TyData::Builtin(builtin) => match (
                builtin == BuiltinType::TaskFault,
                find_fault_accessor(method),
            ) {
                (true, Some(accessor)) => {
                    self.fault_call(e, accessor, type_arguments, arguments);
                    self.builtin(BuiltinType::Text)
                },
                _ => match self.value_method(cx, e.span, builtin, method) {
                    Some(shape) => self.check_builtin_value_method_call(
                        cx,
                        e,
                        receiver,
                        &shape,
                        type_arguments,
                        arguments,
                    ),
                    None => self.check_other_method(
                    cx,
                    e,
                    receiver,
                    receiver_ty,
                    method,
                    type_arguments,
                    arguments,
                    expected,
                ),
                },
            },
            _ => self.check_other_method(
                    cx,
                    e,
                    receiver,
                    receiver_ty,
                    method,
                    type_arguments,
                    arguments,
                    expected,
                ),
        }
    }

    fn check_other_method(
        &mut self,
        cx: &Context,
        e: &Expr,
        receiver: &Expr,
        receiver_ty: TyId,
        method: &String,
        type_arguments: &Chain<TypeRefId>,
        arguments: &Chain<Expr>,
        expected: Option<TyId>,
    ) -> (ty: TyId)
        requires
            old(self).wf(),
        ensures
            adds_to(old(self)@.st.diagnostics, final(self)@.st.diagnostics),
            final(self).wf(),
            later(old(self)@.types, final(self)@.types),
            (final(self)@, ty) == old(self)@.check_other_method(
                cx,
                *e,
                *receiver,
                receiver_ty,
                *method,
                *type_arguments,
                *arguments,
                expected,
            ),
        decreases arguments, 3nat,
    {
        if self.is_canonical_resource_type(cx, receiver_ty) && text_is(method, "close") {
            self.reject_close(e, receiver, type_arguments, arguments);
            return self.builtin(BuiltinType::Unit);
        }
        match self.plan_method(cx, e, receiver, receiver_ty, method) {
            Some(plan) => self.check_planned_call(
                cx,
                e,
                receiver,
                plan,
                type_arguments,
                arguments,
                expected,
            ),
            None => TyId(0),
        }
    }

    fn check_planned_call(
        &mut self,
        cx: &Context,
        e: &Expr,
        receiver: &Expr,
        plan: PlannedCall,
        type_arguments: &Chain<TypeRefId>,
        arguments: &Chain<Expr>,
        expected: Option<TyId>,
    ) -> (ty: TyId)
        requires
            old(self).wf(),
        ensures
            adds_to(old(self)@.st.diagnostics, final(self)@.st.diagnostics),
            final(self).wf(),
            later(old(self)@.types, final(self)@.types),
            (final(self)@, ty) == old(self)@.check_planned_call(
                cx,
                *e,
                *receiver,
                plan,
                *type_arguments,
                *arguments,
                expected,
            ),
        decreases arguments, 2nat,
    {
        let mutable = is_mutating(&plan.signature);
        let explicit = self.resolve_written_types(cx, type_arguments);
        let scope = self.begin_inout(cx, receiver.id, receiver.span, mutable);
        let (known, ty) = self.check_callable_arguments(
            cx,
            e,
            &plan.signature,
            arguments,
            false,
            &explicit,
            expected,
            &plan.substitution,
        );
        self.end_inout(scope, receiver.span);
        let passing = receiver_passing(&plan.signature);
        self.settle_call(
            cx,
            e,
            arguments,
            false,
            &plan.signature,
            ty,
            known,
            plan.target,
            plan.witness,
            Some(passing),
        )
    }

    fn check_list_method_call(
        &mut self,
        cx: &Context,
        e: &Expr,
        receiver: &Expr,
        element: TyId,
        method: ListMethod,
        type_arguments: &Chain<TypeRefId>,
        arguments: &Chain<Expr>,
    ) -> (ty: TyId)
        requires
            old(self).wf(),
        ensures
            adds_to(old(self)@.st.diagnostics, final(self)@.st.diagnostics),
            final(self).wf(),
            later(old(self)@.types, final(self)@.types),
            (final(self)@, ty) == old(self)@.check_list_method_call(
                cx,
                *e,
                *receiver,
                element,
                method,
                *type_arguments,
                *arguments,
            ),
        decreases arguments, 3nat,
    {
        let ty = match method {
            ListMethod::Add => {
                self.check_list_add(cx, e, receiver, element, arguments);
                self.builtin(BuiltinType::Unit)
            },
            ListMethod::Length => {
                self.check_arity(e.span, &Chain::<()>::new(), arguments);
                self.builtin(BuiltinType::Int)
            },
            ListMethod::Get => {
                let number = self.builtin(BuiltinType::Int);
                self.check_fixed_arguments(cx, e, arguments, &single(number), false);
                self.end_list_get(cx, receiver, element)
            },
            ListMethod::ToTextMap => {
                self.check_arity(e.span, &Chain::<()>::new(), arguments);
                self.list_to_map(cx, receiver, element)
            },
        };
        let (builtin, passing) = find_list_builtin(method);
        self.reject_type_arguments(
            e,
            type_arguments,
            "List methods do not accept explicit type arguments",
        );
        self.settle_builtin(e, arguments, builtin, Some(passing));
        ty
    }

    fn check_list_add(
        &mut self,
        cx: &Context, e: &Expr, receiver: &Expr, element: TyId, arguments: &Chain<Expr>,
    )
        requires
            old(self).wf(),
        ensures
            adds_to(old(self)@.st.diagnostics, final(self)@.st.diagnostics),
            final(self).wf(),
            later(old(self)@.types, final(self)@.types),
            final(self)@ == old(self)@.check_list_add(cx, *e, *receiver, element, *arguments),
        decreases arguments, 2nat,
    {
        self.require_live_task_owner(receiver.id, receiver.span);
        self.check_arity(e.span, &single(()), arguments);
        let scope = self.begin_inout(cx, receiver.id, receiver.span, true);
        match find_first(arguments) {
            Some(argument) => {
                self.check_first(cx, arguments, Some(element));
                self.end_add_argument(cx, argument, element);
            },
            None => {},
        }
        self.end_inout(scope, receiver.span);
        self.require_mutable(receiver, true, "List.add requires a mutable `var` receiver");
    }

    fn check_text_map_method_call(
        &mut self,
        cx: &Context,
        e: &Expr,
        receiver: &Expr,
        shape: &MethodShape,
        carries_task: bool,
        type_arguments: &Chain<TypeRefId>,
        arguments: &Chain<Expr>,
    ) -> (ty: TyId)
        requires
            old(self).wf(),
        ensures
            adds_to(old(self)@.st.diagnostics, final(self)@.st.diagnostics),
            final(self).wf(),
            later(old(self)@.types, final(self)@.types),
            (final(self)@, ty) == old(self)@.check_text_map_method_call(
                cx,
                *e,
                *receiver,
                *shape,
                carries_task,
                *type_arguments,
                *arguments,
            ),
        decreases arguments, 3nat,
    {
        self.reject_type_arguments(
            e,
            type_arguments,
            "TextMap methods do not accept explicit type arguments",
        );
        self.check_fixed_arguments(cx, e, arguments, &shape.params, false);
        let ty = self.end_text_map(cx, e, receiver, arguments, shape, carries_task);
        self.settle_builtin(e, arguments, shape.builtin, Some(ReceiverPassing::Value));
        ty
    }

    fn check_builtin_value_method_call(
        &mut self,
        cx: &Context,
        e: &Expr,
        receiver: &Expr,
        shape: &MethodShape,
        type_arguments: &Chain<TypeRefId>,
        arguments: &Chain<Expr>,
    ) -> (ty: TyId)
        requires
            old(self).wf(),
        ensures
            adds_to(old(self)@.st.diagnostics, final(self)@.st.diagnostics),
            final(self).wf(),
            later(old(self)@.types, final(self)@.types),
            (final(self)@, ty) == old(self)@.check_builtin_value_method_call(
                cx,
                *e,
                *receiver,
                *shape,
                *type_arguments,
                *arguments,
            ),
        decreases arguments, 3nat,
    {
        let mutable = shape.passing == ReceiverPassing::InOut;
        self.reject_type_arguments(
            e,
            type_arguments,
            "standard value methods do not accept explicit type arguments",
        );
        self.require_mutable(receiver, mutable, "Bytes.add requires a mutable `var` receiver");
        let scope = self.begin_inout(cx, receiver.id, receiver.span, mutable);
        self.check_fixed_arguments(cx, e, arguments, &shape.params, false);
        self.end_inout(scope, receiver.span);
        self.settle_builtin(e, arguments, shape.builtin, Some(shape.passing));
        shape.result
    }

    fn check_qualified_call(
        &mut self,
        cx: &Context, e: &Expr, expected: Option<TyId>,
    ) -> (ty: TyId)
        requires
            old(self).wf(),
        ensures
            adds_to(old(self)@.st.diagnostics, final(self)@.st.diagnostics),
            final(self).wf(),
            later(old(self)@.types, final(self)@.types),
            (final(self)@, ty) == old(self)@.check_qualified_call(cx, *e, expected),
        decreases e, 0nat,
    {
        match &e.kind {
            ExprKind::QualifiedMethodCall {
                self_ty,
                concept,
                method,
                type_arguments,
                arguments,
            } => {
                let receiver_ty = self.resolve_written(cx, *self_ty);
                match self.plan_qualified(cx, e, receiver_ty, concept, method) {
                    None => TyId(0),
                    Some(plan) => if plan.signature.receiver == Some(ReceiverKind::Static) {
                        self.check_static_requirement(
                            cx,
                            e,
                            plan,
                            type_arguments,
                            arguments,
                            expected,
                        )
                    } else {
                        self.check_requirement(
                            cx,
                            e,
                            receiver_ty,
                            plan,
                            type_arguments,
                            arguments,
                            expected,
                        )
                    },
                }
            },
            _ => TyId(0),
        }
    }

    fn check_static_requirement(
        &mut self,
        cx: &Context,
        e: &Expr,
        plan: PlannedCall,
        type_arguments: &Chain<TypeRefId>,
        arguments: &Chain<Expr>,
        expected: Option<TyId>,
    ) -> (ty: TyId)
        requires
            old(self).wf(),
        ensures
            adds_to(old(self)@.st.diagnostics, final(self)@.st.diagnostics),
            final(self).wf(),
            later(old(self)@.types, final(self)@.types),
            (final(self)@, ty) == old(self)@.check_static_requirement(
                cx,
                *e,
                plan,
                *type_arguments,
                *arguments,
                expected,
            ),
        decreases arguments, 2nat,
    {
        let explicit = self.resolve_written_types(cx, type_arguments);
        let (known, ty) = self.check_callable_arguments(
            cx,
            e,
            &plan.signature,
            arguments,
            false,
            &explicit,
            expected,
            &plan.substitution,
        );
        self.settle_call(
            cx,
            e,
            arguments,
            false,
            &plan.signature,
            ty,
            known,
            plan.target,
            plan.witness,
            None,
        )
    }

    fn check_requirement(
        &mut self,
        cx: &Context,
        e: &Expr,
        self_ty: TyId,
        plan: PlannedCall,
        type_arguments: &Chain<TypeRefId>,
        arguments: &Chain<Expr>,
        expected: Option<TyId>,
    ) -> (ty: TyId)
        requires
            old(self).wf(),
        ensures
            adds_to(old(self)@.st.diagnostics, final(self)@.st.diagnostics),
            final(self).wf(),
            later(old(self)@.types, final(self)@.types),
            (final(self)@, ty) == old(self)@.check_requirement(
                cx,
                *e,
                self_ty,
                plan,
                *type_arguments,
                *arguments,
                expected,
            ),
        decreases arguments, 2nat,
    {
        match find_first(arguments) {
            None => {
                let types = parameter_types(&plan.signature.params);
                self.check_arity(e.span, &types.with(self_ty), arguments);
                TyId(0)
            },
            Some(receiver) => {
                self.check_first_receiver(cx, arguments, Some(self_ty));
                self.hand_receiver(cx, receiver, self_ty, &plan);
                let mutable = is_mutating(&plan.signature);
                let explicit = self.resolve_written_types(cx, type_arguments);
                let scope = self.begin_inout(cx, receiver.id, receiver.span, mutable);
                let (known, ty) = self.check_callable_arguments(
                    cx,
                    e,
                    &plan.signature,
                    arguments,
                    true,
                    &explicit,
                    expected,
                    &plan.substitution,
                );
                self.end_inout(scope, receiver.span);
                let passing = receiver_passing(&plan.signature);
                self.settle_call(
                    cx,
                    e,
                    arguments,
                    true,
                    &plan.signature,
                    ty,
                    known,
                    plan.target,
                    plan.witness,
                    Some(passing),
                )
            },
        }
    }

    fn check_record_literal(
        &mut self,
        cx: &Context, e: &Expr, expected: Option<TyId>,
    ) -> (ty: TyId)
        requires
            old(self).wf(),
        ensures
            adds_to(old(self)@.st.diagnostics, final(self)@.st.diagnostics),
            final(self).wf(),
            later(old(self)@.types, final(self)@.types),
            (final(self)@, ty) == old(self)@.check_record_literal(cx, *e, expected),
        decreases e, 0nat,
    {
        match &e.kind {
            ExprKind::RecordLiteral { ty, fields } => match self.begin_record(
                cx,
                e,
                ty,
                fields,
                expected,
            ) {
                None => TyId(0),
                Some(start) => {
                    let (known, list) = self.check_record_fields(
                        cx,
                        e,
                        &start.fields,
                        fields,
                        &start.substitution,
                    );
                    self.end_record(cx, e, &start, fields, &list, &known)
                },
            },
            _ => TyId(0),
        }
    }

    fn check_record_fields(
        &mut self,
        cx: &Context,
        e: &Expr,
        declared: &Chain<DefId>,
        values: &Chain<RecordFieldValue>,
        substitution: &Substitution,
    ) -> (result: (Substitution, Chain<FieldActual>))
        requires
            old(self).wf(),
        ensures
            adds_to(old(self)@.st.diagnostics, final(self)@.st.diagnostics),
            final(self).wf(),
            later(old(self)@.types, final(self)@.types),
            (final(self)@, result.0, result.1) == old(self)@.check_record_fields(
                cx,
                *e,
                *declared,
                *values,
                *substitution,
            ),
        decreases values, 1 + declared.spec_len(),
    {
        match declared {
            Chain::Empty => (substitution.clone(), Chain::new()),
            Chain::Link(link) => {
                let (mut known, list) = self.check_record_fields(
                    cx,
                    e,
                    &link.rest,
                    values,
                    substitution,
                );
                match self.begin_field(cx, e, link.item, &link.rest, values, &known) {
                    None => (known, list),
                    Some(start) => {
                        let name = make_field_name(cx.program, link.item);
                        match self.check_field_value(cx, values, &name, start.expected) {
                            None => (known, list),
                            Some((value, actual)) => {
                                unify_type(&self.types, start.declared, actual, &mut known);
                                (
                                    known,
                                    list.with(
                                        FieldActual {
                                            field: link.item,
                                            value,
                                            types: Actual { actual, declared: start.declared },
                                        },
                                    ),
                                )
                            },
                        }
                    },
                }
            },
        }
    }

    fn check_field_value(
        &mut self,
        cx: &Context,
        values: &Chain<RecordFieldValue>,
        name: &String,
        expected: Option<TyId>,
    ) -> (result: Option<(ExprId, TyId)>)
        requires
            old(self).wf(),
        ensures
            adds_to(old(self)@.st.diagnostics, final(self)@.st.diagnostics),
            final(self).wf(),
            later(old(self)@.types, final(self)@.types),
            (final(self)@, result) == old(self)@.check_field_value(cx, *values, name@, expected),
        decreases values, 0nat,
    {
        match values {
            Chain::Empty => None,
            Chain::Link(link) => if link.item.name == *name {
                let ty = self.check_expr(
                    cx,
                    &link.item.value,
                    expected,
                    ExpressionContext::Value,
                );
                Some((link.item.value.id, ty))
            } else {
                self.check_field_value(cx, &link.rest, name, expected)
            },
        }
    }
}

} // verus!
