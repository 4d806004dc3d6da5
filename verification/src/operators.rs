//! The steps of checking operators, branches, assignments and fields that look
//! at no further expression.

use vstd::prelude::*;

use crate::chain::Chain;
#[allow(unused_imports)]
use crate::diagnostics::{adds_to, lemma_adds_nothing, lemma_adds_one, lemma_adds_through};
use crate::diagnostics::Message;
use crate::flow::{
    drop_term, join_flow_states, join_pair, put_term, remove_terms, FlowState,
    TaskObligationState,
};
#[allow(unused_imports)]
use crate::flow::{joined, joined_pair, term_dropped, term_put, terms_without};
#[allow(unused_imports)]
use crate::growth::{later, lemma_later_itself, lemma_later_through};
use crate::hir::{text_is, BinaryOp, DefinitionKind, Expr, ExprKind, Literal, Pattern, UnaryOp};
use crate::ids::{LocalId, Span, TyId};
use crate::patterns::CheckedPattern;
use crate::proofs::{proof_place, proof_term};
#[allow(unused_imports)]
use crate::proofs::{expr_term, symbolic_place};
use crate::semantics::{Place, PlaceRoot, Signature};
use crate::state::{BodyChecker, Context, ContractMode, InvariantMutation, PlaceAccess};
#[allow(unused_imports)]
use crate::state::World;
#[allow(unused_imports)]
use crate::steps::{bool_ty, unit_ty};
use crate::symbolic::ProofTerm;
use crate::table::{contains_id, remove_id};
#[allow(unused_imports)]
use crate::table::{has_id, id_removed};
use crate::tasks::root_owner;
#[allow(unused_imports)]
use crate::tasks::owner_of;
use crate::ty::{BuiltinType, Mutability, TyData};
#[allow(unused_imports)]
use crate::ty::{builtin_ty, error_ty, never_ty};
use crate::unify::substitution_for;
#[allow(unused_imports)]
use crate::substitution::Substitution;
#[allow(unused_imports)]
use crate::unify::paired;

verus! {

broadcast use {
    lemma_adds_nothing,
    lemma_adds_one,
    lemma_adds_through,
    lemma_later_itself,
    lemma_later_through,
};

/// Whether the operand is the magnitude of the smallest number, which is one
/// more than the largest.
pub open spec fn is_smallest_magnitude(op: UnaryOp, operand: Expr) -> bool {
    op == UnaryOp::Negate && match operand.kind {
        ExprKind::Literal(Literal::Int(text)) => text@ == "9223372036854775808"@,
        _ => false,
    }
}

pub(crate) fn check_smallest_magnitude(op: UnaryOp, operand: &Expr) -> (result: bool)
    ensures
        result == is_smallest_magnitude(op, *operand),
{
    op == UnaryOp::Negate && match &operand.kind {
        ExprKind::Literal(Literal::Int(text)) => text_is(text, "9223372036854775808"),
        _ => false,
    }
}

/// What the arms of a match lead to.
pub struct Arms {
    pub result: Option<TyId>,
    pub rows: Chain<Chain<CheckedPattern>>,
    pub exits: Chain<FlowState>,
    pub reachable: bool,
}

impl World {
    /// The value of an expression is adapted to what is expected of it, and
    /// its type is noted.
    #[verifier::opaque]
    pub open spec fn finish_expr(
        self,
        cx: &Context,
        e: Expr,
        inferred: TyId,
        expected: Option<TyId>,
    ) -> (World, TyId) {
        let (w, result) = match expected {
            Some(expected) => self.coerce(cx, e, inferred, expected),
            None => (self, inferred),
        };
        (w.set_type(e.id, result).invalidate_mutated_receiver(cx, e), result)
    }

    #[verifier::opaque]
    pub open spec fn begin_old(self, e: Expr) -> World {
        if self.st.contract != (ContractMode::Predicate { old_allowed: true }) {
            self.text_error(
                "InvalidOldExpression",
                "old(expr) is only available in ensures",
                e.span,
            )
        } else {
            self
        }
    }

    #[verifier::opaque]
    pub open spec fn end_old(self, e: Expr, ty: TyId) -> World {
        if self.is_view(ty) {
            self.text_error(
                "OldOfView",
                "an erased interface parameter cannot be snapshotted",
                e.span,
            )
        } else {
            self
        }
    }

    /// A condition holds or fails on a branch, if it is known what it says.
    #[verifier::opaque]
    pub open spec fn assume_condition(self, term: ProofTerm, value: bool) -> World {
        if term.known() {
            self.ask(term).assume_fact(term, value)
        } else {
            self
        }
    }

    /// An `if` without `else` ends.
    #[verifier::opaque]
    pub open spec fn end_if(
        self,
        cx: &Context,
        then_branch: Expr,
        then_ty: TyId,
        entry: FlowState,
        required: bool,
    ) -> World {
        let w = if self.expression_diverges(then_branch.id) {
            self.restored(entry)
        } else {
            self.restored(joined_pair(entry, self.st.flow))
        };
        let w = if required {
            w.text_error("MissingElse", "if expression requires else", then_branch.span)
        } else {
            w
        };
        w.coerce(cx, then_branch, then_ty, unit_ty()).0
    }

    /// Both branches of an `if` end.
    #[verifier::opaque]
    pub open spec fn end_if_else(
        self,
        cx: &Context,
        entry: FlowState,
        then_state: FlowState,
        then_ty: TyId,
        then_diverges: bool,
        else_branch: Expr,
        else_ty: TyId,
    ) -> (World, TyId) {
        let else_state = self.st.flow;
        match (then_diverges, self.expression_diverges(else_branch.id)) {
            (true, true) => (self.restored(entry), never_ty()),
            (true, false) => (self, else_ty),
            (false, true) => (self.restored(then_state), then_ty),
            (false, false) => self.restored(joined_pair(then_state, else_state)).join_types(
                cx,
                then_ty,
                else_ty,
                else_branch.span,
            ),
        }
    }

    #[verifier::opaque]
    pub open spec fn end_unary(
        self,
        cx: &Context,
        e: Expr,
        op: UnaryOp,
        operand: Expr,
        operand_ty: TyId,
    ) -> (World, TyId) {
        match op {
            UnaryOp::Not => (self.coerce(cx, operand, operand_ty, bool_ty()).0, bool_ty()),
            UnaryOp::Negate => if self.is_builtin_or_refined(cx, operand_ty, BuiltinType::Int) {
                (self, builtin_ty(BuiltinType::Int))
            } else if self.is_builtin_or_refined(cx, operand_ty, BuiltinType::Float) {
                (self, builtin_ty(BuiltinType::Float))
            } else {
                (
                    self.text_error(
                        "InvalidGenericOperation",
                        "unary `-` requires Int or Float",
                        e.span,
                    ),
                    error_ty(),
                )
            },
        }
    }

    pub open spec fn both_are(
        self,
        cx: &Context,
        left: TyId,
        right: TyId,
        builtin: BuiltinType,
    ) -> bool {
        self.is_builtin_or_refined(cx, left, builtin) && self.is_builtin_or_refined(
            cx,
            right,
            builtin,
        )
    }

    #[verifier::opaque]
    pub open spec fn end_equality(self, cx: &Context, e: Expr, left: TyId, right: TyId) -> World {
        if !self.assignable(cx, left, right) && !self.assignable(cx, right, left) {
            self.text_error(
                "TypeMismatch",
                "equality operands have incompatible types",
                e.span,
            )
        } else {
            let (w, first) = self.supports_value_equality(cx, left);
            let (w, both) = if first {
                w.supports_value_equality(cx, right)
            } else {
                (w, false)
            };
            if !both {
                w.text_error(
                    "InvalidGenericOperation",
                    "equality is unavailable because an operand type does not support value equality",
                    e.span,
                )
            } else {
                w
            }
        }
    }

    #[verifier::opaque]
    pub open spec fn end_binary(
        self,
        cx: &Context,
        e: Expr,
        op: BinaryOp,
        left: Expr,
        left_ty: TyId,
        right: Expr,
        right_ty: TyId,
    ) -> (World, TyId) {
        if is_logical(op) {
            (
                self.coerce(cx, left, left_ty, bool_ty()).0.coerce(
                    cx,
                    right,
                    right_ty,
                    bool_ty(),
                ).0,
                bool_ty(),
            )
        } else if is_arithmetic(op) {
            if self.both_are(cx, left_ty, right_ty, BuiltinType::Int) {
                (self, builtin_ty(BuiltinType::Int))
            } else if self.both_are(cx, left_ty, right_ty, BuiltinType::Float) {
                (self, builtin_ty(BuiltinType::Float))
            } else {
                (
                    self.text_error(
                        "InvalidGenericOperation",
                        "arithmetic operands must have the same numeric base type",
                        e.span,
                    ),
                    error_ty(),
                )
            }
        } else if op == BinaryOp::Equal || op == BinaryOp::NotEqual {
            (self.end_equality(cx, e, left_ty, right_ty), bool_ty())
        } else if self.both_are(cx, left_ty, right_ty, BuiltinType::Int) || self.both_are(
            cx,
            left_ty,
            right_ty,
            BuiltinType::Float,
        ) {
            (self, bool_ty())
        } else {
            (
                self.text_error(
                    "InvalidGenericOperation",
                    "ordered comparison requires matching Int or Float operands",
                    e.span,
                ),
                bool_ty(),
            )
        }
    }

    /// The place that is assigned to can be written. The result says whether
    /// the assignment makes `self` dirty.
    #[verifier::opaque]
    pub open spec fn begin_assignment(
        self,
        cx: &Context,
        target: Expr,
        target_ty: TyId,
        place: Place,
    ) -> (World, bool) {
        let w = if place.mutability != Mutability::Mutable {
            self.text_error(
                "ImmutableBindingAssignment",
                "assignment target is immutable",
                target.span,
            )
        } else {
            self
        };
        let (w, task) = w.has_task_obligation(cx, target_ty);
        let w = if task {
            w.text_error(
                "TaskAssignmentUnsupported",
                "assigning over a Task-carrying place is unavailable before task transfer ownership is explicit",
                target.span,
            ).set_task(owner_of(place.root), TaskObligationState::Consumed)
        } else {
            w
        };
        let w = w.check_borrowed_place_use(place, PlaceAccess::Write, target.span);
        let w = if !(place.projections is Empty) && place.root != PlaceRoot::SelfValue {
            w.text_error(
                "ReadonlyReceiverMutation",
                "record fields can only be changed through the owning type's mut self method",
                target.span,
            )
        } else {
            w
        };
        if place.root == PlaceRoot::SelfValue {
            w.check_invariant_mutation_boundary(
                cx,
                target.span,
                place,
                InvariantMutation::Assignment,
            )
        } else {
            (w, false)
        }
    }

    /// What is known of the place that was assigned to.
    #[verifier::opaque]
    pub open spec fn store_term(self, place: Place, term: ProofTerm) -> World {
        let symbolic = symbolic_place(place);
        let facts = self.st.flow.proof_facts.without(symbolic);
        let kept = match place.root {
            PlaceRoot::Local(local) => Some(local.0),
            _ => None,
        };
        let terms = terms_without(self.st.flow.local_terms, symbolic, kept);
        let terms = match (place.root, place.projections) {
            (PlaceRoot::Local(local), Chain::Empty) => if term.known() && !term.mentions(symbolic) {
                term_put(terms, local.0, term)
            } else {
                term_dropped(terms, local.0)
            },
            _ => terms,
        };
        self.with_flow(FlowState { proof_facts: facts, local_terms: terms, ..self.st.flow })
    }

    #[verifier::opaque]
    pub open spec fn end_assignment(
        self,
        cx: &Context,
        e: Expr,
        place: Place,
        target_ty: TyId,
        value: Expr,
        dirties_self: bool,
    ) -> World {
        let w = self.store_term(
            place,
            expr_term(cx, self.st, value, 0),
        ).assume_established_type(cx, target_ty, ProofTerm::Place(symbolic_place(place)));
        let w = if place.root == PlaceRoot::SelfValue && place.projections is Empty {
            w.set_dirty(false)
        } else if dirties_self {
            w.set_dirty(true)
        } else {
            w
        };
        w.set_type(e.id, unit_ty())
    }

    #[verifier::opaque]
    pub open spec fn begin_return(self, cx: &Context, bare: bool) -> World {
        let w = if self.st.cleanup_depth > 0 {
            self.text_error(
                "ReturnFromCleanup",
                "a defer cleanup cannot return from its enclosing function",
                cx.source.span,
            )
        } else {
            self
        };
        if bare && cx.environment.return_ty != unit_ty() {
            w.text_error(
                "TypeMismatch",
                "bare return is only valid for a Unit-returning callable",
                cx.source.span,
            )
        } else {
            w
        }
    }

    #[verifier::opaque]
    pub open spec fn unknown_field(self, e: Expr, prefix: &'static str, name: String) -> World {
        self.error("UnknownField", Message::Name(prefix, name, "`"), e.span)
    }

    /// The type of a field, and the place that it is.
    #[verifier::opaque]
    pub open spec fn end_field(
        self,
        cx: &Context,
        e: Expr,
        receiver: Expr,
        ty: TyId,
        name: String,
    ) -> (
        World,
        TyId,
    ) {
        match self.data(ty) {
            TyData::Nominal { definition, arguments } => match cx.program.kind_of(definition) {
                Some(DefinitionKind::Record { generic_params: _, fields, invariant_body: _ }) =>
                    match cx.program.member_named(fields, name@) {
                        None => (
                            self.unknown_field(e, "record has no field `", name),
                            error_ty(),
                        ),
                        Some(field) => match cx.signature_of(field) {
                            Some(Signature::Field { owner: _, ty }) => {
                                let (w, ty) = self.substitute(
                                    ty,
                                    paired(
                                        cx.program.type_params_of(definition),
                                        arguments,
                                        Substitution::empty(),
                                    ),
                                );
                                match w.place_of(receiver.id) {
                                    Some(place) => (
                                        w.set_place(
                                            e.id,
                                            Place {
                                                projections: place.projections.pushed(field),
                                                ..place
                                            },
                                        ),
                                        ty,
                                    ),
                                    None => (w, ty),
                                }
                            },
                            _ => (self, error_ty()),
                        },
                    },
                _ => (self.unknown_field(e, "type has no field `", name), error_ty()),
            },
            _ => (self.unknown_field(e, "type has no field `", name), error_ty()),
        }
    }

    /// A value is handed on, or only looked at in a contract.
    #[verifier::opaque]
    pub open spec fn hand_on(self, cx: &Context, e: Expr) -> World {
        if self.st.contract == ContractMode::Ordinary {
            self.consume_task_obligation(cx, e)
        } else {
            self.borrow_task_obligation(cx, e)
        }
    }

    /// The pattern of an arm is checked. The result says whether the arm is
    /// useful, and gives the rows with the new one.
    #[verifier::opaque]
    pub open spec fn begin_arm(
        self,
        cx: &Context,
        pattern: Pattern,
        scrutinee_ty: TyId,
        entry: FlowState,
        rows: Chain<Chain<CheckedPattern>>,
    ) -> (World, bool, Chain<Chain<CheckedPattern>>) {
        let w = self.restored(entry).set_scopes(self.st.scopes.pushed(Chain::Empty));
        let (w, checked) = w.check_pattern(cx, pattern, scrutinee_ty);
        let (w, useful) = w.pattern_is_useful(cx, scrutinee_ty, rows, checked);
        let w = if !useful {
            w.text_error(
                "UnreachableMatchArm",
                "match arm is unreachable because previous arms already cover it",
                pattern.span,
            )
        } else {
            w
        };
        (
            w,
            useful,
            if checked is Invalid {
                rows
            } else {
                rows.pushed(Chain::Empty.pushed(checked))
            },
        )
    }

    #[verifier::opaque]
    pub open spec fn drop_pending(self, local: LocalId) -> World {
        self.with_flow(
            FlowState {
                pending_must_scope_locals: id_removed(
                    self.st.flow.pending_must_scope_locals,
                    local.0,
                ),
                ..self.st.flow
            },
        )
    }

    /// The resources that the pattern of an arm took out are gone.
    #[verifier::opaque]
    pub open spec fn end_arm_locals(self, cx: &Context, locals: Chain<LocalId>) -> World
        decreases locals,
    {
        match locals {
            Chain::Empty => self,
            Chain::Link(link) => {
                let w = self.end_arm_locals(cx, link.rest);
                if has_id(w.st.flow.pending_must_scope_locals, link.item.0) {
                    w.drop_pending(link.item).text_error(
                        "MustScopeRequiresScoped",
                        "a resource extracted by this pattern must be moved directly into `scoped`",
                        cx.local_span_of(link.item),
                    )
                } else {
                    w
                }
            },
        }
    }

    /// The innermost scope of locals.
    pub open spec fn innermost(self) -> Chain<LocalId> {
        match self.st.scopes {
            Chain::Empty => Chain::Empty,
            Chain::Link(link) => link.item,
        }
    }

    /// An arm is checked.
    #[verifier::opaque]
    pub open spec fn end_arm(
        self,
        cx: &Context,
        value: Expr,
        span: Span,
        arm_ty: TyId,
        useful: bool,
        arms: Arms,
    ) -> (World, Arms) {
        let (w, task) = self.may_have_task_obligation(cx, arm_ty);
        let w = if task {
            w.hand_on(cx, value)
        } else {
            w
        };
        let w = w.end_arm_locals(cx, w.innermost());
        let w = w.check_current_scope_task_obligations(cx);
        let w = w.set_scopes(w.st.scopes.without_last());
        if useful && !w.expression_diverges(value.id) {
            let (w, joined_ty) = match arms.result {
                Some(previous) => w.join_types(cx, previous, arm_ty, span),
                None => (w, arm_ty),
            };
            (
                w,
                Arms {
                    result: Some(joined_ty),
                    exits: arms.exits.pushed(w.st.flow),
                    reachable: true,
                    ..arms
                },
            )
        } else {
            (w, arms)
        }
    }

    #[verifier::opaque]
    pub open spec fn end_match(
        self,
        cx: &Context,
        scrutinee: Expr,
        scrutinee_ty: TyId,
        entry: FlowState,
        arms: Arms,
        has_arms: bool,
    ) -> (World, TyId) {
        let w = if arms.exits is Empty {
            self.restored(entry)
        } else {
            self.restored(joined(arms.exits))
        };
        (
            w.check_exhaustive(cx, scrutinee_ty, arms.rows, scrutinee.span),
            if !arms.reachable && has_arms {
                never_ty()
            } else {
                match arms.result {
                    Some(ty) => ty,
                    None => error_ty(),
                }
            },
        )
    }
}

pub open spec fn is_logical(op: BinaryOp) -> bool {
    op == BinaryOp::And || op == BinaryOp::Or
}

pub open spec fn is_arithmetic(op: BinaryOp) -> bool {
    op == BinaryOp::Add || op == BinaryOp::Subtract || op == BinaryOp::Multiply || op
        == BinaryOp::Divide
}

impl BodyChecker {
    pub fn finish_expr(
        &mut self,
        cx: &Context,
        e: &Expr,
        inferred: TyId,
        expected: Option<TyId>,
    ) -> (ty:
        TyId)
        requires
            old(self).wf(),
        ensures
            adds_to(old(self)@.st.diagnostics, final(self)@.st.diagnostics),
            final(self).wf(),
            later(old(self)@.types, final(self)@.types),
            (final(self)@, ty) == old(self)@.finish_expr(cx, *e, inferred, expected),
    {
        proof {
            reveal(World::finish_expr);
        }
        let result = match expected {
            Some(expected) => self.coerce(cx, e, inferred, expected),
            None => inferred,
        };
        self.set_type(e.id, result);
        self.invalidate_mutated_receiver(cx, e);
        result
    }

    pub fn begin_old(&mut self, e: &Expr)
        ensures
            adds_to(old(self)@.st.diagnostics, final(self)@.st.diagnostics),
            final(self)@.types == old(self)@.types,
            final(self)@ == old(self)@.begin_old(*e),
    {
        proof {
            reveal(World::begin_old);
        }
        if self.st.contract != (ContractMode::Predicate { old_allowed: true }) {
            self.text_error(
                "InvalidOldExpression",
                "old(expr) is only available in ensures",
                e.span,
            );
        }
    }

    pub fn end_old(&mut self, e: &Expr, ty: TyId)
        requires
            old(self).wf(),
        ensures
            adds_to(old(self)@.st.diagnostics, final(self)@.st.diagnostics),
            final(self).wf(),
            later(old(self)@.types, final(self)@.types),
            final(self)@ == old(self)@.end_old(*e, ty),
    {
        proof {
            reveal(World::end_old);
        }
        if self.is_view(ty) {
            self.text_error(
                "OldOfView",
                "an erased interface parameter cannot be snapshotted",
                e.span,
            );
        }
    }

    pub fn assume_condition(&mut self, term: &ProofTerm, value: bool)
        ensures
            adds_to(old(self)@.st.diagnostics, final(self)@.st.diagnostics),
            final(self)@.types == old(self)@.types,
            final(self)@ == old(self)@.assume_condition(*term, value),
    {
        proof {
            reveal(World::assume_condition);
        }
        if term.is_known() {
            self.ask(term);
            self.assume_fact(term.clone(), value);
        }
    }

    pub fn end_if(
        &mut self,
        cx: &Context,
        then_branch: &Expr,
        then_ty: TyId,
        entry: FlowState,
        required: bool,
    )
        requires
            old(self).wf(),
        ensures
            adds_to(old(self)@.st.diagnostics, final(self)@.st.diagnostics),
            final(self).wf(),
            later(old(self)@.types, final(self)@.types),
            final(self)@ == old(self)@.end_if(cx, *then_branch, then_ty, entry, required),
    {
        proof {
            reveal(World::end_if);
        }
        if self.expression_diverges(then_branch.id) {
            self.restored(entry);
        } else {
            let flow = join_pair(entry, self.flow_state());
            self.restored(flow);
        }
        if required {
            self.text_error("MissingElse", "if expression requires else", then_branch.span);
        }
        let unit = self.builtin(BuiltinType::Unit);
        self.coerce(cx, then_branch, then_ty, unit);
    }

    pub fn end_if_else(
        &mut self,
        cx: &Context,
        entry: FlowState,
        then_state: FlowState,
        then_ty: TyId,
        then_diverges: bool,
        else_branch: &Expr,
        else_ty: TyId,
    ) -> (ty: TyId)
        requires
            old(self).wf(),
        ensures
            adds_to(old(self)@.st.diagnostics, final(self)@.st.diagnostics),
            final(self).wf(),
            later(old(self)@.types, final(self)@.types),
            (final(self)@, ty) == old(self)@.end_if_else(
                cx,
                entry,
                then_state,
                then_ty,
                then_diverges,
                *else_branch,
                else_ty,
            ),
    {
        proof {
            reveal(World::end_if_else);
        }
        match (then_diverges, self.expression_diverges(else_branch.id)) {
            (true, true) => {
                self.restored(entry);
                self.types.never()
            },
            (true, false) => else_ty,
            (false, true) => {
                self.restored(then_state);
                then_ty
            },
            (false, false) => {
                let flow = join_pair(then_state, self.flow_state());
                self.restored(flow);
                self.join_types(cx, then_ty, else_ty, else_branch.span)
            },
        }
    }

    pub fn end_unary(
        &mut self,
        cx: &Context,
        e: &Expr,
        op: UnaryOp,
        operand: &Expr,
        operand_ty: TyId,
    ) -> (ty:
        TyId)
        requires
            old(self).wf(),
        ensures
            adds_to(old(self)@.st.diagnostics, final(self)@.st.diagnostics),
            final(self).wf(),
            later(old(self)@.types, final(self)@.types),
            (final(self)@, ty) == old(self)@.end_unary(cx, *e, op, *operand, operand_ty),
    {
        proof {
            reveal(World::end_unary);
        }
        match op {
            UnaryOp::Not => {
                let wanted = self.builtin(BuiltinType::Bool);
                self.coerce(cx, operand, operand_ty, wanted);
                wanted
            },
            UnaryOp::Negate => if self.is_builtin_or_refined(cx, operand_ty, BuiltinType::Int) {
                self.builtin(BuiltinType::Int)
            } else if self.is_builtin_or_refined(cx, operand_ty, BuiltinType::Float) {
                self.builtin(BuiltinType::Float)
            } else {
                self.text_error(
                    "InvalidGenericOperation",
                    "unary `-` requires Int or Float",
                    e.span,
                );
                TyId(0)
            },
        }
    }

    fn both_are(
        &self,
        cx: &Context,
        left: TyId,
        right: TyId,
        builtin: BuiltinType,
    ) -> (result: bool)
        requires
            self.wf(),
        ensures
            result == self@.both_are(cx, left, right, builtin),
    {
        self.is_builtin_or_refined(cx, left, builtin) && self.is_builtin_or_refined(
            cx,
            right,
            builtin,
        )
    }

    fn end_equality(&mut self, cx: &Context, e: &Expr, left: TyId, right: TyId)
        requires
            old(self).wf(),
        ensures
            adds_to(old(self)@.st.diagnostics, final(self)@.st.diagnostics),
            final(self).wf(),
            later(old(self)@.types, final(self)@.types),
            final(self)@ == old(self)@.end_equality(cx, *e, left, right),
    {
        proof {
            reveal(World::end_equality);
        }
        if !self.assignable(cx, left, right) && !self.assignable(cx, right, left) {
            self.text_error(
                "TypeMismatch",
                "equality operands have incompatible types",
                e.span,
            );
        } else if !(self.supports_value_equality(cx, left) && self.supports_value_equality(
            cx,
            right,
        )) {
            self.text_error(
                "InvalidGenericOperation",
                "equality is unavailable because an operand type does not support value equality",
                e.span,
            );
        }
    }

    pub fn end_binary(
        &mut self,
        cx: &Context,
        e: &Expr,
        op: BinaryOp,
        left: &Expr,
        left_ty: TyId,
        right: &Expr,
        right_ty: TyId,
    ) -> (ty: TyId)
        requires
            old(self).wf(),
        ensures
            adds_to(old(self)@.st.diagnostics, final(self)@.st.diagnostics),
            final(self).wf(),
            later(old(self)@.types, final(self)@.types),
            (final(self)@, ty) == old(self)@.end_binary(
                cx,
                *e,
                op,
                *left,
                left_ty,
                *right,
                right_ty,
            ),
    {
        proof {
            reveal(World::end_binary);
        }
        let truth = self.builtin(BuiltinType::Bool);
        match op {
            BinaryOp::And | BinaryOp::Or => {
                self.coerce(cx, left, left_ty, truth);
                self.coerce(cx, right, right_ty, truth);
                truth
            },
            BinaryOp::Add | BinaryOp::Subtract | BinaryOp::Multiply | BinaryOp::Divide =>
                if self.both_are(cx, left_ty, right_ty, BuiltinType::Int) {
                    self.builtin(BuiltinType::Int)
                } else if self.both_are(cx, left_ty, right_ty, BuiltinType::Float) {
                    self.builtin(BuiltinType::Float)
                } else {
                    self.text_error(
                        "InvalidGenericOperation",
                        "arithmetic operands must have the same numeric base type",
                        e.span,
                    );
                    TyId(0)
                },
            BinaryOp::Equal | BinaryOp::NotEqual => {
                self.end_equality(cx, e, left_ty, right_ty);
                truth
            },
            BinaryOp::Less | BinaryOp::LessEqual | BinaryOp::Greater | BinaryOp::GreaterEqual => {
                if !(self.both_are(cx, left_ty, right_ty, BuiltinType::Int) || self.both_are(
                    cx,
                    left_ty,
                    right_ty,
                    BuiltinType::Float,
                )) {
                    self.text_error(
                        "InvalidGenericOperation",
                        "ordered comparison requires matching Int or Float operands",
                        e.span,
                    );
                }
                truth
            },
        }
    }

    pub fn begin_assignment(
        &mut self,
        cx: &Context,
        target: &Expr,
        target_ty: TyId,
        place: &Place,
    ) -> (dirties: bool)
        requires
            old(self).wf(),
        ensures
            adds_to(old(self)@.st.diagnostics, final(self)@.st.diagnostics),
            final(self).wf(),
            later(old(self)@.types, final(self)@.types),
            (final(self)@, dirties) == old(self)@.begin_assignment(
                cx,
                *target,
                target_ty,
                *place,
            ),
    {
        proof {
            reveal(World::begin_assignment);
        }
        if place.mutability != Mutability::Mutable {
            self.text_error(
                "ImmutableBindingAssignment",
                "assignment target is immutable",
                target.span,
            );
        }
        if self.has_task_obligation(cx, target_ty) {
            self.text_error(
                "TaskAssignmentUnsupported",
                "assigning over a Task-carrying place is unavailable before task transfer ownership is explicit",
                target.span,
            );
            self.set_task(root_owner(place.root), TaskObligationState::Consumed);
        }
        self.check_borrowed_place_use(place, PlaceAccess::Write, target.span);
        if !place.projections.is_empty() && place.root != PlaceRoot::SelfValue {
            self.text_error(
                "ReadonlyReceiverMutation",
                "record fields can only be changed through the owning type's mut self method",
                target.span,
            );
        }
        if place.root == PlaceRoot::SelfValue {
            self.check_invariant_mutation_boundary(
                cx,
                target.span,
                place,
                InvariantMutation::Assignment,
            )
        } else {
            false
        }
    }

    fn store_term(&mut self, place: &Place, term: ProofTerm)
        ensures
            adds_to(old(self)@.st.diagnostics, final(self)@.st.diagnostics),
            final(self)@.types == old(self)@.types,
            final(self)@ == old(self)@.store_term(*place, term),
    {
        proof {
            reveal(World::store_term);
        }
        let symbolic = proof_place(place);
        self.st.flow.proof_facts.invalidate(&symbolic);
        let kept: Option<u32> = match place.root {
            PlaceRoot::Local(local) => Some(local.0),
            _ => None,
        };
        let terms = remove_terms(&self.st.flow.local_terms, &symbolic, kept);
        let terms = match (place.root, &place.projections) {
            (PlaceRoot::Local(local), Chain::Empty) => if term.is_known()
                && !term.contains_place(&symbolic) {
                put_term(&terms, local.0, term)
            } else {
                drop_term(&terms, local.0)
            },
            _ => terms,
        };
        self.st.flow.local_terms = terms;
    }

    pub fn end_assignment(
        &mut self,
        cx: &Context,
        e: &Expr,
        place: &Place,
        target_ty: TyId,
        value: &Expr,
        dirties_self: bool,
    )
        requires
            old(self).wf(),
        ensures
            adds_to(old(self)@.st.diagnostics, final(self)@.st.diagnostics),
            final(self).wf(),
            later(old(self)@.types, final(self)@.types),
            final(self)@ == old(self)@.end_assignment(
                cx,
                *e,
                *place,
                target_ty,
                *value,
                dirties_self,
            ),
    {
        proof {
            reveal(World::end_assignment);
        }
        let term = proof_term(cx, &self.st, value);
        self.store_term(place, term);
        self.assume_established_type(cx, target_ty, &ProofTerm::Place(proof_place(place)));
        if place.root == PlaceRoot::SelfValue && place.projections.is_empty() {
            self.set_dirty(false);
        } else if dirties_self {
            self.set_dirty(true);
        }
        let unit = self.builtin(BuiltinType::Unit);
        self.set_type(e.id, unit);
    }

    pub fn begin_return(&mut self, cx: &Context, bare: bool)
        ensures
            adds_to(old(self)@.st.diagnostics, final(self)@.st.diagnostics),
            final(self)@.types == old(self)@.types,
            final(self)@ == old(self)@.begin_return(cx, bare),
    {
        proof {
            reveal(World::begin_return);
        }
        if self.st.cleanup_depth > 0 {
            self.text_error(
                "ReturnFromCleanup",
                "a defer cleanup cannot return from its enclosing function",
                cx.source.span,
            );
        }
        let unit = self.builtin(BuiltinType::Unit);
        if bare && cx.environment.return_ty != unit {
            self.text_error(
                "TypeMismatch",
                "bare return is only valid for a Unit-returning callable",
                cx.source.span,
            );
        }
    }

    fn unknown_field(&mut self, e: &Expr, prefix: &'static str, name: &String)
        ensures
            adds_to(old(self)@.st.diagnostics, final(self)@.st.diagnostics),
            final(self)@.types == old(self)@.types,
            final(self)@ == old(self)@.unknown_field(*e, prefix, *name),
    {
        proof {
            reveal(World::unknown_field);
        }
        self.error("UnknownField", Message::Name(prefix, name.clone(), "`"), e.span);
    }

    pub fn end_field(
        &mut self,
        cx: &Context,
        e: &Expr,
        receiver: &Expr,
        ty: TyId,
        name: &String,
    ) -> (result:
        TyId)
        requires
            old(self).wf(),
        ensures
            adds_to(old(self)@.st.diagnostics, final(self)@.st.diagnostics),
            final(self).wf(),
            later(old(self)@.types, final(self)@.types),
            (final(self)@, result) == old(self)@.end_field(cx, *e, *receiver, ty, *name),
    {
        proof {
            reveal(World::end_field);
        }
        match self.data(ty) {
            TyData::Nominal { definition, arguments } => match cx.program.kind(definition) {
                Some(DefinitionKind::Record { generic_params: _, fields, invariant_body: _ }) =>
                    match cx.program.find_member(fields, name) {
                        None => {
                            self.unknown_field(e, "record has no field `", name);
                            TyId(0)
                        },
                        Some(field) => match cx.signature(field) {
                            Some(Signature::Field { owner: _, ty }) => {
                                let parameters = cx.program.type_generic_params(definition);
                                let substitution = substitution_for(&parameters, &arguments);
                                let result = self.substitute(*ty, &substitution);
                                match self.place(receiver.id) {
                                    Some(place) => self.set_place(
                                        e.id,
                                        Place {
                                            root: place.root,
                                            projections: place.projections.with(field),
                                            mutability: place.mutability,
                                        },
                                    ),
                                    None => {},
                                }
                                result
                            },
                            _ => TyId(0),
                        },
                    },
                _ => {
                    self.unknown_field(e, "type has no field `", name);
                    TyId(0)
                },
            },
            _ => {
                self.unknown_field(e, "type has no field `", name);
                TyId(0)
            },
        }
    }

    pub fn hand_on(&mut self, cx: &Context, e: &Expr)
        requires
            old(self).wf(),
        ensures
            adds_to(old(self)@.st.diagnostics, final(self)@.st.diagnostics),
            final(self).wf(),
            later(old(self)@.types, final(self)@.types),
            final(self)@ == old(self)@.hand_on(cx, *e),
    {
        proof {
            reveal(World::hand_on);
        }
        if self.st.contract == ContractMode::Ordinary {
            self.consume_task_obligation(cx, e);
        } else {
            self.borrow_task_obligation(cx, e);
        }
    }

    pub fn begin_arm(
        &mut self,
        cx: &Context,
        pattern: &Pattern,
        scrutinee_ty: TyId,
        entry: FlowState,
        rows: &Chain<Chain<CheckedPattern>>,
    ) -> (result: (bool, Chain<Chain<CheckedPattern>>))
        requires
            old(self).wf(),
        ensures
            adds_to(old(self)@.st.diagnostics, final(self)@.st.diagnostics),
            final(self).wf(),
            later(old(self)@.types, final(self)@.types),
            (final(self)@, result.0, result.1) == old(self)@.begin_arm(
                cx,
                *pattern,
                scrutinee_ty,
                entry,
                *rows,
            ),
    {
        proof {
            reveal(World::begin_arm);
        }
        let scopes = self.st.scopes.clone().with(Chain::new());
        self.restored(entry);
        self.set_scopes(scopes);
        let checked = self.check_pattern(cx, pattern, scrutinee_ty);
        let useful = self.pattern_is_useful(cx, scrutinee_ty, rows, &checked);
        if !useful {
            self.text_error(
                "UnreachableMatchArm",
                "match arm is unreachable because previous arms already cover it",
                pattern.span,
            );
        }
        let rows = match checked {
            CheckedPattern::Invalid => rows.clone(),
            checked => rows.clone().with(Chain::new().with(checked)),
        };
        (useful, rows)
    }

    fn drop_pending(&mut self, local: LocalId)
        ensures
            adds_to(old(self)@.st.diagnostics, final(self)@.st.diagnostics),
            final(self)@.types == old(self)@.types,
            final(self)@ == old(self)@.drop_pending(local),
    {
        proof {
            reveal(World::drop_pending);
        }
        self.st.flow.pending_must_scope_locals = remove_id(
            &self.st.flow.pending_must_scope_locals,
            local.0,
        );
    }

    fn end_arm_locals(&mut self, cx: &Context, locals: &Chain<LocalId>)
        ensures
            adds_to(old(self)@.st.diagnostics, final(self)@.st.diagnostics),
            final(self)@.types == old(self)@.types,
            final(self)@ == old(self)@.end_arm_locals(cx, *locals),
        decreases locals,
    {
        proof {
            reveal(World::end_arm_locals);
        }
        match locals {
            Chain::Empty => {},
            Chain::Link(link) => {
                self.end_arm_locals(cx, &link.rest);
                if contains_id(&self.st.flow.pending_must_scope_locals, link.item.0) {
                    self.drop_pending(link.item);
                    self.text_error(
                        "MustScopeRequiresScoped",
                        "a resource extracted by this pattern must be moved directly into `scoped`",
                        cx.local_span(link.item),
                    );
                }
            },
        }
    }

    pub fn end_arm(
        &mut self,
        cx: &Context,
        value: &Expr,
        span: Span,
        arm_ty: TyId,
        useful: bool,
        arms: Arms,
    ) -> (result: Arms)
        requires
            old(self).wf(),
        ensures
            adds_to(old(self)@.st.diagnostics, final(self)@.st.diagnostics),
            final(self).wf(),
            later(old(self)@.types, final(self)@.types),
            (final(self)@, result) == old(self)@.end_arm(cx, *value, span, arm_ty, useful, arms),
    {
        proof {
            reveal(World::end_arm);
        }
        if self.may_have_task_obligation(cx, arm_ty) {
            self.hand_on(cx, value);
        }
        let locals = match &self.st.scopes {
            Chain::Empty => Chain::new(),
            Chain::Link(link) => link.item.clone(),
        };
        self.end_arm_locals(cx, &locals);
        self.check_current_scope_task_obligations(cx);
        let mut scopes = self.st.scopes.clone();
        scopes.drop_last();
        self.set_scopes(scopes);
        if useful && !self.expression_diverges(value.id) {
            let ty = match arms.result {
                Some(previous) => self.join_types(cx, previous, arm_ty, span),
                None => arm_ty,
            };
            let flow = self.flow_state();
            Arms {
                result: Some(ty),
                rows: arms.rows,
                exits: arms.exits.with(flow),
                reachable: true,
            }
        } else {
            arms
        }
    }

    pub fn end_match(
        &mut self,
        cx: &Context,
        scrutinee: &Expr,
        scrutinee_ty: TyId,
        entry: FlowState,
        arms: &Arms,
        has_arms: bool,
    ) -> (ty: TyId)
        requires
            old(self).wf(),
        ensures
            adds_to(old(self)@.st.diagnostics, final(self)@.st.diagnostics),
            final(self).wf(),
            later(old(self)@.types, final(self)@.types),
            (final(self)@, ty) == old(self)@.end_match(
                cx,
                *scrutinee,
                scrutinee_ty,
                entry,
                *arms,
                has_arms,
            ),
    {
        proof {
            reveal(World::end_match);
        }
        if arms.exits.is_empty() {
            self.restored(entry);
        } else {
            let flow = join_flow_states(&arms.exits);
            self.restored(flow);
        }
        self.check_exhaustive(cx, scrutinee_ty, &arms.rows, scrutinee.span);
        if !arms.reachable && has_arms {
            self.types.never()
        } else {
            match arms.result {
                Some(ty) => ty,
                None => TyId(0),
            }
        }
    }
}

} // verus!
