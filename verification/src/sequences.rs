//! In what order the parts of a body are checked, and what is known when it
//! starts.

use vstd::prelude::*;

use crate::associated::bindings_of_target;
use crate::chain::Chain;
use crate::conformance::Goal;
use crate::diagnostics::reported;
use crate::entry::{argument_terms, contract_owner, params_of, requires_of};
use crate::flow::joined_pair;
use crate::hir::{BinaryOp, BodyKind, Expr, ExprKind, Statement};
use crate::ids::{BodyId, DefId, LocalId, ParamId, RegionId, TyId};
use crate::proofs::expr_term;
use crate::resolve::{Names, Sources};
use crate::semantics::{Bound, ConformanceSemantics};
use crate::solver::{bindings_checked, bound_type, solution};
use crate::state::{Context, ContractMode, ExpressionContext, World};
use crate::steps::{bool_ty, unit_ty};
use crate::survey::Survey;
use crate::symbolic::{root_term, ProofRoot, ProofTerm};
use crate::ty::{never_ty, AssociatedTypeBinding, ConceptInstance};
use crate::unify::instantiated;

verus! {

/// What is awaited is consumed, after it was checked.
pub proof fn law_awaited_values_are_consumed(
    w: World,
    cx: &Context,
    e: Expr,
    value: Expr,
    allowed: bool,
)
    ensures
        ({
            let (looked, task) = w.begin_await(cx, e, allowed).check_expr(
                cx,
                value,
                None,
                ExpressionContext::Value,
            );
            w.check_await(cx, e, value, allowed) == looked.consume_task_obligation(
                cx,
                value,
            ).end_await(e, task)
        }),
{
    reveal_with_fuel(World::check_await, 2);
}

/// Where `await` may stand is as before behind an expression that allowed it.
pub proof fn law_await_is_allowed_within(
    w: World,
    cx: &Context,
    e: Expr,
    expected: Option<TyId>,
    context: ExpressionContext,
)
    ensures
        ({
            let (after, ty) = w.check_suspendable_expr(cx, e, expected, context);
            after.st.allow_await_here == w.st.allow_await_here
        }),
        ({
            let (after, ty) = w.check_projected(cx, e, expected);
            &&& after.st.allow_dirty_self_projection == w.st.allow_dirty_self_projection
            &&& after.st.checking_scoped_receiver == w.st.checking_scoped_receiver
        }),
{
    reveal_with_fuel(World::check_suspendable_expr, 2);
    reveal_with_fuel(World::check_projected, 2);
    reveal(World::set_await);
    reveal(World::set_receiver_flags);
}

/// What stands behind a statement that ends nowhere is checked, but leaves what
/// is known and what is to be cleaned up as they were.
pub proof fn law_unreachable_statements(
    w: World,
    cx: &Context,
    statements: Chain<Statement>,
    last: Statement,
    region: RegionId,
)
    ensures
        ({
            let (before, diverged) = w.check_statements(cx, statements, region);
            let (after, diverges) = w.check_statements(cx, statements.pushed(last), region);
            &&& diverged ==> diverges && after.st.flow == before.st.flow
                && after.st.active_defer_effects == before.st.active_defer_effects
            &&& !diverged ==> (after, diverges) == before.check_statement(cx, last, region, false)
        }),
        w.check_statements(cx, Chain::Empty, region) == (w, false),
{
    reveal_with_fuel(World::check_statements, 2);
    reveal(World::restored);
    reveal(World::set_effects);
}

/// A block has the type of its last expression, or unit without one; a block
/// whose statements end nowhere has none.
pub proof fn law_block_types(w: World, cx: &Context, e: Expr, expected: Option<TyId>)
    requires
        e.kind is Block,
    ensures
        match e.kind {
            ExprKind::Block { statements, tail } => {
                let (inside, diverges) = w.open_block().check_statements(
                    cx,
                    statements,
                    RegionId(w.st.next_region),
                );
                let ty = w.check_block(cx, e, expected).1;
                &&& diverges ==> ty == never_ty()
                &&& !diverges ==> match tail {
                    None => ty == unit_ty(),
                    Some(tail) => ty == inside.check_suspendable_expr(
                        cx,
                        *tail,
                        expected,
                        ExpressionContext::Value,
                    ).1,
                }
            },
            _ => true,
        },
{
    reveal_with_fuel(World::check_block, 2);
}

/// The right side of a logical operation may not be reached: behind it holds
/// what holds with it and without it. The right side of any other is always
/// reached.
pub proof fn law_operands_are_reached(w: World, cx: &Context, e: Expr)
    ensures
        match e.kind {
            ExprKind::Binary { op, left, right } => {
                let (first, left_ty) = w.check_expr(cx, *left, None, ExpressionContext::Value);
                let (second, right_ty) = first.check_expr(
                    cx,
                    *right,
                    None,
                    ExpressionContext::Value,
                );
                let logical = op == BinaryOp::And || op == BinaryOp::Or;
                let behind = if logical {
                    second.restored(joined_pair(first.st.flow, second.st.flow))
                } else {
                    second
                };
                w.check_binary(cx, e) == behind.end_binary(
                    cx,
                    e,
                    op,
                    *left,
                    left_ty,
                    *right,
                    right_ty,
                )
            },
            _ => true,
        },
{
    reveal_with_fuel(World::check_binary, 2);
}

/// A `while` goes on behind it, unless its condition ends nowhere.
pub proof fn law_loops_go_on(w: World, cx: &Context, condition: Expr, body: Expr)
    ensures
        ({
            let header = w.forget_proofs();
            let looked = header.check_expr(
                cx,
                condition,
                Some(bool_ty()),
                ExpressionContext::Value,
            ).0;
            let (after, diverges) = w.check_while(cx, Statement::While { condition, body });
            &&& diverges == looked.expression_diverges(condition.id)
            &&& diverges ==> after.st.flow == looked.st.flow
            &&& !diverges ==> after == looked.begin_loop().check_expr(
                cx,
                body,
                Some(unit_ty()),
                ExpressionContext::Value,
            ).0.end_loop(header.st.flow, looked.st.flow, body)
        }),
{
    reveal_with_fuel(World::check_while, 2);
    reveal(World::restored);
}

/// The matched value is handed on before the arms, and every arm starts from
/// what holds then.
pub proof fn law_matched_values(
    w: World,
    cx: &Context,
    e: Expr,
    expected: Option<TyId>,
    context: ExpressionContext,
)
    ensures
        match e.kind {
            ExprKind::Match { scrutinee, arms } => {
                let (looked, ty) = w.check_expr(cx, *scrutinee, None, ExpressionContext::Value);
                let handed = looked.hand_on(cx, *scrutinee);
                let (behind, checked) = handed.check_arms(
                    cx,
                    arms,
                    ty,
                    handed.st.flow,
                    expected,
                    context,
                );
                w.check_match(cx, e, expected, context) == behind.end_match(
                    cx,
                    *scrutinee,
                    ty,
                    handed.st.flow,
                    checked,
                    arms is Link,
                )
            },
            _ => true,
        },
{
    reveal_with_fuel(World::check_match, 2);
}

/// A function or a method starts with its requirements, about its parameters
/// and its receiver; a constant, a constraint and an invariant with none.
pub proof fn law_bodies_start_with_requirements(w: World, cx: &Context)
    ensures
        ({
            let owner = contract_owner(cx);
            let after = w.seed_contracts(cx);
            let own_self = if cx.environment.self_ty is Some {
                Some(root_term(ProofRoot::SelfValue))
            } else {
                None::<ProofTerm>
            };
            let current = argument_terms(
                params_of(cx, owner),
                params_of(cx, cx.environment.owner),
                false,
            );
            &&& cx.source.kind == BodyKind::Function || cx.source.kind == BodyKind::Method
                ==> after == w.assume_contracts(cx, requires_of(cx, owner), own_self, current)
            &&& cx.source.kind == BodyKind::Requires ==> after == w.assume_contracts_before(
                cx,
                requires_of(cx, owner),
                own_self,
                current,
            ).0
            &&& cx.source.kind == BodyKind::Constant || cx.source.kind
                == BodyKind::RefinementPredicate || cx.source.kind == BodyKind::RecordInvariant
                ==> after == w
        }),
{
    reveal(World::seed_contracts);
}

/// All of the requirements are assumed, in order.
pub proof fn law_every_requirement_is_assumed(
    w: World,
    cx: &Context,
    contracts: Chain<BodyId>,
    last: BodyId,
    self_value: Option<ProofTerm>,
    arguments: Chain<(ParamId, ProofTerm)>,
)
    ensures
        w.assume_contracts(cx, contracts.pushed(last), self_value, arguments)
            == w.assume_contracts(cx, contracts, self_value, arguments).assume_contract(
            cx,
            last,
            self_value,
            arguments,
        ),
        w.assume_contracts(cx, Chain::Empty, self_value, arguments) == w,
{
    reveal_with_fuel(World::assume_contracts, 2);
}

/// In a contract the contracts before it are assumed, and neither itself nor
/// any behind it.
pub proof fn law_earlier_contracts_are_assumed(
    w: World,
    cx: &Context,
    contracts: Chain<BodyId>,
    last: BodyId,
    self_value: Option<ProofTerm>,
    arguments: Chain<(ParamId, ProofTerm)>,
)
    ensures
        ({
            let (before, met) = w.assume_contracts_before(cx, contracts, self_value, arguments);
            let (after, now) = w.assume_contracts_before(
                cx,
                contracts.pushed(last),
                self_value,
                arguments,
            );
            &&& now == (met || last == cx.body)
            &&& now ==> after == before
            &&& !now ==> after == before.assume_contract(cx, last, self_value, arguments)
        }),
        w.assume_contracts_before(cx, Chain::Empty, self_value, arguments) == (w, false),
{
    reveal_with_fuel(World::assume_contracts_before, 2);
}

/// What the type of a parameter promises is known of the parameter, and in an
/// exit contract of its value at entry too.
pub proof fn law_parameters_are_established(
    w: World,
    cx: &Context,
    params: Chain<(ParamId, TyId)>,
    last: (ParamId, TyId),
)
    ensures
        ({
            let now = w.seed_param_proofs(cx, params).assume_established_type(
                cx,
                last.1,
                root_term(ProofRoot::Param(last.0.0)),
            );
            w.seed_param_proofs(cx, params.pushed(last)) == if cx.source.kind == BodyKind::Ensures {
                now.assume_established_type(cx, last.1, root_term(ProofRoot::OldParam(last.0.0)))
            } else {
                now
            }
        }),
        w.seed_param_proofs(cx, Chain::Empty) == w,
{
    reveal_with_fuel(World::seed_param_proofs, 2);
}

/// What a conformance binds an associated type to has to meet the bounds of the
/// associated type: where no evidence is found that is reported, once, at the
/// conformance.
pub proof fn law_bound_types_meet_their_bounds(
    survey: Survey,
    cx: &Sources,
    definition: DefId,
    conformance: ConformanceSemantics,
    associated_type: DefId,
    bound: Bound,
)
    ensures
        ({
            let after = survey.check_bound(cx, definition, conformance, associated_type, bound);
            let (made, self_ty) = instantiated(
                survey.names.types,
                bound.self_ty,
                conformance.target,
                conformance.concept,
                true,
            );
            let (put, bindings) = bindings_of_target(
                made,
                bound.concept.bindings,
                conformance.target,
                conformance.concept,
            );
            let answer = solution(
                survey.st.impl_index.seen_from(cx.program, cx.program.module_of(definition)),
                survey.conditions_of(definition),
                put,
                Chain::Empty,
                (Goal {
                    self_ty,
                    concept: ConceptInstance { concept: bound.concept.concept, bindings },
                }),
            ).1;
            &&& answer is Ok ==> after.names.diagnostics == survey.names.diagnostics
            &&& answer is Err ==> reported(
                survey.names.diagnostics,
                after.names.diagnostics,
                "AssociatedTypeBoundNotSatisfied",
                cx.program.span_of(definition),
            )
        }),
{
    reveal(Survey::check_bound);
    reveal(Survey::report);
    reveal(Names::report);
}

/// A local takes over the tasks of its value, has the type of the value, stands
/// for the value in proofs, and is visible from then on.
pub proof fn law_bound_values(
    w: World,
    cx: &Context,
    local: LocalId,
    value: Expr,
    ty: TyId,
    scoped: bool,
    region: RegionId,
)
    ensures
        ({
            let typed = w.consume_task_obligation(cx, value).set_local_type(
                local,
                ty,
            ).register_task_local(cx, local, ty);
            let known = typed.set_local_term(
                local,
                expr_term(cx, typed.st, value, 0),
                true,
            ).assume_established_type(cx, ty, root_term(ProofRoot::Local(local.0)));
            let after = w.end_let(cx, local, value, ty, scoped, region);
            &&& scoped ==> after == known.check_scoped_binding(
                cx,
                local,
                value.span,
                ty,
                region,
            ).declare_once(cx, local)
            &&& !scoped ==> after == known.reject_unscoped(
                cx,
                local,
                ty,
                "this value has a MustScope obligation and must be bound with `scoped`",
            ).declare_once(cx, local)
        }),
{
    reveal(World::end_let);
}

/// A cleanup binds no resource.
pub proof fn law_cleanups_bind_no_resource(w: World, cx: &Context, local: LocalId, scoped: bool)
    ensures
        ({
            let after = w.begin_let(cx, local, scoped);
            &&& scoped && w.st.cleanup_depth > 0 ==> reported(
                w.st.diagnostics,
                after.st.diagnostics,
                "CleanupRegistrationInCleanup",
                cx.local_span_of(local),
            )
            &&& !(scoped && w.st.cleanup_depth > 0) ==> after == w
        }),
{
    reveal(World::begin_let);
    reveal(World::report);
}

/// A matched value is taken over, but in a contract it is only looked at.
pub proof fn law_contracts_take_nothing(w: World, cx: &Context, e: Expr)
    ensures
        w.st.contract == ContractMode::Ordinary ==> w.hand_on(cx, e) == w.consume_task_obligation(
            cx,
            e,
        ),
        w.st.contract != ContractMode::Ordinary ==> w.hand_on(cx, e).st.flow == w.st.flow,
{
    reveal(World::hand_on);
    reveal(World::borrow_task_obligation);
    reveal(World::report_used_task);
    reveal(World::carries);
    reveal(World::report);
    match w.type_of(e.id) {
        Some(ty) => {
            assert(w.has_task_obligation(cx, ty).0.st == w.st);
        },
        None => {},
    }
}

/// Evidence meets a goal only if it binds each associated type as the goal asks.
pub proof fn law_expected_bindings(
    expected: Chain<AssociatedTypeBinding>,
    last: AssociatedTypeBinding,
    actual: Chain<AssociatedTypeBinding>,
)
    ensures
        bindings_checked(expected.pushed(last), actual) is Ok == (bindings_checked(
            expected,
            actual,
        ) is Ok && bound_type(actual, last.associated_type) == Some(last.ty)),
        bindings_checked(Chain::Empty, actual) is Ok,
        bound_type(actual.pushed(last), last.associated_type) == Some(last.ty),
        bound_type(Chain::Empty, last.associated_type) is None,
        bound_type(actual, last.associated_type) matches Some(ty) ==> exists|i: int|
            0 <= i < actual.seq().len() && #[trigger] actual.seq()[i] == (AssociatedTypeBinding {
                associated_type: last.associated_type,
                ty,
            }),
    decreases actual,
{
    reveal_with_fuel(bindings_checked, 2);
    reveal_with_fuel(bound_type, 2);
    if actual is Link {
        let rest = actual.without_last();
        let item = actual->0.item;
        law_expected_bindings(expected, last, rest);
        assert(actual.seq() == rest.seq().push(item));
        match bound_type(actual, last.associated_type) {
            Some(ty) => {
                if item.associated_type == last.associated_type {
                    assert(actual.seq()[rest.seq().len() as int] == item);
                } else {
                    let wanted = AssociatedTypeBinding {
                        associated_type: last.associated_type,
                        ty,
                    };
                    let i = choose|i: int|
                        0 <= i < rest.seq().len() && #[trigger] rest.seq()[i] == wanted;
                    assert(actual.seq()[i] == wanted);
                }
            },
            None => {},
        }
    }
}

} // verus!
