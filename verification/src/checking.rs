//! What is known where a body is checked, and what holds behind its parts.

use vstd::prelude::*;

use crate::chain::Chain;
use crate::coerce::{local_name, scope_without};
use crate::entry::{checked_fields, checked_value};
use crate::flow::{FlowState, TaskObligationOwner};
use crate::hir::{BodyKind, DefinitionKind, Expr, ExprKind, RecordFieldValue, Statement};
use crate::ids::{BodyId, DefId, ExprId, LocalId, ParamId, RegionId, Span, TyId};
use crate::lookup::{local_in_scope, visible_local};
use crate::meaning::{facts_hold, law_verdicts_are_right, meaning, places_are_numbers, Meaning};
use crate::ownership::law_nothing_is_left_at_exit;
use crate::proofs::{contract_of, expr_term};
use crate::semantics::RuntimeCheck;
use crate::state::{Context, ExpressionContext, World};
use crate::steps::bool_ty;
use crate::symbolic::{fact_about, ProofResult, ProofTerm};
use crate::tasks::unfinished;
use crate::ty::{all_below, never_ty, TyData};
use crate::typing::{has_room, has_shape, law_made_types};
use crate::verdicts::{law_assumptions_are_known, says};

verus! {

/// A value that is proved to meet the predicate of a constrained type meets it
/// in every state in which what is known is so, and one that is disproved meets
/// it in none.
pub proof fn law_constrained_values_are_proved(
    state: spec_fn(ProofTerm) -> Meaning,
    w: World,
    cx: &Context,
    definition: DefId,
    e: Expr,
    base: crate::ids::TypeRefId,
    predicate: BodyId,
)
    requires
        cx.program.kind_of(definition) == Some(DefinitionKind::RefinedType { base, predicate }),
        places_are_numbers(state),
        facts_hold(state, checked_value(cx, w, e, w.st.flow.proof_facts).1.facts),
    ensures
        ({
            let verdict = w.refinement_proof(cx, definition, e).1;
            let value = checked_value(cx, w, e, w.st.flow.proof_facts).0;
            let met = meaning(
                state,
                contract_of(cx, w.st.semantics, predicate, Some(value), Chain::Empty),
            ).truth();
            &&& verdict == ProofResult::Proven ==> met
            &&& verdict == ProofResult::Disproven ==> !met
        }),
        ({
            let own = expr_term(cx, w.st, e, 0).unrefined();
            own.known() ==> checked_value(cx, w, e, w.st.flow.proof_facts).0 == own
        }),
{
    reveal(World::refinement_proof);
    let (value, facts) = checked_value(cx, w, e, w.st.flow.proof_facts);
    law_verdicts_are_right(
        state,
        facts,
        contract_of(cx, w.st.semantics, predicate, Some(value), Chain::Empty),
    );
}

/// A record that is proved to meet its invariant meets it in every state in
/// which what is known is so, and one that is disproved meets it in none; a
/// record without an invariant meets it.
pub proof fn law_invariants_are_proved(
    state: spec_fn(ProofTerm) -> Meaning,
    w: World,
    cx: &Context,
    definition: DefId,
    fields: Chain<(DefId, ExprId)>,
    values: Chain<RecordFieldValue>,
)
    requires
        places_are_numbers(state),
        facts_hold(
            state,
            checked_fields(cx, w, fields, values, w.st.flow.proof_facts).1.facts,
        ),
    ensures
        ({
            let verdict = w.invariant_proof(cx, definition, fields, values).1;
            match cx.program.kind_of(definition) {
                Some(
                    DefinitionKind::Record { generic_params: _, fields: _, invariant_body },
                ) => match invariant_body {
                    None => verdict == ProofResult::Proven,
                    Some(contract) => {
                        let terms = checked_fields(
                            cx,
                            w,
                            fields,
                            values,
                            w.st.flow.proof_facts,
                        ).0;
                        let met = meaning(
                            state,
                            contract_of(
                                cx,
                                w.st.semantics,
                                contract,
                                Some(ProofTerm::Record { definition, fields: terms }),
                                Chain::Empty,
                            ),
                        ).truth();
                        &&& verdict == ProofResult::Proven ==> met
                        &&& verdict == ProofResult::Disproven ==> !met
                    },
                },
                _ => verdict == ProofResult::Unknown,
            }
        }),
{
    reveal(World::invariant_proof);
    match cx.program.kind_of(definition) {
        Some(DefinitionKind::Record { generic_params: _, fields: _, invariant_body }) =>
            match invariant_body {
                Some(contract) => {
                    let (terms, facts) = checked_fields(
                        cx,
                        w,
                        fields,
                        values,
                        w.st.flow.proof_facts,
                    );
                    let term = contract_of(
                        cx,
                        w.st.semantics,
                        contract,
                        Some(ProofTerm::Record { definition, fields: terms }),
                        Chain::Empty,
                    );
                    law_verdicts_are_right(state, facts, term);
                },
                None => {},
            },
        _ => {},
    }
}

/// A contract is left to be checked when the program runs, unless it is proved:
/// one that is not checked holds in every state in which what is known is so.
pub proof fn law_unchecked_contracts_hold(
    state: spec_fn(ProofTerm) -> Meaning,
    w: World,
    cx: &Context,
)
    requires
        places_are_numbers(state),
        facts_hold(state, w.st.flow.proof_facts.facts),
        cx.source.kind != BodyKind::Constant,
        cx.source.kind != BodyKind::Function,
        cx.source.kind != BodyKind::Method,
    ensures
        ({
            let after = w.classify_contract_body(cx);
            let term = contract_of(cx, w.st.semantics, cx.body, None, Chain::Empty);
            &&& after.st.semantics.contract_check is Some
            &&& after.st.semantics.contract_check == Some(RuntimeCheck::Proven) ==> meaning(
                state,
                term,
            ).truth()
            &&& w.st.flow.proof_facts.verdict(term) == ProofResult::Proven
                ==> after.st.semantics.contract_check == Some(RuntimeCheck::Proven)
        }),
{
    reveal(World::classify_contract_body);
    reveal(World::ask);
    let term = contract_of(cx, w.st.semantics, cx.body, None, Chain::Empty);
    law_verdicts_are_right(state, w.st.flow.proof_facts, term);
}

/// An assertion that is not checked when the program runs holds in every state
/// in which what is known is so.
pub proof fn law_unchecked_assertions_hold(
    state: spec_fn(ProofTerm) -> Meaning,
    w: World,
    cx: &Context,
    e: Expr,
)
    requires
        places_are_numbers(state),
        facts_hold(state, w.st.flow.proof_facts.facts),
    ensures
        ({
            let term = expr_term(cx, w.st, e, 0);
            let check = if w.st.flow.proof_facts.verdict(term) == ProofResult::Proven {
                RuntimeCheck::Proven
            } else {
                RuntimeCheck::Runtime
            };
            let noted = w.ask(term).set_assertion(e.id, check);
            &&& noted.st.semantics.assertion_checks.lookup(e.id.0) == Some(RuntimeCheck::Proven)
                ==> meaning(state, term).truth()
            &&& w.end_assert(cx, e) == ({
                let (after, recovered) = noted.assume_fact(term, true).recover_receiver_invariant(
                    cx,
                );
                if recovered {
                    after.note_recovery(e)
                } else {
                    after
                }
            })
        }),
{
    reveal(World::end_assert);
    reveal(World::set_assertion);
    law_verdicts_are_right(state, w.st.flow.proof_facts, expr_term(cx, w.st, e, 0));
}

/// On each side of a condition it is known how the condition came out.
pub proof fn law_conditions_are_known(w: World, term: ProofTerm, value: bool)
    ensures
        ({
            let after = w.assume_condition(term, value);
            &&& term.known() ==> says(after.st.flow.proof_facts.verdict(term), value)
            &&& !term.known() ==> after == w
            &&& after.st.flow.task_obligations == w.st.flow.task_obligations
            &&& after.st.flow.borrows == w.st.flow.borrows
            &&& after.st.diagnostics == w.st.diagnostics
        }),
{
    reveal(World::assume_condition);
    reveal(World::ask);
    reveal(World::assume_fact);
    law_assumptions_are_known(w.st.flow.proof_facts, term, value);
}

/// The world is one in which it is known how the condition came out, and what
/// else is known is what `flow` knows.
pub open spec fn is_side(side: World, flow: FlowState, term: ProofTerm, value: bool) -> bool {
    &&& term.known() ==> says(side.st.flow.proof_facts.verdict(term), value)
    &&& side.st.flow == (FlowState { proof_facts: side.st.flow.proof_facts, ..flow })
}

/// The first branch of an `if` is checked where the condition is known to hold,
/// and the second where it is known not to, with what was known before the
/// first.
pub proof fn law_branches_know_the_condition(
    w: World,
    cx: &Context,
    e: Expr,
    expected: Option<TyId>,
    context: ExpressionContext,
    condition: Expr,
    then_branch: Expr,
    else_branch: Expr,
)
    requires
        match e.kind {
            ExprKind::If { condition: a, then_branch: b, else_branch: c } => *a == condition && *b
                == then_branch && match c {
                Some(found) => *found == else_branch,
                None => false,
            },
            _ => false,
        },
    ensures
        ({
            let (asked, _) = w.check_expr(
                cx,
                condition,
                Some(bool_ty()),
                ExpressionContext::Value,
            );
            let term = expr_term(cx, asked.st, condition, 0);
            let entry = asked.st.flow;
            exists|first: World, second: World|
                #![trigger is_side(first, entry, term, true), is_side(second, entry, term, false)]
                ({
                    let (behind, then_ty) = first.check_expr(cx, then_branch, expected, context);
                    let diverges = behind.expression_diverges(then_branch.id);
                    let wanted = if expected is None && !diverges {
                        Some(then_ty)
                    } else {
                        expected
                    };
                    let (last, else_ty) = second.check_expr(
                        cx,
                        else_branch,
                        wanted,
                        context,
                    );
                    &&& is_side(first, entry, term, true)
                    &&& is_side(second, entry, term, false)
                    &&& second.st.diagnostics == behind.st.diagnostics
                    &&& w.check_if(cx, e, expected, context) == last.end_if_else(
                        cx,
                        entry,
                        behind.st.flow,
                        then_ty,
                        diverges,
                        else_branch,
                        else_ty,
                    )
                })
        }),
{
    reveal(World::restored);
    let (asked, _) = w.check_expr(cx, condition, Some(bool_ty()), ExpressionContext::Value);
    let term = expr_term(cx, asked.st, condition, 0);
    let entry = asked.st.flow;
    let first = asked.assume_condition(term, true);
    law_conditions_are_known(asked, term, true);
    lemma_condition_flow(asked, term, true);
    let (behind, then_ty) = first.check_expr(cx, then_branch, expected, context);
    let diverges = behind.expression_diverges(then_branch.id);
    let wanted = if expected is None && !diverges {
        Some(then_ty)
    } else {
        expected
    };
    let back = behind.restored(entry);
    let second = back.assume_condition(term, false);
    law_conditions_are_known(back, term, false);
    lemma_condition_flow(back, term, false);
    let (last, else_ty) = second.check_expr(cx, else_branch, wanted, context);
    assert(is_side(first, entry, term, true));
    assert(is_side(second, entry, term, false));
    assert(w.check_if(cx, e, expected, context) == last.end_if_else(
        cx,
        entry,
        behind.st.flow,
        then_ty,
        diverges,
        else_branch,
        else_ty,
    ));
}

proof fn lemma_condition_flow(w: World, term: ProofTerm, value: bool)
    ensures
        ({
            let after = w.assume_condition(term, value);
            after.st.flow == (FlowState { proof_facts: after.st.flow.proof_facts, ..w.st.flow })
        }),
{
    reveal(World::assume_condition);
    reveal(World::ask);
    reveal(World::assume_fact);
}

/// What a body requires is known where it begins: the last requirement is known
/// to hold, and of each that can be told something is known.
pub proof fn law_requirements_are_known(
    w: World,
    cx: &Context,
    contracts: Chain<BodyId>,
    self_value: Option<ProofTerm>,
    arguments: Chain<(ParamId, ProofTerm)>,
    index: int,
)
    requires
        0 <= index < contracts.seq().len(),
    ensures
        ({
            let after = w.assume_contracts(cx, contracts, self_value, arguments);
            let term = contract_of(
                cx,
                w.st.semantics,
                contracts.seq()[index],
                self_value,
                arguments,
            );
            &&& term.known() ==> fact_about(after.st.flow.proof_facts.facts, term) is Some
            &&& term.known() && index == contracts.seq().len() - 1 ==> says(
                after.st.flow.proof_facts.verdict(term),
                true,
            )
            &&& after.st.semantics == w.st.semantics
            &&& after.st.diagnostics == w.st.diagnostics
        }),
    decreases contracts,
{
    reveal_with_fuel(World::assume_contracts, 2);
    reveal(World::assume_contract);
    reveal(World::assume_fact);
    let rest = contracts.without_last();
    let last = contracts->0.item;
    assert(contracts.seq() == rest.seq().push(last));
    lemma_contracts_keep(w, cx, rest, self_value, arguments);
    let before = w.assume_contracts(cx, rest, self_value, arguments);
    let newest = contract_of(cx, w.st.semantics, last, self_value, arguments);
    law_assumptions_are_known(before.st.flow.proof_facts, newest, true);
    if index < rest.seq().len() {
        law_requirements_are_known(w, cx, rest, self_value, arguments, index);
        let term = contract_of(
            cx,
            w.st.semantics,
            contracts.seq()[index],
            self_value,
            arguments,
        );
        assert(rest.seq()[index] == contracts.seq()[index]);
        if term.known() && newest.known() {
            crate::verdicts::lemma_still_about(
                before.st.flow.proof_facts.facts,
                newest,
                true,
                term,
            );
        }
    } else if newest.known() {
        assert(fact_about(before.st.flow.proof_facts.assumed(newest, true).facts, newest) is Some);
    }
}

proof fn lemma_contracts_keep(
    w: World,
    cx: &Context,
    contracts: Chain<BodyId>,
    self_value: Option<ProofTerm>,
    arguments: Chain<(ParamId, ProofTerm)>,
)
    ensures
        w.assume_contracts(cx, contracts, self_value, arguments).st.semantics == w.st.semantics,
        w.assume_contracts(cx, contracts, self_value, arguments).st.diagnostics
            == w.st.diagnostics,
    decreases contracts,
{
    reveal_with_fuel(World::assume_contracts, 2);
    reveal(World::assume_contract);
    reveal(World::assume_fact);
    if contracts is Link {
        lemma_contracts_keep(w, cx, contracts.without_last(), self_value, arguments);
    }
}

/// The type that an expression turns out to have is noted for it; where a type
/// is asked for, it is the type that the value is adapted to.
pub proof fn law_types_are_noted(
    w: World,
    cx: &Context,
    e: Expr,
    inferred: TyId,
    expected: Option<TyId>,
)
    ensures
        ({
            let (after, ty) = w.finish_expr(cx, e, inferred, expected);
            &&& after.type_of(e.id) == Some(ty)
            &&& match expected {
                Some(wanted) => ty == w.coerce(cx, e, inferred, wanted).1,
                None => ty == inferred && after.st.diagnostics == w.st.diagnostics,
            }
        }),
{
    reveal(World::finish_expr);
    reveal(World::set_type);
    reveal(World::invalidate_mutated_receiver);
    let (adapted, ty) = match expected {
        Some(wanted) => w.coerce(cx, e, inferred, wanted),
        None => (w, inferred),
    };
    lemma_invalidation_keeps(adapted.set_type(e.id, ty), cx, e);
}

proof fn lemma_invalidation_keeps(w: World, cx: &Context, e: Expr)
    ensures
        w.invalidate_mutated_receiver(cx, e).st.semantics == w.st.semantics,
        w.invalidate_mutated_receiver(cx, e).st.diagnostics == w.st.diagnostics,
{
    reveal(World::invalidate_mutated_receiver);
    reveal(World::invalidate_mutated_place);
    match crate::entry::receiver_of(e) {
        Some(receiver) => match (w.place_of(receiver), w.type_of(receiver)) {
            (Some(place), Some(ty)) => {
                lemma_place_invalidation_keeps(w, cx, place, ty);
            },
            _ => {},
        },
        None => {},
    }
}

proof fn lemma_place_invalidation_keeps(
    w: World,
    cx: &Context,
    place: crate::semantics::Place,
    ty: TyId,
)
    ensures
        w.invalidate_mutated_place(cx, place, ty).st.semantics == w.st.semantics,
        w.invalidate_mutated_place(cx, place, ty).st.diagnostics == w.st.diagnostics,
{
    reveal(World::invalidate_mutated_place);
    reveal(World::assume_established_type);
    reveal(World::assume_established_record_fields);
    reveal(World::assume_maybe);
    reveal(World::assume_fact);
    assert forall|v: World, fields: Chain<DefId>, value: ProofTerm|
        (#[trigger] v.assume_fields(cx, fields, value)).st.semantics == v.st.semantics
            && v.assume_fields(cx, fields, value).st.diagnostics == v.st.diagnostics by {
        lemma_fields_keep(v, cx, fields, value);
    }
}

proof fn lemma_fields_keep(w: World, cx: &Context, fields: Chain<DefId>, value: ProofTerm)
    ensures
        w.assume_fields(cx, fields, value).st.semantics == w.st.semantics,
        w.assume_fields(cx, fields, value).st.diagnostics == w.st.diagnostics,
    decreases fields,
{
    reveal_with_fuel(World::assume_fields, 2);
    reveal(World::assume_maybe);
    reveal(World::assume_fact);
    if fields is Link {
        lemma_fields_keep(w, cx, fields.without_last(), value);
    }
}

/// A `return` never comes back, and where control leaves by it no task is left.
pub proof fn law_returns_leave_nothing(
    w: World,
    cx: &Context,
    e: Expr,
    owner: TaskObligationOwner,
)
    requires
        e.kind is Return,
    ensures
        w.check_return(cx, e).1 == never_ty(),
        !unfinished(w.check_return(cx, e).0.task_state(owner)),
{
    let value = e.kind->Return_0;
    let begun = w.begin_return(cx, value is None);
    let before = match value {
        Some(inner) => begun.check_suspendable_expr(
            cx,
            *inner,
            Some(cx.environment.return_ty),
            ExpressionContext::Value,
        ).0.yield_tail(cx, *inner, cx.environment.return_ty),
        None => begun,
    };
    assert(w.check_return(cx, e).0 == before.audit_task_obligations_at_exit(cx));
    law_nothing_is_left_at_exit(before, cx, owner);
}

/// Control does not go on behind a `break` or a `continue`.
pub proof fn law_jumps_do_not_go_on(
    w: World,
    cx: &Context,
    span: Span,
    region: RegionId,
    diverged: bool,
)
    ensures
        w.check_statement(cx, Statement::Break { span }, region, diverged).1,
        w.check_statement(cx, Statement::Continue { span }, region, diverged).1,
{
}

proof fn lemma_scope_without(
    cx: &Context,
    scope: Chain<LocalId>,
    local: LocalId,
    name: Seq<char>,
)
    ensures
        local_in_scope(cx, scope_without(cx, scope, local), name) == if local_name(cx, local)
            == Some(name) {
            None
        } else {
            local_in_scope(cx, scope, name)
        },
    decreases scope,
{
    if scope is Link {
        lemma_scope_without(cx, scope.without_last(), local, name);
    }
}

/// A local that is declared is the one that its name stands for from then on,
/// whatever the name stood for before; every other name stands for what it did.
pub proof fn law_declared_locals_are_seen(w: World, cx: &Context, local: LocalId, name: Seq<char>)
    requires
        w.st.scopes is Link,
    ensures
        ({
            let after = w.declare(cx, local);
            &&& local_name(cx, local) == Some(name) ==> visible_local(cx, after.st.scopes, name)
                == Some(local)
            &&& local_name(cx, local) != Some(name) ==> visible_local(cx, after.st.scopes, name)
                == visible_local(cx, w.st.scopes, name)
            &&& after.st.diagnostics == w.st.diagnostics
            &&& after.st.flow == w.st.flow
        }),
{
    reveal(World::declare);
    let scope = w.st.scopes->0.item;
    lemma_scope_without(cx, scope, local, name);
}

/// A name stands for the local of the innermost scope that has one of that
/// name.
pub proof fn law_inner_scopes_hide(
    cx: &Context,
    scopes: Chain<Chain<LocalId>>,
    inner: Chain<LocalId>,
    name: Seq<char>,
)
    ensures
        visible_local(cx, scopes.pushed(inner), name) == match local_in_scope(cx, inner, name) {
            Some(local) => Some(local),
            None => visible_local(cx, scopes, name),
        },
        match local_in_scope(cx, inner, name) {
            Some(local) => inner.seq().contains(local) && local_name(cx, local) == Some(name),
            None => forall|i: int|
                0 <= i < inner.seq().len() ==> local_name(cx, #[trigger] inner.seq()[i]) != Some(
                    name,
                ),
        },
        visible_local(cx, Chain::Empty, name) is None,
{
    lemma_in_scope(cx, inner, name);
}

proof fn lemma_in_scope(cx: &Context, scope: Chain<LocalId>, name: Seq<char>)
    ensures
        match local_in_scope(cx, scope, name) {
            Some(local) => scope.seq().contains(local) && local_name(cx, local) == Some(name),
            None => forall|i: int|
                0 <= i < scope.seq().len() ==> local_name(cx, #[trigger] scope.seq()[i]) != Some(
                    name,
                ),
        },
    decreases scope,
{
    if scope is Link {
        let rest = scope.without_last();
        let last = scope->0.item;
        lemma_in_scope(cx, rest, name);
        assert(scope.seq() == rest.seq().push(last));
        assert(scope.seq()[rest.seq().len() as int] == last);
        match local_in_scope(cx, rest, name) {
            Some(local) => {
                let i = choose|i: int| 0 <= i < rest.seq().len() && rest.seq()[i] == local;
                assert(scope.seq()[i] == local);
            },
            None => {
                assert forall|i: int| 0 <= i < rest.seq().len() implies rest.seq()[i]
                    == #[trigger] scope.seq()[i] by {}
            },
        }
    }
}

/// What a block opens is closed with it: its scope and its region are gone, and
/// those around it are as they were.
pub proof fn law_blocks_close(w: World)
    ensures
        ({
            let inside = w.open_block();
            &&& inside.st.scopes is Link
            &&& inside.innermost() is Empty
            &&& inside.pop_block().st.scopes == w.st.scopes
            &&& inside.pop_block().st.regions == w.st.regions
            &&& inside.region() == RegionId(w.st.next_region)
            &&& inside.st.flow == w.st.flow
        }),
{
    reveal(World::open_block);
    reveal(World::pop_block);
}

/// What is proved is forgotten where a loop begins: it need not hold when
/// control comes back.
pub proof fn law_loops_forget(w: World, term: ProofTerm)
    ensures
        ({
            let after = w.forget_proofs();
            &&& fact_about(after.st.flow.proof_facts.facts, term) is None
            &&& after.st.flow.local_terms is Empty
            &&& after.st.flow.task_obligations == w.st.flow.task_obligations
            &&& after.st.flow.borrows == w.st.flow.borrows
            &&& after.st.flow.self_dirty == w.st.flow.self_dirty
            &&& after.st.flow.pending_must_scope_locals == w.st.flow.pending_must_scope_locals
            &&& after.st.flow.transferred_must_scope_locals
                == w.st.flow.transferred_must_scope_locals
            &&& after.st.diagnostics == w.st.diagnostics
        }),
{
    reveal(World::forget_proofs);
}

/// How many errors the resources that must not sleep cause: one each.
proof fn lemma_no_suspend(w: World, active: Chain<crate::flow::NoSuspend>, span: Span)
    ensures
        w.report_no_suspend(active, span).st.diagnostics.spec_len() == w.st.diagnostics.spec_len()
            + active.spec_len(),
        active is Empty ==> w.report_no_suspend(active, span) == w,
    decreases active,
{
    reveal(World::report);
    if active is Link {
        lemma_no_suspend(w, active.without_last(), span);
    }
}

/// `await` stands in an async body, where it may, outside cleanups, while
/// nothing is borrowed and no resource is alive that must not sleep; each thing
/// that is against it is reported.
pub proof fn law_awaits(w: World, cx: &Context, e: Expr, allowed: bool)
    ensures
        ({
            let after = w.begin_await(cx, e, allowed);
            let outside: nat = if cx.environment.is_async {
                0
            } else {
                1
            };
            let misplaced: nat = if allowed {
                0
            } else {
                1
            };
            let cleanup: nat = if w.st.cleanup_depth > 0 {
                1
            } else {
                0
            };
            let borrowed: nat = if w.st.flow.borrows is Empty {
                0
            } else {
                1
            };
            after.st.diagnostics.spec_len() == w.st.diagnostics.spec_len() + outside + misplaced
                + cleanup + borrowed + w.st.flow.active_no_suspend.spec_len()
        }),
{
    reveal(World::begin_await);
    reveal(World::report);
    let first = if !cx.environment.is_async {
        w.text_error(
            "AwaitOutsideAsync",
            "`await` is only valid inside an async function or async test",
            e.span,
        )
    } else {
        w
    };
    let second = if !allowed {
        first.text_error(
            "AwaitMustBeStatementBoundary",
            "the current executable async slice requires `await` directly in a binding, return, statement, or block tail",
            e.span,
        )
    } else {
        first
    };
    let third = if second.st.cleanup_depth > 0 {
        second.text_error(
            "AwaitInCleanup",
            "a defer cleanup must complete synchronously and cannot await",
            e.span,
        )
    } else {
        second
    };
    let fourth = if !(third.st.flow.borrows is Empty) {
        third.text_error(
            "AccessAcrossAwait",
            "an active interface access cannot cross an await point",
            e.span,
        )
    } else {
        third
    };
    let count = w.st.diagnostics.spec_len();
    assert(first.st.flow == w.st.flow && first.st.cleanup_depth == w.st.cleanup_depth);
    assert(second.st.flow == w.st.flow && second.st.cleanup_depth == w.st.cleanup_depth);
    assert(third.st.flow == w.st.flow);
    assert(fourth.st.flow == w.st.flow);
    assert(first.st.diagnostics.spec_len() == count + if cx.environment.is_async {
        0nat
    } else {
        1nat
    });
    assert(second.st.diagnostics.spec_len() == first.st.diagnostics.spec_len() + if allowed {
        0nat
    } else {
        1nat
    });
    assert(third.st.diagnostics.spec_len() == second.st.diagnostics.spec_len() + if
        w.st.cleanup_depth > 0 {
        1nat
    } else {
        0nat
    });
    assert(fourth.st.diagnostics.spec_len() == third.st.diagnostics.spec_len() + if
        w.st.flow.borrows is Empty {
        0nat
    } else {
        1nat
    });
    lemma_no_suspend(fourth, w.st.flow.active_no_suspend, e.span);
}

/// A tuple is of the types of its elements, in their order.
pub proof fn law_tuple_types(w: World, cx: &Context, elements: Chain<Expr>, expected: Option<TyId>)
    requires
        ({
            let (inside, types) = w.check_each(
                cx,
                elements,
                w.tuple_elements(elements, expected),
            );
            inside.wf() && has_room(inside, 1) && all_below(types, inside.types.len() as int)
        }),
    ensures
        ({
            let (inside, types) = w.check_each(
                cx,
                elements,
                w.tuple_elements(elements, expected),
            );
            let (after, ty) = w.check_tuple(cx, elements, expected);
            &&& has_shape(after, ty, TyData::Tuple(types))
            &&& types.seq().len() == elements.seq().len()
            &&& after.st == inside.st
        }),
{
    let (inside, types) = w.check_each(cx, elements, w.tuple_elements(elements, expected));
    law_made_types(inside, TyData::Tuple(types));
    lemma_each(w, cx, elements, w.tuple_elements(elements, expected));
}

proof fn lemma_each(w: World, cx: &Context, list: Chain<Expr>, expected: Option<Chain<TyId>>)
    ensures
        w.check_each(cx, list, expected).1.seq().len() == list.seq().len(),
    decreases list,
{
    if list is Link {
        let (before, own) = crate::check::split_expected(expected);
        lemma_each(w, cx, list.without_last(), before);
        let types = w.check_each(cx, list.without_last(), before).1;
        let all = w.check_each(cx, list, expected).1;
        let last = all->0.item;
        assert(all == types.pushed(last));
        assert(all.seq() == types.seq().push(last));
        let item = list->0.item;
        assert(list.seq() == list.without_last().seq().push(item));
    }
}

/// A list that is not empty is a list of the type that is asked for, or of the
/// type of its first element.
pub proof fn law_list_types(
    w: World,
    cx: &Context,
    e: Expr,
    elements: Chain<Expr>,
    expected: Option<TyId>,
)
    requires
        elements is Link,
        ({
            let (inside, ty) = w.check_elements(cx, elements, w.list_element(expected));
            inside.wf() && has_room(inside, 1) && ty.0 < inside.types.len()
        }),
    ensures
        ({
            let (inside, element) = w.check_elements(cx, elements, w.list_element(expected));
            let (after, ty) = w.check_list(cx, e, elements, expected);
            &&& has_shape(after, ty, TyData::List(element))
            &&& match expected {
                Some(wanted) => match w.data(wanted) {
                    TyData::List(asked) => element == asked,
                    _ => true,
                },
                None => true,
            }
        }),
{
    let (inside, ty) = w.check_elements(cx, elements, w.list_element(expected));
    law_made_types(inside, TyData::List(ty));
    match w.list_element(expected) {
        Some(asked) => lemma_elements(w, cx, elements, asked),
        None => {},
    }
}

proof fn lemma_elements(w: World, cx: &Context, elements: Chain<Expr>, asked: TyId)
    requires
        elements is Link,
    ensures
        w.check_elements(cx, elements, Some(asked)).1 == asked,
    decreases elements,
{
    if elements.without_last() is Link {
        lemma_elements(w, cx, elements.without_last(), asked);
    }
}

} // verus!
