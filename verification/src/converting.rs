//! Values that become interfaces, arguments that become parameters, and
//! constants that become values.

use vstd::prelude::*;

use crate::chain::{lemma_len, Chain};
use crate::constants::{float_value, ConstantEvaluationState};
use crate::conformance::Goal;
use crate::diagnostics::reported;
use crate::hir::{Expr, Literal, Program};
use crate::ids::{DefId, TyId};
use crate::literals::{literal_int, literal_text};
use crate::obligations::solved;
use crate::resolve::Names;
use crate::semantics::{
    CallableSignature, Coercion, ConstantValue, FloatFact, FloatOperation, ViewSource,
};
use crate::state::{Context, World};
use crate::substitution::Substitution;
use crate::survey::Survey;
use crate::table::Table;
use crate::ty::{ConceptInstance, Mutability, TyData};
use crate::unify::paired;

verus! {

/// A value is refused as an interface exactly if it must be scoped, carries a
/// task, or may for all that is known; that is reported first of all.
pub proof fn law_refused_interfaces(w: World, cx: &Context, concrete: TyId, e: Expr)
    ensures
        ({
            let (after, refused) = w.reject_dyn_obligation(cx, concrete, e);
            let (first, must) = w.has_must_scope_obligation(cx, concrete);
            let (second, task) = first.has_task_obligation(cx, concrete);
            let (third, unknown) = second.has_unknown_discard_obligation(cx, concrete);
            &&& refused <==> must || task || unknown
            &&& !refused ==> after == third && after.st == w.st
            &&& refused ==> exists|told: World|
                reported(
                    w.st.diagnostics,
                    told.st.diagnostics,
                    "IllegalDynConversion",
                    e.span,
                ) && after == #[trigger] told.consume_task_obligation_with_type(cx, e, concrete)
        }),
{
    reveal(World::reject_dyn_obligation);
    reveal(World::carries);
    reveal(World::report);
    let (after, refused) = w.reject_dyn_obligation(cx, concrete, e);
    let (first, must) = w.has_must_scope_obligation(cx, concrete);
    let (second, task) = first.has_task_obligation(cx, concrete);
    let (third, unknown) = second.has_unknown_discard_obligation(cx, concrete);
    let scoped = first.text_error(
        "IllegalDynConversion",
        "a value with a MustScope obligation cannot be erased to dyn",
        e.span,
    );
    let waiting = second.text_error(
        "IllegalDynConversion",
        "a value containing an unconsumed Task cannot be erased to dyn",
        e.span,
    );
    let open = third.text_error(
        "IllegalDynConversion",
        "a type with unresolved generic obligations cannot be erased to dyn",
        e.span,
    );
    if must {
        assert(after == scoped.consume_task_obligation_with_type(cx, e, concrete));
    } else if task {
        assert(after == waiting.consume_task_obligation_with_type(cx, e, concrete));
    } else if unknown {
        assert(after == open.consume_task_obligation_with_type(cx, e, concrete));
    }
}

/// A value that is not refused becomes an interface by the evidence that its
/// type conforms to the interface's concept, which is noted with it; without
/// evidence that is reported. Where the call borrows, an interface that can
/// change its value needs a place that can be changed.
pub proof fn law_interface_values(
    w: World,
    cx: &Context,
    e: Expr,
    actual: TyId,
    expected: TyId,
    mutability: Mutability,
    target: TyId,
    instance: ConceptInstance,
)
    requires
        w.data(target) == TyData::DynTarget(instance),
        !w.reject_dyn_obligation(cx, actual, e).1,
        w.st.dynamic_coercion_mode != crate::state::DynamicCoercionMode::CallBorrow,
    ensures
        ({
            let asked = w.reject_dyn_obligation(cx, actual, e).0;
            let (after, ty) = w.coerce_to_dynamic(
                cx,
                e,
                actual,
                expected,
                mutability,
                target,
            );
            &&& ty == expected
            &&& match solved(cx, asked.types, Goal { self_ty: actual, concept: instance }).1 {
                Ok(witness) => {
                    &&& after.st.diagnostics == asked.st.diagnostics
                    &&& after.st.semantics.expression_coercions.lookup(e.id.0) == Some(
                        Coercion::ConcreteToDyn,
                    )
                    &&& match after.st.semantics.views.lookup(e.id.0) {
                        Some(view) => view.mutable == (mutability == Mutability::Mutable)
                            && match view.source {
                            ViewSource::Concrete { witness: noted, writeback } => noted == witness
                                && writeback is None,
                            _ => false,
                        },
                        None => false,
                    }
                },
                Err(_) => after.st.diagnostics is Link && after.st.diagnostics->0.rest
                    == asked.st.diagnostics && after.st.diagnostics->0.item.primary == e.span,
            }
        }),
{
    reveal(World::coerce_to_dynamic);
    reveal(World::solve_witness);
    reveal(World::set_view);
    reveal(World::set_coercion);
    reveal(World::report);
    law_refused_interfaces(w, cx, actual, e);
}

/// Before the arguments of a call are checked, its type arguments are those
/// that are written, position by position, and what the expected type says;
/// too many of them are reported, and so is a wrong number of arguments.
pub proof fn law_started_calls(
    w: World,
    e: Expr,
    signature: CallableSignature,
    arguments: Chain<Expr>,
    explicit: Chain<TyId>,
    substitution: Substitution,
)
    ensures
        ({
            let (after, known) = w.start_callable(
                e,
                signature,
                arguments,
                false,
                explicit,
                None,
                substitution,
            );
            let counted = signature.params.seq().len() == arguments.seq().len();
            let fits = explicit.seq().len() <= signature.call_generic_params.seq().len();
            &&& known == paired(signature.call_generic_params, explicit, substitution)
            &&& counted && fits ==> after == w
            &&& counted && !fits ==> reported(
                w.st.diagnostics,
                after.st.diagnostics,
                "TypeMismatch",
                e.span,
            )
            &&& !counted && fits ==> reported(
                w.st.diagnostics,
                after.st.diagnostics,
                "TypeMismatch",
                e.span,
            )
        }),
{
    reveal(World::start_callable);
    reveal(World::check_arity);
    reveal(World::call_arity);
    reveal(World::report);
    lemma_len(signature.params);
    lemma_len(arguments);
    lemma_len(explicit);
    lemma_len(signature.call_generic_params);
}

/// The known result of an operation on floats is the one that was last given
/// for exactly that operation on exactly those floats.
pub proof fn law_float_facts(
    facts: Chain<FloatFact>,
    fact: FloatFact,
    operation: FloatOperation,
)
    ensures
        float_value(facts.pushed(fact), fact.operation) == Some(fact.value),
        operation != fact.operation ==> float_value(facts.pushed(fact), operation) == float_value(
            facts,
            operation,
        ),
        float_value(Chain::Empty, operation) is None,
{
    reveal_with_fuel(float_value, 2);
}

/// A literal in a constant has the value that it denotes; one that denotes
/// none is reported, and the unit literal is no constant.
pub proof fn law_constant_literals(s: Survey, e: Expr, literal: Literal)
    ensures
        ({
            let (after, value) = s.evaluate_literal(e, literal);
            match literal {
                Literal::Bool(a) => after == s && value == Some(ConstantValue::Bool(a)),
                Literal::Int(text) => match literal_int(text@) {
                    Some(a) => after == s && value == Some(ConstantValue::Int(a)),
                    None => value is None && reported(
                        s.names.diagnostics,
                        after.names.diagnostics,
                        "ConstantEvaluationFailed",
                        e.span,
                    ),
                },
                Literal::Float(_, Some(bits)) => after == s && value == Some(
                    ConstantValue::Float(bits),
                ),
                Literal::Float(_, None) => value is None && reported(
                    s.names.diagnostics,
                    after.names.diagnostics,
                    "ConstantEvaluationFailed",
                    e.span,
                ),
                Literal::Text(text) => match literal_text(text@) {
                    Some(a) => after == s && value == Some(ConstantValue::Text(a)),
                    None => value is None && reported(
                        s.names.diagnostics,
                        after.names.diagnostics,
                        "ConstantEvaluationFailed",
                        e.span,
                    ),
                },
                Literal::Unit => value is None && reported(
                    s.names.diagnostics,
                    after.names.diagnostics,
                    "InvalidConstantExpression",
                    e.span,
                ),
            }
        }),
{
    reveal(Survey::evaluate_literal);
    reveal(Survey::error);
    reveal(Names::report);
}

/// A constant that is asked for while it is being evaluated is part of a
/// cycle, which is reported once; one that is evaluated has the value that was
/// entered, and one that failed has none.
pub proof fn law_constant_cycles(
    s: Survey,
    program: &Program,
    definition: DefId,
    states: Table<ConstantEvaluationState>,
)
    ensures
        ({
            let (after, next, value) = s.known_constant(
                program,
                definition,
                states,
                ConstantEvaluationState::Evaluating,
            );
            &&& value is None
            &&& reported(
                s.names.diagnostics,
                after.names.diagnostics,
                "ConstantCycle",
                program.span_of(definition),
            )
            &&& next.lookup(definition.0) == Some(ConstantEvaluationState::Failed)
        }),
        s.known_constant(program, definition, states, ConstantEvaluationState::Complete) == (
            s,
            states,
            s.st.constants.lookup(definition.0),
        ),
        s.known_constant(program, definition, states, ConstantEvaluationState::Failed) == (
            s,
            states,
            None::<ConstantValue>,
        ),
{
    reveal(Survey::known_constant);
    reveal(Survey::error);
    reveal(Names::report);
}

/// The value that a constant is found to have is entered for it, and it is
/// evaluated; without one it has failed, and nothing is entered.
pub proof fn law_constant_values_are_entered(
    s: Survey,
    definition: DefId,
    states: Table<ConstantEvaluationState>,
    value: Option<ConstantValue>,
)
    ensures
        ({
            let (after, next, found) = s.finish_constant(definition, states, value);
            &&& found == value
            &&& value is Some ==> after.st.constants.lookup(definition.0) == value
                && next.lookup(definition.0) == Some(ConstantEvaluationState::Complete)
            &&& value is None ==> after == s && next.lookup(definition.0) == Some(
                ConstantEvaluationState::Failed,
            )
            &&& after.names == s.names
        }),
{
    reveal(Survey::finish_constant);
    reveal(Survey::set_constant);
}

} // verus!
